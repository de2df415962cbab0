use nexus_cli::proof_stats::{ProofStats, ProofStatsManager, DEFAULT_AUTO_SAVE_INTERVAL};
use std::path::PathBuf;

#[test]
fn test_proof_stats_new() {
    let stats = ProofStats::new();
    assert_eq!(stats.total_proofs, 0);
    assert!(stats.node_counts.is_empty());
    assert!(!stats.session_id.is_empty());
}

#[test]
fn test_increment_proof_count() {
    let mut stats = ProofStats::new();
    stats.increment_proof_count(123);
    stats.increment_proof_count(123);
    stats.increment_proof_count(456);

    assert_eq!(stats.get_node_count(123), 2);
    assert_eq!(stats.get_node_count(456), 1);
    assert_eq!(stats.get_total_proofs(), 3);
}

#[test]
fn test_merge_stats() {
    let mut stats1 = ProofStats::new();
    stats1.increment_proof_count(123);
    stats1.increment_proof_count(456);

    let mut stats2 = ProofStats::new();
    stats2.increment_proof_count(123);
    stats2.increment_proof_count(789);

    stats1.merge(&stats2);

    assert_eq!(stats1.get_node_count(123), 2);
    assert_eq!(stats1.get_node_count(456), 1);
    assert_eq!(stats1.get_node_count(789), 1);
    assert_eq!(stats1.get_total_proofs(), 4);
}

#[test]
fn test_reset() {
    let mut stats = ProofStats::new();
    stats.increment_proof_count(123);
    stats.increment_proof_count(456);

    assert_eq!(stats.get_total_proofs(), 2);

    stats.reset();

    assert_eq!(stats.get_total_proofs(), 0);
    assert!(stats.node_counts.is_empty());
}

#[test]
fn new_at_formats_session_digest_in_hex() {
    let stats = ProofStats::new_at(1_700_000_000, 0xbeef);
    assert_eq!(stats.session_id, "beef");
    assert_eq!(stats.session_start, 1_700_000_000);
    assert_eq!(stats.last_updated, 1_700_000_000);
    let zero = ProofStats::new_at(5, 0);
    assert_eq!(zero.session_id, "0");
    let max = ProofStats::new_at(5, u64::MAX);
    assert_eq!(max.session_id, "ffffffffffffffff");
}

#[test]
fn increment_at_sets_last_update() {
    let mut stats = ProofStats::new_at(10, 1);
    stats.increment_proof_count_at(7, 42);
    assert_eq!(stats.last_updated, 42);
    assert_eq!(stats.session_start, 10);
    assert_eq!(stats.get_node_count(7), 1);
    assert_eq!(stats.get_node_count(8), 0);
}

#[test]
fn merge_keeps_later_update_and_totals_agree() {
    let mut a = ProofStats::new_at(100, 1);
    a.increment_proof_count_at(1, 150);
    let mut b = ProofStats::new_at(100, 2);
    b.increment_proof_count_at(1, 120);
    b.increment_proof_count_at(2, 200);
    b.increment_proof_count_at(2, 210);
    a.merge(&b);
    assert_eq!(a.last_updated, 210);
    assert_eq!(a.get_node_count(1), 2);
    assert_eq!(a.get_node_count(2), 2);
    let sum: u64 = a.get_all_node_counts().values().sum();
    assert_eq!(sum, a.get_total_proofs());
    assert_eq!(a.get_total_proofs(), 4);
    assert_eq!(a.session_id, "1");
}

#[test]
fn reset_at_starts_new_session() {
    let mut stats = ProofStats::new_at(1, 0xa);
    stats.increment_proof_count_at(3, 2);
    stats.reset_at(99, 0x10);
    assert_eq!(stats.get_total_proofs(), 0);
    assert_eq!(stats.session_start, 99);
    assert_eq!(stats.last_updated, 99);
    assert_eq!(stats.session_id, "10");
}

#[test]
fn manager_auto_save_due_after_interval() {
    let mut manager = ProofStatsManager::new(PathBuf::from("/tmp/unused_stats.json"));
    assert_eq!(manager.get_total_proofs(), 0);
    // never saved: the last save time is zero
    assert!(manager.record_proof(1, DEFAULT_AUTO_SAVE_INTERVAL));
    let outcome = manager.force_save(Ok(()), 100);
    assert!(outcome.is_ok());
    assert!(!manager.record_proof(1, 100 + DEFAULT_AUTO_SAVE_INTERVAL - 1));
    assert!(manager.record_proof(2, 100 + DEFAULT_AUTO_SAVE_INTERVAL));
    assert_eq!(manager.get_node_count(1), 2);
    assert_eq!(manager.get_node_count(2), 1);
    assert_eq!(manager.get_total_proofs(), 3);
}

#[test]
fn manager_failed_save_keeps_last_save_time() {
    let mut manager = ProofStatsManager::from_stats(
        ProofStats::new_at(0, 0),
        PathBuf::from("/tmp/unused_stats.json"),
        50,
    );
    let failed = manager.force_save(
        Err(std::io::Error::new(std::io::ErrorKind::Other, "disk full")),
        500,
    );
    assert!(failed.is_err());
    // still measured from 50
    assert!(manager.record_proof(9, 80));
    manager.set_auto_save_interval(1000);
    assert!(!manager.record_proof(9, 81));
    assert_eq!(manager.get_file_path(), &PathBuf::from("/tmp/unused_stats.json"));
    assert_eq!(manager.get_all_node_counts().get(&9), Some(&2));
}

#[test]
fn manager_reset_empties_stats() {
    let mut manager = ProofStatsManager::new(PathBuf::from("/tmp/x.json"));
    manager.record_proof(4, 0);
    manager.reset();
    assert_eq!(manager.get_total_proofs(), 0);
    assert_eq!(manager.get_node_count(4), 0);
    assert!(!manager.stats().session_id.is_empty());
}

#[test]
fn counts_after_a_sequence_are_occurrences() {
    let ids: [u64; 5] = [1, 2, 1, 3, 1];
    let mut stats = ProofStats::new();
    for id in ids {
        stats.increment_proof_count(id);
    }
    for n in [1u64, 2, 3, 4] {
        let expected = ids.iter().filter(|x| **x == n).count() as u64;
        assert_eq!(stats.get_node_count(n), expected);
    }
    assert_eq!(stats.get_node_count(1), 3);
    assert_eq!(stats.get_node_count(4), 0);
    let sum: u64 = stats.get_all_node_counts().values().sum();
    assert_eq!(stats.get_total_proofs(), 5);
    assert_eq!(stats.get_total_proofs(), sum);
}

#[test]
fn merge_of_counted_stats_counts_both_sequences() {
    let mut a = ProofStats::new();
    for id in [5u64, 6, 5] {
        a.increment_proof_count(id);
    }
    let mut b = ProofStats::new();
    for id in [6u64, 7] {
        b.increment_proof_count(id);
    }
    a.merge(&b);
    assert_eq!(a.get_node_count(5), 2);
    assert_eq!(a.get_node_count(6), 2);
    assert_eq!(a.get_node_count(7), 1);
    let sum: u64 = a.get_all_node_counts().values().sum();
    assert_eq!(a.get_total_proofs(), 5);
    assert_eq!(a.get_total_proofs(), sum);
}

#[test]
fn session_ids_are_lower_hex() {
    let is_hex = |s: &str| !s.is_empty() && s.chars().all(|c| c.is_ascii_digit() || ('a'..='f').contains(&c));
    let mut stats = ProofStats::new();
    assert!(is_hex(&stats.session_id));
    assert!(stats.session_start > 0);
    stats.reset();
    assert!(is_hex(&stats.session_id));
    let d = ProofStats::default();
    assert!(is_hex(&d.session_id));
    let copy = d.clone();
    assert_eq!(copy.session_id, d.session_id);
    assert_eq!(copy.total_proofs, d.total_proofs);
}
