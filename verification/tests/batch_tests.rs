use nexus_cli::adaptive::{AdaptiveConfig, INITIAL_WORKERS, MAX_WAIT_TIME, MAX_WORKERS, MIN_WAIT_TIME};
use nexus_cli::batch::{
    batch_manager_config, batch_progress, client_id_for, pool_size, worker_count, BatchProgress,
    FixedLineDisplay,
};

#[test]
fn adaptive_wait_time_doubles_and_halves() {
    let mut c = AdaptiveConfig::new();
    assert_eq!(c.wait_time, MIN_WAIT_TIME);
    c.adjust_wait_time(0);
    assert_eq!(c.wait_time, 10);
    c.adjust_wait_time(0);
    c.adjust_wait_time(0);
    assert_eq!(c.wait_time, MAX_WAIT_TIME);
    c.adjust_wait_time(3);
    assert_eq!(c.wait_time, 15);
    c.adjust_wait_time(3);
    c.adjust_wait_time(3);
    assert_eq!(c.wait_time, MIN_WAIT_TIME);
}

#[test]
fn adaptive_workers_follow_success_rate() {
    let mut c = AdaptiveConfig::new();
    c.success_count = 5;
    c.failure_count = 1;
    c.adjust_worker_count();
    assert_eq!(c.worker_count, INITIAL_WORKERS + 1);
    assert_eq!(c.success_count, 0);
    assert_eq!(c.failure_count, 0);
    c.failure_count = 2;
    c.adjust_worker_count();
    c.failure_count = 2;
    c.adjust_worker_count();
    assert_eq!(c.worker_count, INITIAL_WORKERS);
    for _ in 0..20 {
        c.success_count = 1;
        c.adjust_worker_count();
    }
    assert_eq!(c.worker_count, MAX_WORKERS);
    c.adjust_worker_count();
    assert_eq!(c.worker_count, MAX_WORKERS);
}

#[test]
fn client_id_prefers_user_then_node() {
    assert_eq!(client_id_for(Some(("user-1".to_string(), "42".to_string()))), "user-1");
    assert_eq!(client_id_for(Some((String::new(), "42".to_string()))), "42");
    let fallback = client_id_for(Some((String::new(), String::new())));
    assert_eq!(fallback.len(), 36);
    assert_eq!(&fallback[14..15], "4");
    let none = client_id_for(None);
    assert_eq!(none.chars().filter(|c| *c == '-').count(), 4);
    assert_ne!(none, fallback);
}

#[test]
fn worker_counts_are_clamped() {
    assert_eq!(worker_count(None), 1);
    assert_eq!(worker_count(Some(0)), 1);
    assert_eq!(worker_count(Some(4)), 4);
    assert_eq!(worker_count(Some(64)), 8);
}

#[test]
fn batch_config_and_progress() {
    let c = batch_manager_config(10, 50, 7);
    assert_eq!(c.min_start_interval, 1);
    assert_eq!(c.max_start_interval, 30);
    assert_eq!(c.initial_nodes, 2);
    assert_eq!(c.max_nodes, 7);
    assert_eq!(batch_manager_config(1, 1, 3).initial_nodes, 1);
    assert_eq!(batch_progress(0, 0, true), BatchProgress::AllProcessed);
    assert_eq!(batch_progress(1, 0, false), BatchProgress::ManagerStopped);
    assert_eq!(batch_progress(0, 2, true), BatchProgress::Continue);
    assert_eq!(pool_size(10, 3), 3);
    assert_eq!(pool_size(2, 3), 2);
}

#[test]
fn fixed_line_display_counts_and_changes() {
    let mut d = FixedLineDisplay::new(4);
    assert!(d.update_node_status(1, "🔄 working".to_string()));
    assert!(!d.update_node_status(1, "🔄 working".to_string()));
    assert!(d.update_node_status(2, "✅ Proof submitted".to_string()));
    assert!(d.update_node_status(3, "⚠️ retry".to_string()));
    assert!(d.update_node_status(4, "❌ failed".to_string()));
    assert_eq!(d.total_proofs(), 1);
    assert_eq!(d.proof_count(2), 1);
    assert_eq!(d.proof_count(1), 0);
    let s = d.summary();
    assert_eq!(s.total, 4);
    assert_eq!(s.active, 2);
    assert_eq!(s.successful, 1);
    assert_eq!(s.failed, 1);
    assert_eq!(d.lines().get(&3).map(|s| s.as_str()), Some("⚠️ retry"));
}

#[test]
fn fixed_line_display_removes_nodes() {
    let mut d = FixedLineDisplay::new(2);
    d.update_node_status(1, "a".to_string());
    d.update_node_status(2, "b".to_string());
    d.remove_node(1);
    assert_eq!(d.summary().total, 1);
    assert!(d.lines().get(&1).is_none());
    d.remove_node(9);
    assert_eq!(d.summary().total, 1);
}

#[test]
fn prover_constants_keep_their_values() {
    assert_eq!(nexus_cli::consts::prover::TASK_QUEUE_SIZE, 100);
    assert_eq!(nexus_cli::consts::prover::BATCH_SIZE, 33);
    assert_eq!(nexus_cli::consts::prover::LOW_WATER_MARK, 33);
    assert_eq!(nexus_cli::consts::prover::MAX_BACKOFF_DURATION, 60000);
}
