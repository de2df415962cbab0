use nexus_cli::memory::{memory_status, suggested_node_count, used_memory, MemoryStatus};

#[test]
fn test_memory_status_calculation() {
    // total 1000 bytes; the status follows from what is available
    assert_eq!(memory_status(1000, 400), MemoryStatus::Safe);
    assert_eq!(memory_status(1000, 250), MemoryStatus::Warning);
    assert_eq!(memory_status(1000, 150), MemoryStatus::Danger);
    assert_eq!(memory_status(1000, 50), MemoryStatus::Emergency);
}

#[test]
fn used_memory_is_total_minus_available() {
    assert_eq!(used_memory(1000, 700), 300);
    assert_eq!(memory_status(1000, 700), MemoryStatus::Safe);
    assert_eq!(used_memory(100, 200), 0);
    assert_eq!(used_memory(0, 0), 0);
}

#[test]
fn zero_total_memory_is_safe() {
    assert_eq!(memory_status(0, 0), MemoryStatus::Safe);
    assert_eq!(memory_status(0, 10), MemoryStatus::Safe);
}

#[test]
fn status_thresholds_are_inclusive() {
    assert_eq!(memory_status(1000, 301), MemoryStatus::Safe);
    assert_eq!(memory_status(1000, 300), MemoryStatus::Warning);
    assert_eq!(memory_status(1000, 200), MemoryStatus::Danger);
    assert_eq!(memory_status(1000, 100), MemoryStatus::Emergency);
    assert_eq!(memory_status(u64::MAX, 0), MemoryStatus::Emergency);
}

#[test]
fn suggestions_per_status() {
    assert_eq!(suggested_node_count(MemoryStatus::Safe, 5, 1, 10), 10);
    assert_eq!(suggested_node_count(MemoryStatus::Warning, 5, 1, 10), 4);
    assert_eq!(suggested_node_count(MemoryStatus::Danger, 5, 1, 10), 3);
    assert_eq!(suggested_node_count(MemoryStatus::Emergency, 5, 1, 10), 2);
    assert_eq!(suggested_node_count(MemoryStatus::Emergency, 2, 1, 10), 1);
    assert_eq!(suggested_node_count(MemoryStatus::Danger, 0, 0, 10), 0);
}

#[test]
fn suggestions_stay_within_bounds() {
    for status in [
        MemoryStatus::Safe,
        MemoryStatus::Warning,
        MemoryStatus::Danger,
        MemoryStatus::Emergency,
    ] {
        for current in 0..=10 {
            let s = suggested_node_count(status, current, 1, 10);
            assert!(s >= 1 && s <= 10);
        }
    }
}

#[test]
fn status_labels() {
    assert_eq!(MemoryStatus::Safe.label(), "Safe");
    assert_eq!(MemoryStatus::Warning.label(), "Warning");
    assert_eq!(MemoryStatus::Danger.label(), "Danger");
    assert_eq!(MemoryStatus::Emergency.label(), "Emergency");
}
