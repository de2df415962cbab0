use nexus_cli::display::{
    EnhancedDisplay, KeyOutcome, ScalingLogEntry, ScalingOperation, NODES_PER_PAGE,
};
use nexus_cli::proof_stats::ProofStatsManager;
use std::path::PathBuf;

fn fresh_display(max_log_entries: usize) -> EnhancedDisplay {
    let manager = ProofStatsManager::new(PathBuf::from("/tmp/nexus_display_test_stats.json"));
    EnhancedDisplay::new(manager, max_log_entries)
}

fn log_entry(operation: ScalingOperation, node_id: Option<u64>, reason: &str) -> ScalingLogEntry {
    ScalingLogEntry {
        timestamp: 0,
        operation,
        node_id,
        reason: reason.to_string(),
        memory_used: 0,
        memory_total: 0,
    }
}

#[test]
fn test_enhanced_display_creation() {
    let display = fresh_display(10);
    assert_eq!(display.active_node_count(), 0);
    assert_eq!(display.total_proof_count(), 0);
    assert_eq!(display.scaling_log_count(), 0);
}

#[test]
fn test_node_status_update() {
    let mut display = fresh_display(10);
    display.update_node_status(1, "🔄 Running".to_string(), 0);
    assert_eq!(display.active_node_count(), 1);

    display.update_node_status(1, "✅ Completed".to_string(), 0);
    assert_eq!(display.active_node_count(), 1);
}

#[test]
fn test_scaling_logs() {
    let mut display = fresh_display(3);
    display.add_scaling_log(log_entry(ScalingOperation::ScaleUp, Some(1), "Memory usage low"));
    assert_eq!(display.scaling_log_count(), 1);
    for i in 2..=5 {
        display.add_scaling_log(log_entry(ScalingOperation::ScaleDown, Some(i), "Memory pressure"));
    }
    assert_eq!(display.scaling_log_count(), 3);
    let kept: Vec<Option<u64>> = display.scaling_logs().iter().map(|e| e.node_id).collect();
    assert_eq!(kept, vec![Some(3), Some(4), Some(5)]);
}

#[test]
fn test_proof_counting() {
    let mut display = fresh_display(10);
    display.update_node_status(1, "Proof submitted successfully".to_string(), 0);
    assert_eq!(display.total_proof_count(), 1);

    display.update_node_status(1, "Successfully submitted proof".to_string(), 0);
    assert_eq!(display.total_proof_count(), 2);
}

#[test]
fn test_pause_functionality() {
    let mut display = fresh_display(10);
    display.update_node_status(1, "🔄 Running".to_string(), 0);
    display.update_node_status(2, "✅ Completed".to_string(), 0);
    assert_eq!(display.active_node_count(), 2);
}

#[test]
fn test_auto_paging_functionality() {
    let mut display = fresh_display(10);
    for i in 1..=41 {
        display.update_node_status(i, "🔄 Running".to_string(), 0);
    }
    assert_eq!(display.active_node_count(), 41);
    let current_page = display.current_page();
    assert_eq!(current_page, 1);
}

#[test]
fn stop_status_removes_node_and_requests_render() {
    let mut display = fresh_display(10);
    display.update_node_status(7, "Fetching tasks".to_string(), 0);
    assert!(display.take_render_request());
    assert!(!display.take_render_request());
    display.update_node_status(7, "Stopped".to_string(), 0);
    assert_eq!(display.active_node_count(), 0);
    assert!(display.take_render_request());
    // removing an absent node requests nothing
    display.update_node_status(8, "Shutdown".to_string(), 0);
    assert!(!display.take_render_request());
}

#[test]
fn same_status_twice_renders_once() {
    let mut display = fresh_display(10);
    display.update_node_status(3, "Running".to_string(), 0);
    assert!(display.take_render_request());
    display.update_node_status(3, "Running".to_string(), 0);
    assert!(!display.take_render_request());
    let view = display.page_view();
    assert_eq!(view.entries, vec![(3, "🔄 Running".to_string())]);
}

#[test]
fn paused_display_holds_render_requests() {
    let mut display = fresh_display(10);
    display.update_node_status(1, "Running".to_string(), 0);
    assert_eq!(display.handle_key(' '), KeyOutcome::Paused);
    assert!(display.is_paused());
    assert!(!display.take_render_request());
    assert_eq!(display.handle_key(' '), KeyOutcome::Resumed);
    assert!(display.take_render_request());
}

#[test]
fn paging_keys_and_auto_advance() {
    let mut display = fresh_display(10);
    for i in 1..=(NODES_PER_PAGE as u64 * 2 + 1) {
        display.update_node_status(i, "Running".to_string(), 0);
    }
    let first = display.page_view();
    assert_eq!(first.total_pages, 3);
    assert_eq!(first.entries.len(), NODES_PER_PAGE);
    assert_eq!(first.entries[0].0, 1);
    assert_eq!(display.handle_key('n'), KeyOutcome::PageChanged);
    let second = display.page_view();
    assert_eq!(second.page, 2);
    assert_eq!(second.entries[0].0, NODES_PER_PAGE as u64 + 1);
    assert_eq!(display.handle_key('9'), KeyOutcome::PageChanged);
    let clamped = display.page_view();
    assert_eq!(clamped.page, 3);
    assert_eq!(clamped.entries.len(), 1);
    assert_eq!(clamped.entries[0].0, NODES_PER_PAGE as u64 * 2 + 1);
    // page 9 stands past the last page: the automatic turn goes back to the first
    assert!(display.auto_advance_page());
    assert_eq!(display.page_view().page, 1);
    assert_eq!(display.handle_key('p'), KeyOutcome::Ignored);
    assert_eq!(display.handle_key('0'), KeyOutcome::PageChanged);
    assert_eq!(display.page_view().page, 1);
    assert_eq!(display.handle_key('x'), KeyOutcome::Ignored);
}

#[test]
fn single_page_does_not_auto_advance() {
    let mut display = fresh_display(10);
    display.update_node_status(1, "Running".to_string(), 0);
    assert!(!display.auto_advance_page());
    let view = display.page_view();
    assert_eq!(view.total_pages, 1);
    let empty = fresh_display(1).page_view();
    assert_eq!(empty.total_pages, 1);
    assert!(empty.entries.is_empty());
}

#[test]
fn node_statistics_count_by_emoji() {
    let mut display = fresh_display(10);
    display.update_node_status(1, "Running".to_string(), 0);
    display.update_node_status(2, "Success".to_string(), 0);
    display.update_node_status(3, "Error: boom".to_string(), 0);
    display.update_node_status(4, "Fetching".to_string(), 0);
    let st = display.node_statistics();
    assert_eq!(st.total, 4);
    assert_eq!(st.active, 2);
    assert_eq!(st.successful, 1);
    assert_eq!(st.failed, 1);
}

#[test]
fn proof_stats_save_and_reset() {
    let mut display = fresh_display(10);
    let due = display.update_node_status(5, "Proof submitted".to_string(), 100);
    assert!(due);
    assert!(display.save_proof_stats(Ok(()), 100).is_ok());
    let due = display.update_node_status(5, "Proof submitted".to_string(), 101);
    assert!(!due);
    assert_eq!(display.proof_stats().get_node_count(5), 2);
    display.reset_proof_stats();
    assert_eq!(display.total_proof_count(), 0);
}

#[test]
fn scaling_operation_labels() {
    assert_eq!(ScalingOperation::ScaleUp.label(), "🟢 扩容");
    assert_eq!(ScalingOperation::NodeStopped.label(), "⏹️  节点停止");
}
