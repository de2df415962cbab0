use nexus_cli::node_manager::{
    decide_scaling, start_interval, DynamicNodeManager, DynamicNodeManagerConfig,
    ScalingAction, ScalingDecision, UsageLevel,
};

fn config(initial_nodes: usize) -> DynamicNodeManagerConfig {
    DynamicNodeManagerConfig {
        min_start_interval: 1,
        max_start_interval: 2,
        initial_nodes,
        max_nodes: usize::MAX,
    }
}

#[test]
fn default_config_values() {
    let c = DynamicNodeManagerConfig::default();
    assert_eq!(c.min_start_interval, 2);
    assert_eq!(c.max_start_interval, 10);
    assert_eq!(c.initial_nodes, 2);
    assert_eq!(c.max_nodes, usize::MAX);
}

#[test]
fn initial_start_up_starts_configured_nodes() {
    let mut m = DynamicNodeManager::new(vec![1, 2, 3], Some(config(2)));
    assert_eq!(m.pending_count(), 3);
    // not running yet: nothing starts
    assert_eq!(m.start_initial_node(0), None);
    m.start_manager();
    assert!(m.is_monitoring());
    assert_eq!(m.start_initial_node(0), Some(1));
    assert_eq!(m.start_initial_node(1), Some(2));
    assert_eq!(m.start_initial_node(2), None);
    assert_eq!(m.active_count(), 2);
    assert_eq!(m.pending_count(), 1);
    assert_eq!(m.total_count(), 3);
    let mut ids = m.active_node_ids();
    ids.sort();
    assert_eq!(ids, vec![1, 2]);
}

#[test]
fn initial_start_up_stops_when_queue_is_empty() {
    let mut m = DynamicNodeManager::new(vec![7], Some(config(5)));
    m.start_manager();
    assert_eq!(m.start_initial_node(0), Some(7));
    assert_eq!(m.start_initial_node(1), None);
}

#[test]
fn scaling_up_and_down() {
    let mut m = DynamicNodeManager::new(vec![1, 2, 3], Some(config(1)));
    m.start_manager();
    assert_eq!(m.start_initial_node(0), Some(1));

    let up = m.scaling_step(Some(10), UsageLevel::BelowWarning);
    assert_eq!(up.current, 1);
    assert_eq!(up.pending, 2);
    assert_eq!(up.suggested, 3);
    assert_eq!(up.adjusted, 3);
    assert_eq!(up.decision, ScalingDecision::ScaleUp);
    assert_eq!(up.action, ScalingAction::StartNode { node_id: 2, wait_secs: 1 });
    assert_eq!(m.active_count(), 2);

    let down = m.scaling_step(Some(1), UsageLevel::High);
    assert_eq!(down.decision, ScalingDecision::ScaleDown);
    assert_eq!(down.action, ScalingAction::StopNode { node_id: 2 });
    assert_eq!(m.active_count(), 1);
    assert_eq!(m.pending_count(), 2);
    assert_eq!(m.total_count(), 3);

    // the stopped node queues behind node 3
    let up_again = m.scaling_step(Some(2), UsageLevel::High);
    assert_eq!(up_again.action, ScalingAction::StartNode { node_id: 3, wait_secs: 2 });
}

#[test]
fn unknown_suggestion_keeps_count() {
    let mut m = DynamicNodeManager::new(vec![1, 2], Some(config(1)));
    m.start_manager();
    m.start_initial_node(0);
    let step = m.scaling_step(None, UsageLevel::BelowSafe);
    assert_eq!(step.suggested, 1);
    assert_eq!(step.decision, ScalingDecision::Steady);
    assert_eq!(step.action, ScalingAction::Hold);
}

#[test]
fn all_active_when_nothing_pending() {
    let mut m = DynamicNodeManager::new(vec![1], Some(config(1)));
    m.start_manager();
    m.start_initial_node(0);
    let step = m.scaling_step(Some(50), UsageLevel::BelowSafe);
    assert_eq!(step.decision, ScalingDecision::AllActive);
    assert_eq!(step.action, ScalingAction::Hold);
}

#[test]
fn graceful_shutdown_signals_started_nodes() {
    let mut m = DynamicNodeManager::new(vec![4, 5, 6], Some(config(2)));
    m.start_manager();
    m.start_initial_node(0);
    m.start_initial_node(1);
    m.stop_manager();
    assert!(!m.is_monitoring());
    let to_signal = m.graceful_shutdown_all();
    assert_eq!(to_signal, vec![4, 5]);
    assert_eq!(m.active_count(), 0);
    assert_eq!(m.pending_count(), 1);
}

#[test]
fn decisions_and_intervals() {
    assert_eq!(decide_scaling(2, 3, 4), ScalingDecision::ScaleUp);
    assert_eq!(decide_scaling(2, 0, 4), ScalingDecision::AllActive);
    assert_eq!(decide_scaling(4, 1, 2), ScalingDecision::ScaleDown);
    assert_eq!(decide_scaling(2, 1, 2), ScalingDecision::Steady);
    let c = DynamicNodeManagerConfig { min_start_interval: 2, max_start_interval: 9, initial_nodes: 1, max_nodes: 1 };
    assert_eq!(start_interval(&c, UsageLevel::BelowSafe), 2);
    assert_eq!(start_interval(&c, UsageLevel::BelowWarning), 5);
    assert_eq!(start_interval(&c, UsageLevel::High), 9);
}

#[test]
fn default_config_used_when_none_given() {
    let mut m = DynamicNodeManager::new(vec![1, 2, 3], None);
    m.start_manager();
    assert_eq!(m.start_initial_node(0), Some(1));
    assert_eq!(m.start_initial_node(1), Some(2));
    assert_eq!(m.start_initial_node(2), None);
}

#[test]
fn running_and_pending_partition_the_ids() {
    let ids = vec![10u64, 20, 30, 40];
    let mut m = DynamicNodeManager::new(ids.clone(), Some(config(2)));
    m.start_manager();
    m.start_initial_node(0);
    m.start_initial_node(1);
    m.scaling_step(Some(3), UsageLevel::BelowWarning);
    m.scaling_step(Some(1), UsageLevel::High);
    let active = m.active_node_ids();
    let mut sorted = active.clone();
    sorted.sort();
    sorted.dedup();
    assert_eq!(sorted.len(), active.len());
    assert_eq!(m.active_count() + m.pending_count(), m.total_count());
    assert_eq!(m.total_count(), ids.len());
    assert_eq!(m.active_count(), 2);
    assert_eq!(sorted, vec![10, 20]);
}
