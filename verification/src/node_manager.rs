use vstd::prelude::*;
use std::collections::{HashSet, VecDeque};
use vstd::multiset::Multiset;

verus! {

/// Start-up pacing and limits of a dynamic node manager.
#[derive(Debug, Clone, Copy)]
pub struct DynamicNodeManagerConfig {
    /// Shortest wait after starting a node, in seconds.
    pub min_start_interval: u64,
    /// Longest wait after starting a node, in seconds.
    pub max_start_interval: u64,
    /// Nodes started one after another when the manager begins.
    pub initial_nodes: usize,
    /// Most nodes the manager runs.
    pub max_nodes: usize,
}

impl Default for DynamicNodeManagerConfig {
    fn default() -> (c: Self)
        ensures
            c.min_start_interval == 2,
            c.max_start_interval == 10,
            c.initial_nodes == 2,
            c.max_nodes == usize::MAX,
    {
        DynamicNodeManagerConfig {
            min_start_interval: 2,
            max_start_interval: 10,
            initial_nodes: 2,
            max_nodes: usize::MAX,
        }
    }
}

/// Where memory use stands against the memory monitor's thresholds.
#[derive(Debug, Clone, Copy, PartialEq, Eq, Structural)]
pub enum UsageLevel {
    /// Below the safe threshold.
    BelowSafe,
    /// At or above the safe threshold and below the warning threshold.
    BelowWarning,
    /// At or above the warning threshold.
    High,
}

/// What one scaling check concludes.
#[derive(Debug, Clone, Copy, PartialEq, Eq, Structural)]
pub enum ScalingDecision {
    /// Start one more node.
    ScaleUp,
    /// Stop the most recently started node.
    ScaleDown,
    /// Every node is running; nothing is pending.
    AllActive,
    /// Keep the current nodes.
    Steady,
}

/// What the runtime is to do after a scaling check.
#[derive(Debug, Clone, Copy, PartialEq, Eq, Structural)]
pub enum ScalingAction {
    /// Launch `node_id`, then wait `wait_secs` seconds.
    StartNode { node_id: u64, wait_secs: u64 },
    /// Send `node_id` its shutdown signal.
    StopNode { node_id: u64 },
    /// Nothing to do.
    Hold,
}

/// The figures of one scaling check and what came of it.
#[derive(Debug, Clone, Copy)]
pub struct ScalingStep {
    pub current: usize,
    pub pending: usize,
    pub suggested: usize,
    pub adjusted: usize,
    pub decision: ScalingDecision,
    pub action: ScalingAction,
}

/// The suggested count, capped by what can run: the nodes running plus
/// those pending.
pub open spec fn adjusted_of(current: usize, pending: usize, suggested: usize) -> int {
    if suggested <= current + pending {
        suggested as int
    } else {
        current + pending
    }
}

/// Scale up when the adjusted suggestion exceeds the running nodes and a
/// node is pending; scale down when it falls short of them; otherwise all
/// nodes are active when none is pending, and nothing changes when some
/// are.
pub open spec fn decision_of(current: usize, pending: usize, suggested: usize) -> ScalingDecision {
    let adjusted = adjusted_of(current, pending, suggested);
    if adjusted > current && pending > 0 {
        ScalingDecision::ScaleUp
    } else if adjusted < current {
        ScalingDecision::ScaleDown
    } else if pending == 0 {
        ScalingDecision::AllActive
    } else {
        ScalingDecision::Steady
    }
}

/// The wait after starting a node: the shortest while memory is below the
/// safe threshold, the midpoint below the warning threshold, the longest
/// above it.
pub open spec fn interval_of(config: DynamicNodeManagerConfig, level: UsageLevel) -> int {
    match level {
        UsageLevel::BelowSafe => config.min_start_interval as int,
        UsageLevel::BelowWarning => (config.min_start_interval + config.max_start_interval) / 2,
        UsageLevel::High => config.max_start_interval as int,
    }
}

/// A scale-up never passes the adjusted suggestion and a scale-down never
/// goes below it: each moves the running count one node toward it.
pub proof fn lemma_decision_moves_toward_target(current: usize, pending: usize, suggested: usize)
    ensures
        decision_of(current, pending, suggested) == ScalingDecision::ScaleUp ==> current + 1
            <= adjusted_of(current, pending, suggested) && pending >= 1,
        decision_of(current, pending, suggested) == ScalingDecision::ScaleDown ==> current - 1
            >= adjusted_of(current, pending, suggested),
        decision_of(current, pending, suggested) == ScalingDecision::AllActive
            || decision_of(current, pending, suggested) == ScalingDecision::Steady ==> adjusted_of(
            current,
            pending,
            suggested,
        ) == current,
{
}

/// The adjusted suggestion is the smaller of the suggestion and what can
/// run (running plus pending). So a suggestion above the running count
/// starts a node whenever one is pending, a suggestion below it stops one,
/// and a suggestion equal to it changes nothing.
pub proof fn lemma_scaling_follows_suggestion(current: usize, pending: usize, suggested: usize)
    ensures
        adjusted_of(current, pending, suggested) <= suggested,
        adjusted_of(current, pending, suggested) <= current + pending,
        adjusted_of(current, pending, suggested) == suggested || adjusted_of(
            current,
            pending,
            suggested,
        ) == current + pending,
        suggested > current && pending > 0 ==> decision_of(current, pending, suggested)
            == ScalingDecision::ScaleUp,
        suggested < current ==> decision_of(current, pending, suggested)
            == ScalingDecision::ScaleDown,
        suggested >= current && pending == 0 ==> decision_of(current, pending, suggested)
            == ScalingDecision::AllActive,
        suggested == current && pending > 0 ==> decision_of(current, pending, suggested)
            == ScalingDecision::Steady,
{
}

/// The decision of a scaling check with `current` nodes running, `pending`
/// waiting and `suggested` nodes wished for.
pub fn decide_scaling(current: usize, pending: usize, suggested: usize) -> (d: ScalingDecision)
    requires
        current + pending <= usize::MAX,
    ensures
        d == decision_of(current, pending, suggested),
        suggested > current && pending > 0 ==> d == ScalingDecision::ScaleUp,
        suggested < current ==> d == ScalingDecision::ScaleDown,
        suggested >= current && pending == 0 ==> d == ScalingDecision::AllActive,
        suggested == current && pending > 0 ==> d == ScalingDecision::Steady,
{
    let max_achievable = current + pending;
    let adjusted = if suggested <= max_achievable {
        suggested
    } else {
        max_achievable
    };
    if adjusted > current && pending > 0 {
        ScalingDecision::ScaleUp
    } else if adjusted < current {
        ScalingDecision::ScaleDown
    } else if pending == 0 {
        ScalingDecision::AllActive
    } else {
        ScalingDecision::Steady
    }
}

/// The wait after starting a node at memory level `level`.
pub fn start_interval(config: &DynamicNodeManagerConfig, level: UsageLevel) -> (secs: u64)
    requires
        level == UsageLevel::BelowWarning ==> config.min_start_interval + config.max_start_interval
            <= u64::MAX,
    ensures
        secs == interval_of(*config, level),
{
    match level {
        UsageLevel::BelowSafe => config.min_start_interval,
        UsageLevel::BelowWarning => (config.min_start_interval + config.max_start_interval) / 2,
        UsageLevel::High => config.max_start_interval,
    }
}

/// Starts and stops nodes as memory allows: a queue of nodes waiting to
/// start, the set of running nodes, and the running nodes in the order they
/// were started (the last one started is the first one stopped).
pub struct DynamicNodeManager {
    active_nodes: HashSet<u64>,
    pending_nodes: VecDeque<u64>,
    node_handles: Vec<u64>,
    is_running: bool,
    config: DynamicNodeManagerConfig,
    total_nodes: usize,
}

/// `after` is `before` with its first pending node started.
pub open spec fn started_first_pending(before: DynamicNodeManager, after: DynamicNodeManager) -> bool {
    let id = before.spec_pending()[0];
    &&& before.spec_pending().len() > 0
    &&& after.spec_pending() == before.spec_pending().drop_first()
    &&& after.spec_started() == before.spec_started().push(id)
    &&& after.spec_active() == before.spec_active().insert(id)
}

/// `after` is `before` with its most recently started node moved back to
/// the end of the pending queue.
pub open spec fn stopped_last_started(before: DynamicNodeManager, after: DynamicNodeManager) -> bool {
    let id = before.spec_started().last();
    &&& before.spec_started().len() > 0
    &&& after.spec_started() == before.spec_started().drop_last()
    &&& after.spec_pending() == before.spec_pending().push(id)
    &&& after.spec_active() == before.spec_active().remove(id)
}

/// `after` runs and queues the same nodes as `before`.
pub open spec fn same_nodes(before: DynamicNodeManager, after: DynamicNodeManager) -> bool {
    &&& after.spec_pending() == before.spec_pending()
    &&& after.spec_started() == before.spec_started()
    &&& after.spec_active() == before.spec_active()
}

/// `after` has the configuration, the node total and the running flag of
/// `before`.
pub open spec fn same_settings(before: DynamicNodeManager, after: DynamicNodeManager) -> bool {
    &&& after.spec_running() == before.spec_running()
    &&& after.spec_config() == before.spec_config()
    &&& after.spec_total_nodes() == before.spec_total_nodes()
}

impl DynamicNodeManager {
    pub closed spec fn spec_active(&self) -> Set<u64> {
        self.active_nodes@
    }

    pub closed spec fn spec_pending(&self) -> Seq<u64> {
        self.pending_nodes@
    }

    pub closed spec fn spec_started(&self) -> Seq<u64> {
        self.node_handles@
    }

    pub closed spec fn spec_running(&self) -> bool {
        self.is_running
    }

    pub closed spec fn spec_config(&self) -> DynamicNodeManagerConfig {
        self.config
    }

    pub closed spec fn spec_total_nodes(&self) -> usize {
        self.total_nodes
    }

    /// The nodes started and those pending, all told.
    pub open spec fn all_nodes(&self) -> Multiset<u64> {
        self.spec_started().to_multiset().add(self.spec_pending().to_multiset())
    }

    /// The running nodes are exactly those started; no node is started or
    /// pending twice, nor both; and together they are all the nodes.
    pub open spec fn wf(&self) -> bool {
        &&& self.spec_active() == self.spec_started().to_set()
        &&& self.spec_started().no_duplicates()
        &&& self.spec_pending().no_duplicates()
        &&& self.spec_started().to_set().disjoint(self.spec_pending().to_set())
        &&& self.spec_started().len() + self.spec_pending().len() == self.spec_total_nodes()
    }

    /// A manager with every node of `all_node_ids` pending, in order, none
    /// running, not yet started; `config` or else the default one.
    pub fn new(all_node_ids: Vec<u64>, config: Option<DynamicNodeManagerConfig>) -> (m: Self)
        ensures
            m.spec_pending() == all_node_ids@,
            m.spec_active() == Set::<u64>::empty(),
            m.spec_started() == Seq::<u64>::empty(),
            !m.spec_running(),
            m.spec_total_nodes() == all_node_ids@.len(),
            m.all_nodes() == all_node_ids@.to_multiset(),
            m.spec_config() == (match config {
                Some(c) => c,
                None => DynamicNodeManagerConfig {
                    min_start_interval: 2,
                    max_start_interval: 10,
                    initial_nodes: 2,
                    max_nodes: usize::MAX,
                },
            }),
            all_node_ids@.no_duplicates() ==> m.wf(),
    {
        let total_nodes = all_node_ids.len();
        let mut pending: VecDeque<u64> = VecDeque::new();
        let mut i: usize = 0;
        while i < total_nodes
            invariant
                total_nodes == all_node_ids@.len(),
                i <= total_nodes,
                pending@ == all_node_ids@.subrange(0, i as int),
            decreases total_nodes - i,
        {
            pending.push_back(all_node_ids[i]);
            i = i + 1;
        }
        assert(pending@ =~= all_node_ids@);
        let config = match config {
            Some(c) => c,
            None => DynamicNodeManagerConfig::default(),
        };
        let m = DynamicNodeManager {
            active_nodes: HashSet::new(),
            pending_nodes: pending,
            node_handles: Vec::new(),
            is_running: false,
            config,
            total_nodes,
        };
        assert(m.node_handles@.to_set() =~= Set::<u64>::empty());
        proof {
            m.node_handles@.to_multiset_ensures();
            assert(m.node_handles@.to_multiset() =~= Multiset::<u64>::empty());
            assert(m.all_nodes() =~= all_node_ids@.to_multiset());
        }
        m
    }

    /// Marks the manager as running (the first step of starting it).
    pub fn start_manager(&mut self)
        ensures
            final(self).spec_running(),
            final(self).spec_active() == old(self).spec_active(),
            final(self).spec_pending() == old(self).spec_pending(),
            final(self).spec_started() == old(self).spec_started(),
            final(self).spec_config() == old(self).spec_config(),
            final(self).spec_total_nodes() == old(self).spec_total_nodes(),
    {
        self.is_running = true;
    }

    /// Marks the manager as stopped; its loop ends at its next check.
    pub fn stop_manager(&mut self)
        ensures
            !final(self).spec_running(),
            final(self).spec_active() == old(self).spec_active(),
            final(self).spec_pending() == old(self).spec_pending(),
            final(self).spec_started() == old(self).spec_started(),
            final(self).spec_config() == old(self).spec_config(),
            final(self).spec_total_nodes() == old(self).spec_total_nodes(),
    {
        self.is_running = false;
    }

    /// Moves the first pending node to the running ones, if there is one.
    fn start_next_node(&mut self) -> (started: Option<u64>)
        ensures
            match started {
                Some(id) => id == old(self).spec_pending()[0] && started_first_pending(
                    *old(self),
                    *final(self),
                ),
                None => old(self).spec_pending().len() == 0 && same_nodes(*old(self), *final(self)),
            },
            same_settings(*old(self), *final(self)),
            final(self).all_nodes() == old(self).all_nodes(),
            old(self).wf() ==> final(self).wf(),
    {
        match self.pending_nodes.pop_front() {
            Some(node_id) => {
                proof {
                    let p = old(self).spec_pending();
                    let h = old(self).spec_started();
                    assert(p =~= seq![node_id] + p.drop_first());
                    assert(h.push(node_id) =~= h + seq![node_id]);
                    vstd::seq_lib::lemma_multiset_commutative(seq![node_id], p.drop_first());
                    vstd::seq_lib::lemma_multiset_commutative(h, seq![node_id]);
                    h.lemma_push_to_set_commute(node_id);
                    if old(self).wf() {
                        assert(p.contains(node_id));
                        assert(!h.to_set().contains(node_id));
                        assert(!p.drop_first().contains(node_id)) by {
                            if p.drop_first().contains(node_id) {
                                let k = choose|k: int|
                                    0 <= k < p.drop_first().len() && p.drop_first()[k]
                                        == node_id;
                                assert(p[k + 1] == p[0]);
                            }
                        }
                    }
                }
                self.active_nodes.insert(node_id);
                self.node_handles.push(node_id);
                Some(node_id)
            },
            None => None,
        }
    }

    /// Moves the most recently started node back to the end of the pending
    /// queue, if one is running.
    fn stop_last_node(&mut self) -> (stopped: Option<u64>)
        ensures
            match stopped {
                Some(id) => id == old(self).spec_started().last() && stopped_last_started(
                    *old(self),
                    *final(self),
                ),
                None => old(self).spec_started().len() == 0 && same_nodes(*old(self), *final(self)),
            },
            same_settings(*old(self), *final(self)),
            final(self).all_nodes() == old(self).all_nodes(),
            old(self).wf() ==> final(self).wf(),
    {
        match self.node_handles.pop() {
            Some(node_id) => {
                proof {
                    let p = old(self).spec_pending();
                    let h = old(self).spec_started();
                    assert(h =~= h.drop_last() + seq![node_id]);
                    assert(p.push(node_id) =~= p + seq![node_id]);
                    vstd::seq_lib::lemma_multiset_commutative(h.drop_last(), seq![node_id]);
                    vstd::seq_lib::lemma_multiset_commutative(p, seq![node_id]);
                    p.lemma_push_to_set_commute(node_id);
                    if old(self).wf() {
                        assert(!h.drop_last().contains(node_id)) by {
                            if h.drop_last().contains(node_id) {
                                let k = choose|k: int|
                                    0 <= k < h.drop_last().len() && h.drop_last()[k] == node_id;
                                assert(h[k] == h[h.len() - 1]);
                            }
                        }
                        assert(h.drop_last().to_set() =~= h.to_set().remove(node_id)) by {
                            assert forall|x: u64|
                                h.to_set().remove(node_id).contains(x) implies h.drop_last().to_set().contains(
                                x,
                            ) by {
                                let k = choose|k: int| 0 <= k < h.len() && h[k] == x;
                                assert(h.drop_last()[k] == x);
                            }
                        }
                        assert(!p.to_set().contains(node_id));
                    }
                }
                self.active_nodes.remove(&node_id);
                self.pending_nodes.push_back(node_id);
                Some(node_id)
            },
            None => None,
        }
    }

    /// One step of the initial start-up, after `started` nodes: starts the
    /// next pending node while fewer than `initial_nodes` were started and
    /// the manager runs; `None` ends the start-up.
    pub fn start_initial_node(&mut self, started: usize) -> (r: Option<u64>)
        ensures
            ({
                let starts = started < old(self).spec_config().initial_nodes && old(self).spec_running() && old(self).spec_pending().len() > 0;
                &&& starts ==> r == Some(old(self).spec_pending()[0]) && started_first_pending(
                    *old(self),
                    *final(self),
                )
                &&& !starts ==> r is None && same_nodes(*old(self), *final(self))
            }),
            same_settings(*old(self), *final(self)),
            final(self).all_nodes() == old(self).all_nodes(),
            old(self).wf() ==> final(self).wf(),
    {
        if started < self.config.initial_nodes && self.is_running {
            self.start_next_node()
        } else {
            None
        }
    }

    /// One scaling check. `suggestion` is the node count the memory
    /// monitor suggests (capped at the number of nodes), or `None` when it
    /// could not tell, which keeps the current count; `level` places memory
    /// use against the thresholds. A scale-up starts the first pending node
    /// and waits by `interval_of`; a scale-down moves the most recently
    /// started node back to the end of the queue.
    pub fn scaling_step(&mut self, suggestion: Option<usize>, level: UsageLevel) -> (step:
        ScalingStep)
        requires
            old(self).spec_active().len() + old(self).spec_pending().len() <= usize::MAX,
            level == UsageLevel::BelowWarning ==> old(self).spec_config().min_start_interval
                + old(self).spec_config().max_start_interval <= u64::MAX,
        ensures
            step.current == old(self).spec_active().len(),
            step.pending == old(self).spec_pending().len(),
            step.suggested == (match suggestion {
                Some(s) => if s <= old(self).spec_total_nodes() {
                    s
                } else {
                    old(self).spec_total_nodes()
                },
                None => step.current,
            }),
            step.adjusted == adjusted_of(step.current, step.pending, step.suggested),
            step.adjusted <= step.suggested,
            step.adjusted <= step.current + step.pending,
            step.adjusted == step.suggested || step.adjusted == step.current + step.pending,
            step.decision == decision_of(step.current, step.pending, step.suggested),
            step.suggested > step.current && step.pending > 0 ==> step.decision
                == ScalingDecision::ScaleUp,
            step.decision == ScalingDecision::ScaleUp ==> step.action == (ScalingAction::StartNode {
                node_id: old(self).spec_pending()[0],
                wait_secs: interval_of(old(self).spec_config(), level) as u64,
            }) && started_first_pending(*old(self), *final(self)),
            (step.decision == ScalingDecision::ScaleDown && old(self).spec_started().len() > 0)
                ==> step.action == (ScalingAction::StopNode {
                node_id: old(self).spec_started().last(),
            }) && stopped_last_started(*old(self), *final(self)),
            (step.decision == ScalingDecision::AllActive || step.decision
                == ScalingDecision::Steady || (step.decision == ScalingDecision::ScaleDown
                && old(self).spec_started().len() == 0)) ==> step.action == ScalingAction::Hold
                && same_nodes(*old(self), *final(self)),
            same_settings(*old(self), *final(self)),
            final(self).all_nodes() == old(self).all_nodes(),
            old(self).wf() ==> final(self).wf(),
    {
        let current = self.active_nodes.len();
        let pending = self.pending_nodes.len();
        let suggested = match suggestion {
            Some(s) => if s <= self.total_nodes {
                s
            } else {
                self.total_nodes
            },
            None => current,
        };
        let max_achievable = current + pending;
        let adjusted = if suggested <= max_achievable {
            suggested
        } else {
            max_achievable
        };
        let decision = decide_scaling(current, pending, suggested);
        let action = match decision {
            ScalingDecision::ScaleUp => {
                let wait_secs = start_interval(&self.config, level);
                match self.start_next_node() {
                    Some(node_id) => ScalingAction::StartNode { node_id, wait_secs },
                    None => ScalingAction::Hold,
                }
            },
            ScalingDecision::ScaleDown => match self.stop_last_node() {
                Some(node_id) => ScalingAction::StopNode { node_id },
                None => ScalingAction::Hold,
            },
            _ => ScalingAction::Hold,
        };
        ScalingStep { current, pending, suggested, adjusted, decision, action }
    }

    /// How many nodes run.
    pub fn active_count(&self) -> (n: usize)
        ensures
            n == self.spec_active().len(),
    {
        self.active_nodes.len()
    }

    /// How many nodes wait to start.
    pub fn pending_count(&self) -> (n: usize)
        ensures
            n == self.spec_pending().len(),
    {
        self.pending_nodes.len()
    }

    /// How many nodes run or wait.
    pub fn total_count(&self) -> (n: usize)
        requires
            self.spec_active().len() + self.spec_pending().len() <= usize::MAX,
        ensures
            n == self.spec_active().len() + self.spec_pending().len(),
    {
        self.active_nodes.len() + self.pending_nodes.len()
    }

    /// The running nodes, each once, in no particular order.
    pub fn active_node_ids(&self) -> (ids: Vec<u64>)
        ensures
            ids@.to_set() == self.spec_active(),
            ids@.no_duplicates(),
    {
        let mut ids: Vec<u64> = Vec::new();
        for id in it: self.active_nodes.iter()
            invariant
                it.seq().no_duplicates(),
                it.seq().unref().to_set() == self.active_nodes@,
                forall|x: u64|
                    #[trigger] self.active_nodes@.contains(x) ==> ids@.contains(x) || exists|i: int|
                        it.index() <= i < it.seq().len() && *it.seq()[i] == x,
                forall|x: u64|
                    #[trigger] ids@.contains(x) ==> exists|i: int|
                        0 <= i < it.index() && *it.seq()[i] == x,
                ids@.no_duplicates(),
                forall|x: u64| #[trigger] ids@.contains(x) ==> self.active_nodes@.contains(x),
        {
            let ghost j = it.index();
            proof {
                assert(it.seq().unref()[j] == *id);
                assert(it.seq().unref().to_set().contains(*id));
            }
            let ghost old_ids = ids@;
            proof {
                if ids@.contains(*id) {
                    let i = choose|i: int| 0 <= i < j && *it.seq()[i] == *id;
                    assert(it.seq()[i] == it.seq()[j]);
                }
            }
            ids.push(*id);
            proof {
                assert forall|x: u64| #[trigger] self.active_nodes@.contains(x) implies ids@.contains(
                    x,
                ) || exists|i: int| j + 1 <= i < it.seq().len() && *it.seq()[i] == x by {
                    if !old_ids.contains(x) {
                        let i = choose|i: int| j <= i < it.seq().len() && *it.seq()[i] == x;
                        if i == j {
                            assert(ids@[ids@.len() - 1] == x);
                        } else {
                            assert(j + 1 <= i);
                        }
                    } else {
                        let k = choose|k: int| 0 <= k < old_ids.len() && old_ids[k] == x;
                        assert(ids@[k] == x);
                    }
                }
                assert forall|x: u64| #[trigger] ids@.contains(x) implies self.active_nodes@.contains(
                    x,
                ) by {
                    let k = choose|k: int| 0 <= k < ids@.len() && ids@[k] == x;
                    if k < old_ids.len() {
                        assert(old_ids[k] == x);
                        assert(old_ids.contains(x));
                    }
                }
                assert forall|x: u64| #[trigger] ids@.contains(x) implies exists|i: int|
                    0 <= i < j + 1 && *it.seq()[i] == x by {
                    let k = choose|k: int| 0 <= k < ids@.len() && ids@[k] == x;
                    if k < old_ids.len() {
                        assert(old_ids[k] == x);
                        assert(old_ids.contains(x));
                    } else {
                        assert(*it.seq()[j] == x);
                    }
                }
            }
        }
        assert(ids@.to_set() =~= self.active_nodes@);
        ids
    }

    /// The manager's configuration.
    pub fn config(&self) -> (c: DynamicNodeManagerConfig)
        ensures
            c == self.spec_config(),
    {
        self.config
    }

    /// Whether the manager's loop is to keep running.
    pub fn is_monitoring(&self) -> (b: bool)
        ensures
            b == self.spec_running(),
    {
        self.is_running
    }

    /// Begins a graceful shutdown: answers every node ever started, in the
    /// order they were started, for the runtime to signal and await, and
    /// forgets the running ones.
    pub fn graceful_shutdown_all(&mut self) -> (to_signal: Vec<u64>)
        ensures
            to_signal@ == old(self).spec_started(),
            final(self).spec_active() == Set::<u64>::empty(),
            final(self).spec_started() == old(self).spec_started(),
            final(self).spec_pending() == old(self).spec_pending(),
            final(self).spec_running() == old(self).spec_running(),
            final(self).spec_config() == old(self).spec_config(),
            final(self).spec_total_nodes() == old(self).spec_total_nodes(),
    {
        let to_signal = self.node_handles.clone();
        self.active_nodes.clear();
        to_signal
    }

    /// A well-formed manager holding the nodes `ids` (as `new` makes it, and
    /// as every start-up and scaling step keeps it) runs and queues each of
    /// them exactly once: the running ids and the pending ids are disjoint,
    /// together they are the ids, and their counts add up to the number of
    /// ids.
    pub proof fn lemma_active_pending_partition(&self, ids: Seq<u64>)
        requires
            self.wf(),
            self.all_nodes() == ids.to_multiset(),
        ensures
            self.spec_active().disjoint(self.spec_pending().to_set()),
            self.spec_active().union(self.spec_pending().to_set()) == ids.to_set(),
            self.spec_active().len() + self.spec_pending().len() == ids.len(),
            self.spec_active().len() + self.spec_pending().len() == self.spec_total_nodes(),
    {
        let h = self.spec_started();
        let p = self.spec_pending();
        h.to_multiset_ensures();
        p.to_multiset_ensures();
        ids.to_multiset_ensures();
        h.unique_seq_to_set();
        assert forall|x: u64| #[trigger] ids.to_set().contains(x) == self.spec_active().union(
            p.to_set(),
        ).contains(x) by {
            assert(ids.to_multiset().count(x) == h.to_multiset().count(x) + p.to_multiset().count(
                x,
            ));
        }
        assert(self.spec_active().union(p.to_set()) =~= ids.to_set());
        assert(ids.to_multiset().len() == h.to_multiset().len() + p.to_multiset().len());
    }

    /// In a well-formed manager the running and pending nodes add up to all
    /// the nodes it was given.
    pub proof fn lemma_counts_add_up(&self)
        requires
            self.wf(),
        ensures
            self.spec_active().len() + self.spec_pending().len() == self.spec_total_nodes(),
    {
        self.spec_started().unique_seq_to_set();
    }
}

} // verus!
