use vstd::prelude::*;
use std::collections::HashMap;
use crate::text::{has_substr, occurs_at, to_chars, contains_chars, lemma_occurrence_survives_wrapping};
use crate::status::{formatted_status, format_status_with_emoji};
use crate::proof_stats::{ProofStatsManager, ProofStats, count_of, is_lower_hex_text};

verus! {

/// The nodes whose status line holds `a` or `b`.
pub open spec fn lines_with_either(lines: Map<u64, String>, a: Seq<char>, b: Seq<char>) -> Set<u64> {
    lines.dom().filter(|k: u64| has_substr(lines[k]@, a) || has_substr(lines[k]@, b))
}

/// How many status lines hold `a` or `b`.
pub fn count_lines_with_either(lines: &HashMap<u64, String>, a: &str, b: &str) -> (n: usize)
    ensures
        n == lines_with_either(lines@, a@, b@).len(),
{
    let av = to_chars(a);
    let bv = to_chars(b);
    let total = lines.len();
    let mut n: usize = 0;
    let ghost mut seen: Set<u64> = Set::empty();
    let ghost target = lines_with_either(lines@, a@, b@);
    for entry in it: lines.iter()
        invariant
            total == lines@.len(),
            it.seq().len() == total,
            it.seq().no_duplicates(),
            av@ == a@,
            bv@ == b@,
            target == lines_with_either(lines@, a@, b@),
            seen.finite(),
            seen.subset_of(target),
            n == seen.len(),
            n <= it.index(),
            forall|k: u64|
                #[trigger] target.contains(k) ==> seen.contains(k) || exists|i: int|
                    it.index() <= i < it.seq().len() && *it.seq()[i].0 == k,
            forall|k: u64|
                #[trigger] seen.contains(k) ==> exists|i: int|
                    0 <= i < it.index() && *it.seq()[i].0 == k,
    {
        let (id, line) = entry;
        let ghost j = it.index();
        let lv = to_chars(line.as_str());
        let hit = contains_chars(&lv, &av) || contains_chars(&lv, &bv);
        proof {
            assert(lines@.contains_key(*id) && lines@[*id] == *line);
            if seen.contains(*id) {
                let i = choose|i: int| 0 <= i < j && *it.seq()[i].0 == *id;
                assert(it.seq()[i] == it.seq()[j]);
            }
        }
        if hit {
            n = n + 1;
            proof {
                seen = seen.insert(*id);
            }
        }
        proof {
            assert forall|k: u64| #[trigger] target.contains(k) implies seen.contains(k) || exists|
                i: int,
            | j + 1 <= i < it.seq().len() && *it.seq()[i].0 == k by {
                if !seen.contains(k) {
                    let i = choose|i: int| j <= i < it.seq().len() && *it.seq()[i].0 == k;
                    if i == j {
                        assert(target.contains(*id));
                    }
                }
            }
        }
    }
    assert(seen =~= target);
    n
}

/// `s` is in strictly increasing order.
pub open spec fn strictly_increasing(s: Seq<u64>) -> bool {
    forall|i: int, j: int| 0 <= i < j < s.len() ==> s[i] < s[j]
}

/// The node ids of `lines` in increasing order.
pub fn sorted_node_ids(lines: &HashMap<u64, String>) -> (ids: Vec<u64>)
    ensures
        strictly_increasing(ids@),
        ids@.to_set() == lines@.dom(),
{
    let mut ids: Vec<u64> = Vec::new();
    for id in it: lines.keys()
        invariant
            strictly_increasing(ids@),
            it.seq().unref().to_set() == lines@.dom(),
            forall|x: u64| #[trigger] ids@.contains(x) ==> lines@.dom().contains(x),
            forall|x: u64|
                #[trigger] lines@.dom().contains(x) ==> ids@.contains(x) || exists|i: int|
                    it.index() <= i < it.seq().len() && *it.seq()[i] == x,
    {
        let ghost j = it.index();
        let ghost old_ids = ids@;
        proof {
            assert(it.seq().unref()[j] == *id);
            assert(it.seq().unref().to_set().contains(*id));
        }
        let mut pos: usize = 0;
        while pos < ids.len() && ids[pos] < *id
            invariant
                pos <= ids@.len(),
                ids@ == old_ids,
                forall|m: int| 0 <= m < pos ==> ids@[m] < *id,
            decreases ids@.len() - pos,
        {
            pos = pos + 1;
        }
        if pos < ids.len() && ids[pos] == *id {
        } else {
            ids.insert(pos, *id);
            proof {
                assert forall|a: int, b: int| 0 <= a < b < ids@.len() implies ids@[a] < ids@[b] by {
                    if b < pos {
                    } else if a > pos {
                        assert(ids@[a] == old_ids[a - 1]);
                        assert(ids@[b] == old_ids[b - 1]);
                    } else if a == pos {
                        assert(ids@[b] == old_ids[b - 1]);
                        assert(old_ids[pos as int] > *id);
                        if b - 1 > pos {
                            assert(old_ids[pos as int] < old_ids[b - 1]);
                        }
                    } else {
                        if b == pos {
                        } else {
                            assert(ids@[b] == old_ids[b - 1]);
                        }
                    }
                }
            }
        }
        proof {
            assert(ids@.contains(*id)) by {
                assert(ids@[pos as int] == *id);
            }
            assert forall|x: u64| #[trigger] ids@.contains(x) implies lines@.dom().contains(x) by {
                if x != *id {
                    let k = choose|k: int| 0 <= k < ids@.len() && ids@[k] == x;
                    if k < pos {
                        assert(old_ids[k] == x);
                    } else if ids@.len() == old_ids.len() {
                        assert(old_ids[k] == x);
                    } else {
                        assert(old_ids[k - 1] == x);
                    }
                    assert(old_ids.contains(x));
                }
            }
            assert forall|x: u64| #[trigger] lines@.dom().contains(x) implies ids@.contains(x) || exists|
                i: int,
            | j + 1 <= i < it.seq().len() && *it.seq()[i] == x by {
                if old_ids.contains(x) {
                    let k = choose|k: int| 0 <= k < old_ids.len() && old_ids[k] == x;
                    if ids@.len() == old_ids.len() || k < pos {
                        assert(ids@[k] == x);
                    } else {
                        assert(ids@[k + 1] == x);
                    }
                } else {
                    let i = choose|i: int| j <= i < it.seq().len() && *it.seq()[i] == x;
                    if i == j {
                        assert(x == *id);
                    }
                }
            }
        }
    }
    assert(ids@.to_set() =~= lines@.dom());
    ids
}

/// Strictly increasing sequences with the same elements are the same.
pub proof fn lemma_sorted_unique(s1: Seq<u64>, s2: Seq<u64>)
    requires
        strictly_increasing(s1),
        strictly_increasing(s2),
        s1.to_set() == s2.to_set(),
    ensures
        s1 == s2,
    decreases s1.len(),
{
    if s1.len() == 0 {
        if s2.len() > 0 {
            assert(s2.to_set().contains(s2[0]));
            assert(s1.to_set().contains(s2[0]));
        }
        assert(s2 =~= s1);
    } else {
        let m1 = s1.last();
        assert(s1.to_set().contains(m1));
        assert(s2.len() > 0) by {
            if s2.len() == 0 {
                assert(s2.to_set().contains(m1));
            }
        }
        let m2 = s2.last();
        assert(s2.to_set().contains(m2));
        assert(s1.contains(m2));
        assert(s2.contains(m1));
        let a = choose|a: int| 0 <= a < s1.len() && s1[a] == m2;
        let b = choose|b: int| 0 <= b < s2.len() && s2[b] == m1;
        assert(m1 == m2) by {
            if a < s1.len() - 1 {
                assert(m2 < m1);
                assert(m1 <= m2) by {
                    if b < s2.len() - 1 {
                    }
                }
            }
            if b < s2.len() - 1 {
                assert(m1 < m2);
            }
        }
        let r1 = s1.drop_last();
        let r2 = s2.drop_last();
        assert(r1.to_set() =~= r2.to_set()) by {
            assert forall|x: u64| r1.to_set().contains(x) implies r2.to_set().contains(x) by {
                let i = choose|i: int| 0 <= i < r1.len() && r1[i] == x;
                assert(s1[i] < m1);
                assert(s2.to_set().contains(x));
                let k = choose|k: int| 0 <= k < s2.len() && s2[k] == x;
                assert(k != s2.len() - 1);
                assert(r2[k] == x);
            }
            assert forall|x: u64| r2.to_set().contains(x) implies r1.to_set().contains(x) by {
                let i = choose|i: int| 0 <= i < r2.len() && r2[i] == x;
                assert(s2[i] < m2);
                assert(s1.to_set().contains(x));
                let k = choose|k: int| 0 <= k < s1.len() && s1[k] == x;
                assert(k != s1.len() - 1);
                assert(r1[k] == x);
            }
        }
        lemma_sorted_unique(r1, r2);
        assert(s1 =~= r1.push(m1));
        assert(s2 =~= r2.push(m2));
    }
}

/// The node ids of `lines` in increasing order.
pub open spec fn ordered_ids(lines: Map<u64, String>) -> Seq<u64> {
    choose|s: Seq<u64>| strictly_increasing(s) && s.to_set() == lines.dom()
}

/// Number of display pages for `n` nodes at `per_page` nodes a page: `n /
/// per_page` rounded up, and at least one.
pub open spec fn page_count(n: int, per_page: int) -> int {
    let pages = n / per_page + if n % per_page > 0 {
        1int
    } else {
        0
    };
    if pages >= 1 {
        pages
    } else {
        1
    }
}

/// The page count is the fewest pages, at least one, that hold all the
/// nodes: the last page is never empty unless there are no nodes at all,
/// and every page up to the count holds at least one node.
pub proof fn lemma_page_count_is_fewest_pages(n: int, per_page: int)
    requires
        0 <= n,
        1 <= per_page,
    ensures
        page_count(n, per_page) >= 1,
        n <= page_count(n, per_page) * per_page,
        n == 0 ==> page_count(n, per_page) == 1,
        n > 0 ==> (page_count(n, per_page) - 1) * per_page < n,
        forall|page: int|
            1 <= page <= page_count(n, per_page) && n > 0 ==> #[trigger] ((page - 1) * per_page) < n,
{
    let q = n / per_page;
    let r = n % per_page;
    vstd::arithmetic::div_mod::lemma_fundamental_div_mod(n, per_page);
    vstd::arithmetic::div_mod::lemma_mod_pos_bound(n, per_page);
    vstd::arithmetic::div_mod::lemma_div_pos_is_pos(n, per_page);
    let pages = page_count(n, per_page);
    assert(n == per_page * q + r);
    if r > 0 {
        assert(pages == q + 1);
        assert(n <= pages * per_page) by (nonlinear_arith)
            requires
                n == per_page * q + r,
                r < per_page,
                pages == q + 1,
        ;
        assert((pages - 1) * per_page < n) by (nonlinear_arith)
            requires
                n == per_page * q + r,
                r > 0,
                pages == q + 1,
        ;
    } else if q >= 1 {
        assert(pages == q);
        assert(n <= pages * per_page) by (nonlinear_arith)
            requires
                n == per_page * q,
                pages == q,
        ;
        assert((pages - 1) * per_page < n) by (nonlinear_arith)
            requires
                n == per_page * q,
                pages == q,
                per_page >= 1,
        ;
    } else {
        assert(q == 0);
        assert(per_page * q == 0) by (nonlinear_arith)
            requires
                q == 0,
        ;
        assert(n == 0);
        assert(pages == 1);
    }
    assert forall|page: int| 1 <= page <= pages && n > 0 implies #[trigger] ((page - 1) * per_page)
        < n by {
        assert((page - 1) * per_page <= (pages - 1) * per_page) by (nonlinear_arith)
            requires
                1 <= page <= pages,
                per_page >= 1,
        ;
    }
}

/// A page number brought into `1..=total_pages`.
pub open spec fn clamped_page(page: int, total_pages: int) -> int {
    let capped = if page <= total_pages {
        page
    } else {
        total_pages
    };
    if capped >= 1 {
        capped
    } else {
        1
    }
}

/// Kind of scaling operation recorded in the log.
#[derive(Debug, Clone, Copy, PartialEq, Eq, Structural)]
pub enum ScalingOperation {
    ScaleUp,
    ScaleDown,
    EmergencyScaleDown,
    NodeStarted,
    NodeStopped,
}

impl ScalingOperation {
    /// The operation as it is displayed.
    pub fn label(&self) -> (s: &'static str)
        ensures
            s@ == (match *self {
                ScalingOperation::ScaleUp => "🟢 扩容"@,
                ScalingOperation::ScaleDown => "🟡 缩容"@,
                ScalingOperation::EmergencyScaleDown => "🔴 紧急缩容"@,
                ScalingOperation::NodeStarted => "▶️  节点启动"@,
                ScalingOperation::NodeStopped => "⏹️  节点停止"@,
            }),
    {
        match self {
            ScalingOperation::ScaleUp => "🟢 扩容",
            ScalingOperation::ScaleDown => "🟡 缩容",
            ScalingOperation::EmergencyScaleDown => "🔴 紧急缩容",
            ScalingOperation::NodeStarted => "▶️  节点启动",
            ScalingOperation::NodeStopped => "⏹️  节点停止",
        }
    }
}

/// One entry of the scaling log. Memory use is kept as the bytes in use
/// and in all at the time of the entry.
#[derive(Debug, Clone)]
pub struct ScalingLogEntry {
    /// Seconds since the Unix epoch.
    pub timestamp: i64,
    pub operation: ScalingOperation,
    pub node_id: Option<u64>,
    pub reason: String,
    pub memory_used: u64,
    pub memory_total: u64,
}

/// Nodes shown on one page of the display.
pub const NODES_PER_PAGE: usize = 40;

/// A status reports a submitted proof.
pub open spec fn reports_proof(status: Seq<char>) -> bool {
    has_substr(status, "Proof submitted"@) || has_substr(status, "Successfully submitted proof"@)
}

/// A status reports a proof exactly when one of the two markers occurs in
/// it at some position, wherever that is; so text put before or after such
/// a status never takes the proof away.
pub proof fn lemma_proof_marker_anywhere(p: Seq<char>, s: Seq<char>, q: Seq<char>, i: int)
    ensures
        occurs_at(s, "Proof submitted"@, i) ==> reports_proof(s) && reports_proof(p + s + q),
        occurs_at(s, "Successfully submitted proof"@, i) ==> reports_proof(s) && reports_proof(
            p + s + q,
        ),
        reports_proof(s) ==> reports_proof(p + s + q),
        reports_proof(s) <==> exists|j: int|
            occurs_at(s, "Proof submitted"@, j) || occurs_at(s, "Successfully submitted proof"@, j),
{
    if occurs_at(s, "Proof submitted"@, i) {
        lemma_occurrence_survives_wrapping(p, s, q, "Proof submitted"@, i);
    }
    if occurs_at(s, "Successfully submitted proof"@, i) {
        lemma_occurrence_survives_wrapping(p, s, q, "Successfully submitted proof"@, i);
    }
    if has_substr(s, "Proof submitted"@) {
        let j = choose|j: int| occurs_at(s, "Proof submitted"@, j);
        lemma_occurrence_survives_wrapping(p, s, q, "Proof submitted"@, j);
    }
    if has_substr(s, "Successfully submitted proof"@) {
        let j = choose|j: int| occurs_at(s, "Successfully submitted proof"@, j);
        lemma_occurrence_survives_wrapping(p, s, q, "Successfully submitted proof"@, j);
    }
}

/// A status reports that its node stopped.
pub open spec fn reports_stop(status: Seq<char>) -> bool {
    has_substr(status, "Stopped"@) || has_substr(status, "Shutdown"@)
}

/// Counts of the node lines by what they show.
#[derive(Debug, Clone, Copy)]
pub struct NodeStatistics {
    /// Lines shown.
    pub total: usize,
    /// Lines that show work in progress.
    pub active: usize,
    /// Lines that show a success.
    pub successful: usize,
    /// Lines that show a failure.
    pub failed: usize,
}

/// One page of node lines, in increasing order of node id.
pub struct PageView {
    pub page: usize,
    pub total_pages: usize,
    pub entries: Vec<(u64, String)>,
}

/// What a key press did.
#[derive(Debug, Clone, Copy, PartialEq, Eq, Structural)]
pub enum KeyOutcome {
    /// The page changed; the automatic paging timer restarts.
    PageChanged,
    /// Refreshing is now paused.
    Paused,
    /// Refreshing resumed.
    Resumed,
    /// Nothing changed.
    Ignored,
}

/// The state of the batch-mode display: a status line per node, the proof
/// statistics, the scaling log, and paging. Drawing it and reading keys is
/// the caller's part.
pub struct EnhancedDisplay {
    node_lines: HashMap<u64, String>,
    proof_stats_manager: ProofStatsManager,
    scaling_logs: Vec<ScalingLogEntry>,
    max_log_entries: usize,
    current_page: usize,
    is_paused: bool,
    need_render: bool,
}

impl EnhancedDisplay {
    pub closed spec fn spec_lines(&self) -> Map<u64, String> {
        self.node_lines@
    }

    pub closed spec fn spec_stats(&self) -> ProofStatsManager {
        self.proof_stats_manager
    }

    pub closed spec fn spec_logs(&self) -> Seq<ScalingLogEntry> {
        self.scaling_logs@
    }

    pub closed spec fn spec_max_log_entries(&self) -> usize {
        self.max_log_entries
    }

    pub closed spec fn spec_page(&self) -> usize {
        self.current_page
    }

    pub closed spec fn spec_paused(&self) -> bool {
        self.is_paused
    }

    pub closed spec fn spec_need_render(&self) -> bool {
        self.need_render
    }

    /// A display with no nodes, an empty log keeping at most
    /// `max_log_entries` entries, on page one of `NODES_PER_PAGE` nodes,
    /// not paused, with the given statistics.
    pub fn new(proof_stats_manager: ProofStatsManager, max_log_entries: usize) -> (d: Self)
        ensures
            d.spec_lines() == Map::<u64, String>::empty(),
            d.spec_stats() == proof_stats_manager,
            d.spec_logs() == Seq::<ScalingLogEntry>::empty(),
            d.spec_max_log_entries() == max_log_entries,
            d.spec_page() == 1,
            !d.spec_paused(),
            !d.spec_need_render(),
    {
        EnhancedDisplay {
            node_lines: HashMap::new(),
            proof_stats_manager,
            scaling_logs: Vec::new(),
            max_log_entries,
            current_page: 1,
            is_paused: false,
            need_render: false,
        }
    }

    /// Records a status reported by `node_id` at `now`. A status that
    /// reports a submitted proof counts one more proof for the node. A
    /// status that reports a stop takes the node off the display; any other
    /// becomes the node's line, formatted by `formatted_status`. A render is
    /// requested whenever the lines change. Answers whether the proof
    /// statistics are due for an automatic save.
    pub fn update_node_status(&mut self, node_id: u64, status: String, now: u64) -> (save_due:
        bool)
        requires
            reports_proof(status@) ==> count_of(
                old(self).spec_stats().spec_stats().node_counts@,
                node_id,
            ) < u64::MAX && old(self).spec_stats().spec_stats().total_proofs < u64::MAX
                && now >= old(self).spec_stats().spec_last_save_time(),
        ensures
            reports_proof(status@) ==> {
                let before = old(self).spec_stats();
                let after = final(self).spec_stats();
                &&& after.spec_stats().node_counts@ == before.spec_stats().node_counts@.insert(
                    node_id,
                    (count_of(before.spec_stats().node_counts@, node_id) + 1) as u64,
                )
                &&& after.spec_stats().total_proofs == before.spec_stats().total_proofs + 1
                &&& after.spec_stats().last_updated == now
                &&& after.spec_stats().session_id == before.spec_stats().session_id
                &&& after.spec_stats().session_start == before.spec_stats().session_start
                &&& before.spec_stats().totals_agree() ==> after.spec_stats().totals_agree()
                &&& forall|ids: Seq<u64>|
                    #[trigger] before.spec_stats().counted_from(ids) ==> after.spec_stats().counted_from(
                        ids.push(node_id),
                    )
                &&& after.spec_last_save_time() == before.spec_last_save_time()
                &&& after.spec_auto_save_interval() == before.spec_auto_save_interval()
                &&& after.spec_file_path() == before.spec_file_path()
                &&& save_due == (now - before.spec_last_save_time()
                    >= before.spec_auto_save_interval())
            },
            !reports_proof(status@) ==> final(self).spec_stats() == old(self).spec_stats()
                && !save_due,
            reports_stop(status@) ==> {
                &&& final(self).spec_lines() == old(self).spec_lines().remove(node_id)
                &&& final(self).spec_need_render() == (old(self).spec_need_render() || old(self).spec_lines().contains_key(node_id))
            },
            !reports_stop(status@) ==> {
                let line = final(self).spec_lines()[node_id];
                let unchanged = old(self).spec_lines().contains_key(node_id) && old(self).spec_lines()[node_id]@ == formatted_status(status@);
                &&& final(self).spec_lines() == old(self).spec_lines().insert(node_id, line)
                &&& line@ == formatted_status(status@)
                &&& final(self).spec_need_render() == (old(self).spec_need_render() || !unchanged)
            },
            final(self).spec_logs() == old(self).spec_logs(),
            final(self).spec_max_log_entries() == old(self).spec_max_log_entries(),
            final(self).spec_page() == old(self).spec_page(),
            final(self).spec_paused() == old(self).spec_paused(),
    {
        let chars = to_chars(status.as_str());
        let proof_marker = to_chars("Proof submitted");
        let submitted_marker = to_chars("Successfully submitted proof");
        let mut save_due = false;
        if contains_chars(&chars, &proof_marker) || contains_chars(&chars, &submitted_marker) {
            save_due = self.proof_stats_manager.record_proof(node_id, now);
        }
        let stopped_marker = to_chars("Stopped");
        let shutdown_marker = to_chars("Shutdown");
        if contains_chars(&chars, &stopped_marker) || contains_chars(&chars, &shutdown_marker) {
            let removed = self.node_lines.remove(&node_id);
            if removed.is_some() {
                self.need_render = true;
            }
            return save_due;
        }
        let formatted = format_status_with_emoji(status.as_str());
        let needs_update = match self.node_lines.get(&node_id) {
            Some(line) => !(*line == formatted),
            None => true,
        };
        if needs_update {
            self.node_lines.insert(node_id, formatted);
            self.need_render = true;
        } else {
            proof {
                let m = self.node_lines@;
                assert(m.contains_key(node_id));
                assert(m.insert(node_id, m[node_id]) =~= m);
            }
        }
        save_due
    }

    /// Appends `entry` to the scaling log, dropping the oldest entry when
    /// the log then holds more than `max_log_entries`.
    pub fn add_scaling_log(&mut self, entry: ScalingLogEntry)
        ensures
            final(self).spec_logs() == (if old(self).spec_logs().len() + 1 > old(self).spec_max_log_entries() {
                old(self).spec_logs().push(entry).drop_first()
            } else {
                old(self).spec_logs().push(entry)
            }),
            old(self).spec_logs().len() <= old(self).spec_max_log_entries() ==> final(self).spec_logs().len() <= final(self).spec_max_log_entries(),
            final(self).spec_lines() == old(self).spec_lines(),
            final(self).spec_stats() == old(self).spec_stats(),
            final(self).spec_max_log_entries() == old(self).spec_max_log_entries(),
            final(self).spec_page() == old(self).spec_page(),
            final(self).spec_paused() == old(self).spec_paused(),
            final(self).spec_need_render() == old(self).spec_need_render(),
    {
        self.scaling_logs.push(entry);
        if self.scaling_logs.len() > self.max_log_entries {
            self.scaling_logs.remove(0);
            proof {
                assert(self.scaling_logs@ =~= old(self).scaling_logs@.push(entry).drop_first());
            }
        }
    }

    /// How many nodes are shown.
    pub fn active_node_count(&self) -> (n: usize)
        ensures
            n == self.spec_lines().len(),
    {
        self.node_lines.len()
    }

    /// Proofs counted in all.
    pub fn total_proof_count(&self) -> (n: u64)
        ensures
            n == self.spec_stats().spec_stats().total_proofs,
    {
        self.proof_stats_manager.get_total_proofs()
    }

    /// Entries in the scaling log.
    pub fn scaling_log_count(&self) -> (n: usize)
        ensures
            n == self.spec_logs().len(),
    {
        self.scaling_logs.len()
    }

    /// The proof statistics and where they are saved.
    pub fn proof_stats(&self) -> (m: &ProofStatsManager)
        ensures
            *m == self.spec_stats(),
    {
        &self.proof_stats_manager
    }

    /// The scaling log, oldest entry first.
    pub fn scaling_logs(&self) -> (logs: &Vec<ScalingLogEntry>)
        ensures
            logs@ == self.spec_logs(),
    {
        &self.scaling_logs
    }

    /// Takes the outcome of saving the proof statistics at `now`: see
    /// `ProofStatsManager::force_save`.
    pub fn save_proof_stats(&mut self, saved: Result<(), std::io::Error>, now: u64) -> (r: Result<
        (),
        std::io::Error,
    >)
        ensures
            r == saved,
            final(self).spec_stats().spec_last_save_time() == (if saved is Ok {
                now
            } else {
                old(self).spec_stats().spec_last_save_time()
            }),
            final(self).spec_stats().spec_stats() == old(self).spec_stats().spec_stats(),
            final(self).spec_lines() == old(self).spec_lines(),
            final(self).spec_logs() == old(self).spec_logs(),
            final(self).spec_page() == old(self).spec_page(),
            final(self).spec_paused() == old(self).spec_paused(),
            final(self).spec_need_render() == old(self).spec_need_render(),
    {
        self.proof_stats_manager.force_save(saved, now)
    }

    /// Empties the proof statistics and starts a new session; the caller
    /// saves the result.
    pub fn reset_proof_stats(&mut self)
        ensures
            final(self).spec_stats().spec_stats().node_counts@ == Map::<u64, u64>::empty(),
            final(self).spec_stats().spec_stats().total_proofs == 0,
            final(self).spec_stats().spec_stats().totals_agree(),
            final(self).spec_stats().spec_stats().counted_from(Seq::empty()),
            is_lower_hex_text(final(self).spec_stats().spec_stats().session_id@),
            final(self).spec_lines() == old(self).spec_lines(),
            final(self).spec_logs() == old(self).spec_logs(),
            final(self).spec_page() == old(self).spec_page(),
            final(self).spec_paused() == old(self).spec_paused(),
            final(self).spec_need_render() == old(self).spec_need_render(),
    {
        self.proof_stats_manager.reset();
    }

    /// Counts the lines by what they show: all of them, those with 🔄,
    /// those with ✅ and those with ❌.
    pub fn node_statistics(&self) -> (st: NodeStatistics)
        ensures
            st.total == self.spec_lines().len(),
            st.active == lines_with_either(self.spec_lines(), "🔄"@, "🔄"@).len(),
            st.successful == lines_with_either(self.spec_lines(), "✅"@, "✅"@).len(),
            st.failed == lines_with_either(self.spec_lines(), "❌"@, "❌"@).len(),
    {
        NodeStatistics {
            total: self.node_lines.len(),
            active: count_lines_with_either(&self.node_lines, "🔄", "🔄"),
            successful: count_lines_with_either(&self.node_lines, "✅", "✅"),
            failed: count_lines_with_either(&self.node_lines, "❌", "❌"),
        }
    }

    /// The node lines.
    pub fn node_lines(&self) -> (l: &HashMap<u64, String>)
        ensures
            l@ == self.spec_lines(),
    {
        &self.node_lines
    }

    /// The page asked for (possibly beyond the last page).
    pub fn current_page(&self) -> (p: usize)
        ensures
            p == self.spec_page(),
    {
        self.current_page
    }

    /// Whether paused.
    pub fn is_paused(&self) -> (b: bool)
        ensures
            b == self.spec_paused(),
    {
        self.is_paused
    }

    /// A throttled refresh tick: while paused nothing happens; otherwise
    /// answers whether a render was requested, and clears the request.
    pub fn take_render_request(&mut self) -> (render: bool)
        ensures
            render == (!old(self).spec_paused() && old(self).spec_need_render()),
            final(self).spec_need_render() == (old(self).spec_paused()
                && old(self).spec_need_render()),
            final(self).spec_lines() == old(self).spec_lines(),
            final(self).spec_stats() == old(self).spec_stats(),
            final(self).spec_logs() == old(self).spec_logs(),
            final(self).spec_page() == old(self).spec_page(),
            final(self).spec_paused() == old(self).spec_paused(),
    {
        if self.is_paused {
            return false;
        }
        let render = self.need_render;
        self.need_render = false;
        render
    }

    /// The page shown: the current page brought into range, the number of
    /// pages, and that page's node lines in increasing order of node id.
    pub fn page_view(&self) -> (v: PageView)
        ensures
            v.total_pages == page_count(self.spec_lines().len() as int, NODES_PER_PAGE as int),
            v.total_pages >= 1,
            self.spec_lines().len() <= v.total_pages * NODES_PER_PAGE,
            self.spec_lines().len() > 0 ==> (v.total_pages - 1) * NODES_PER_PAGE
                < self.spec_lines().len(),
            1 <= v.page <= v.total_pages,
            self.spec_lines().len() > 0 ==> v.entries@.len() > 0,
            v.page == clamped_page(self.spec_page() as int, v.total_pages as int),
            ({
                let ids = ordered_ids(self.spec_lines());
                let start = (v.page - 1) * NODES_PER_PAGE;
                let end = if start + NODES_PER_PAGE <= ids.len() {
                    start + NODES_PER_PAGE
                } else {
                    ids.len() as int
                };
                &&& v.entries@.len() == (if start < end {
                    end - start
                } else {
                    0
                })
                &&& forall|i: int|
                    0 <= i < v.entries@.len() ==> v.entries@[i].0 == ids[start + i]
                        && v.entries@[i].1 == self.spec_lines()[ids[start + i]]
            }),
    {
        let ids = sorted_node_ids(&self.node_lines);
        proof {
            let chosen = ordered_ids(self.node_lines@);
            assert(strictly_increasing(ids@) && ids@.to_set() == self.node_lines@.dom());
            lemma_sorted_unique(chosen, ids@);
            ids@.unique_seq_to_set();
        }
        let n = ids.len();
        let per = NODES_PER_PAGE;
        let whole = n / per;
        let pages = if n % per > 0 {
            whole + 1
        } else {
            whole
        };
        let total_pages = if pages >= 1 {
            pages
        } else {
            1
        };
        proof {
            lemma_page_count_is_fewest_pages(n as int, per as int);
        }
        let capped = if self.current_page <= total_pages {
            self.current_page
        } else {
            total_pages
        };
        let page = if capped >= 1 {
            capped
        } else {
            1
        };
        let start_wide: u128 = (page as u128 - 1) * (per as u128);
        proof {
            assert((page - 1) * per <= (usize::MAX as int) * 40) by (nonlinear_arith)
                requires
                    page >= 1,
                    page <= usize::MAX,
                    per == 40,
            ;
        }
        let mut entries: Vec<(u64, String)> = Vec::new();
        if start_wide < n as u128 {
            let start = start_wide as usize;
            let end = if per <= n - start {
                start + per
            } else {
                n
            };
            let mut i = start;
            while i < end
                invariant
                    start <= i <= end,
                    end <= ids@.len(),
                    ids@.to_set() == self.node_lines@.dom(),
                    entries@.len() == i - start,
                    forall|k: int|
                        0 <= k < entries@.len() ==> entries@[k].0 == ids@[start + k]
                            && entries@[k].1 == self.node_lines@[ids@[start + k]],
                decreases end - i,
            {
                let id = ids[i];
                proof {
                    assert(ids@.to_set().contains(ids@[i as int]));
                }
                let line = match self.node_lines.get(&id) {
                    Some(l) => l.clone(),
                    None => String::new(),
                };
                entries.push((id, line));
                i = i + 1;
            }
        }
        PageView { page, total_pages, entries }
    }

    /// The automatic page turn: with more than one page, moves to the next
    /// page, or back to the first after the last, and requests a render.
    /// Answers whether the page turned.
    pub fn auto_advance_page(&mut self) -> (turned: bool)
        ensures
            turned == (page_count(old(self).spec_lines().len() as int, NODES_PER_PAGE as int) > 1),
            turned == (old(self).spec_lines().len() > NODES_PER_PAGE),
            turned ==> {
                let pages = page_count(old(self).spec_lines().len() as int, NODES_PER_PAGE as int);
                &&& final(self).spec_page() == (if old(self).spec_page() >= pages {
                    1
                } else {
                    old(self).spec_page() + 1
                })
                &&& final(self).spec_need_render()
            },
            !turned ==> {
                &&& final(self).spec_page() == old(self).spec_page()
                &&& final(self).spec_need_render() == old(self).spec_need_render()
            },
            final(self).spec_lines() == old(self).spec_lines(),
            final(self).spec_stats() == old(self).spec_stats(),
            final(self).spec_logs() == old(self).spec_logs(),
            final(self).spec_paused() == old(self).spec_paused(),
    {
        let n = self.node_lines.len();
        let per = NODES_PER_PAGE;
        let whole = n / per;
        let pages = if n % per > 0 {
            whole + 1
        } else {
            whole
        };
        let total_pages = if pages >= 1 {
            pages
        } else {
            1
        };
        proof {
            lemma_page_count_is_fewest_pages(n as int, per as int);
        }
        if total_pages > 1 {
            if self.current_page >= total_pages {
                self.current_page = 1;
            } else {
                self.current_page = self.current_page + 1;
            }
            self.need_render = true;
            true
        } else {
            false
        }
    }

    /// A key press: `n` turns to the next page, `p` to the previous one
    /// (not below the first), a digit jumps to that page (zero to the
    /// first), a space pauses or resumes refreshing. Each of these requests
    /// a render; any other key does nothing.
    pub fn handle_key(&mut self, key: char) -> (outcome: KeyOutcome)
        requires
            key == 'n' ==> old(self).spec_page() < usize::MAX,
        ensures
            key == 'n' ==> {
                &&& outcome == KeyOutcome::PageChanged
                &&& final(self).spec_page() == old(self).spec_page() + 1
                &&& final(self).spec_need_render()
                &&& final(self).spec_paused() == old(self).spec_paused()
            },
            key == 'p' && old(self).spec_page() > 1 ==> {
                &&& outcome == KeyOutcome::PageChanged
                &&& final(self).spec_page() == old(self).spec_page() - 1
                &&& final(self).spec_need_render()
                &&& final(self).spec_paused() == old(self).spec_paused()
            },
            '0' <= key <= '9' ==> {
                &&& outcome == KeyOutcome::PageChanged
                &&& final(self).spec_page() == (if key == '0' {
                    1
                } else {
                    key as int - '0' as int
                })
                &&& final(self).spec_need_render()
                &&& final(self).spec_paused() == old(self).spec_paused()
            },
            key == ' ' ==> {
                &&& outcome == (if old(self).spec_paused() {
                    KeyOutcome::Resumed
                } else {
                    KeyOutcome::Paused
                })
                &&& final(self).spec_paused() == !old(self).spec_paused()
                &&& final(self).spec_need_render()
                &&& final(self).spec_page() == old(self).spec_page()
            },
            !(key == 'n' || (key == 'p' && old(self).spec_page() > 1) || ('0' <= key <= '9')
                || key == ' ') ==> {
                &&& outcome == KeyOutcome::Ignored
                &&& final(self).spec_page() == old(self).spec_page()
                &&& final(self).spec_need_render() == old(self).spec_need_render()
                &&& final(self).spec_paused() == old(self).spec_paused()
            },
            final(self).spec_lines() == old(self).spec_lines(),
            final(self).spec_stats() == old(self).spec_stats(),
            final(self).spec_logs() == old(self).spec_logs(),
    {
        if key == 'n' {
            self.current_page = self.current_page + 1;
            self.need_render = true;
            KeyOutcome::PageChanged
        } else if key == 'p' {
            if self.current_page > 1 {
                self.current_page = self.current_page - 1;
                self.need_render = true;
                KeyOutcome::PageChanged
            } else {
                KeyOutcome::Ignored
            }
        } else if '0' <= key && key <= '9' {
            let digit = (key as u32 - '0' as u32) as usize;
            self.current_page = if digit >= 1 {
                digit
            } else {
                1
            };
            self.need_render = true;
            KeyOutcome::PageChanged
        } else if key == ' ' {
            self.is_paused = !self.is_paused;
            self.need_render = true;
            if self.is_paused {
                KeyOutcome::Paused
            } else {
                KeyOutcome::Resumed
            }
        } else {
            KeyOutcome::Ignored
        }
    }
}

} // verus!
