use vstd::prelude::*;
use std::collections::HashMap;
use crate::text::{to_chars, contains_chars};
use crate::display::{lines_with_either, count_lines_with_either, reports_proof};
use crate::proof_stats::{count_of, is_lower_hex_digit};
use crate::node_manager::DynamicNodeManagerConfig;

verus! {

/// `s` is a version-4 UUID in hyphenated lower-case form: 36 characters,
/// hyphens at positions 8, 13, 18 and 23, hexadecimal digits elsewhere, the
/// version digit `4` at position 14 and a variant digit among `8`, `9`, `a`
/// and `b` at position 19.
pub open spec fn is_v4_uuid_text(s: Seq<char>) -> bool {
    &&& s.len() == 36
    &&& forall|i: int|
        0 <= i < 36 ==> if i == 8 || i == 13 || i == 18 || i == 23 {
            s[i] == '-'
        } else {
            is_lower_hex_digit(s[i])
        }
    &&& s[14] == '4'
    &&& (s[19] == '8' || s[19] == '9' || s[19] == 'a' || s[19] == 'b')
}

/// `uuid::Uuid::new_v4().to_string()`: a random UUID in hyphenated
/// lower-case form. The crate masks in the version and variant bits before
/// formatting, which the contract states; the other digits are random. The
/// crate panics when the operating system's random source fails.
#[verifier::external_body]
fn random_uuid_text() -> (s: String)
    ensures
        is_v4_uuid_text(s@),
{
    uuid::Uuid::new_v4().to_string()
}

/// The identifier a client reports itself by: the configured user id when
/// there is one, else the configured node id, else (also when no
/// configuration could be loaded) a fresh random UUID.
pub fn client_id_for(config_ids: Option<(String, String)>) -> (id: String)
    ensures
        match config_ids {
            Some((user_id, node_id)) => if user_id@.len() > 0 {
                id@ == user_id@
            } else if node_id@.len() > 0 {
                id@ == node_id@
            } else {
                is_v4_uuid_text(id@)
            },
            None => is_v4_uuid_text(id@),
        },
{
    match config_ids {
        Some((user_id, node_id)) => {
            if user_id.as_str().unicode_len() > 0 {
                user_id
            } else if node_id.as_str().unicode_len() > 0 {
                node_id
            } else {
                random_uuid_text()
            }
        },
        None => random_uuid_text(),
    }
}

/// Worker threads for a prover: the requested number (one when none is
/// given), kept within one to eight.
pub fn worker_count(max_threads: Option<u32>) -> (n: usize)
    ensures
        n == (match max_threads {
            Some(t) => if t < 1 {
                1
            } else if t > 8 {
                8
            } else {
                t as int
            },
            None => 1,
        }),
{
    let requested: u32 = match max_threads {
        Some(t) => t,
        None => 1,
    };
    let clamped: u32 = if requested < 1 {
        1
    } else if requested > 8 {
        8
    } else {
        requested
    };
    clamped as usize
}

/// The node manager's configuration for a batch run: nodes start one
/// second apart at first and at most three times `start_delay` apart; two
/// nodes (or fewer when fewer may run at once) start first; at most all the
/// nodes of the list run.
pub fn batch_manager_config(start_delay: u64, max_concurrent: usize, node_count: usize) -> (c:
    DynamicNodeManagerConfig)
    requires
        start_delay * 3 <= u64::MAX,
    ensures
        c.min_start_interval == 1,
        c.max_start_interval == start_delay * 3,
        c.initial_nodes == (if max_concurrent < 2 {
            max_concurrent
        } else {
            2
        }),
        c.max_nodes == node_count,
{
    DynamicNodeManagerConfig {
        min_start_interval: 1,
        max_start_interval: start_delay * 3,
        initial_nodes: if max_concurrent < 2 {
            max_concurrent
        } else {
            2
        },
        max_nodes: node_count,
    }
}

/// How a batch run's supervision loop goes on after a check.
#[derive(Debug, Clone, Copy, PartialEq, Eq, Structural)]
pub enum BatchProgress {
    /// Nodes are still running or waiting.
    Continue,
    /// No node runs and none waits.
    AllProcessed,
    /// The node manager stopped.
    ManagerStopped,
}

/// The outcome of a supervision check.
pub fn batch_progress(active: usize, pending: usize, manager_running: bool) -> (p: BatchProgress)
    ensures
        p == (if active == 0 && pending == 0 {
            BatchProgress::AllProcessed
        } else if !manager_running {
            BatchProgress::ManagerStopped
        } else {
            BatchProgress::Continue
        }),
{
    if active == 0 && pending == 0 {
        BatchProgress::AllProcessed
    } else if !manager_running {
        BatchProgress::ManagerStopped
    } else {
        BatchProgress::Continue
    }
}

/// How many provers a pooled batch run starts: as many as may run at once,
/// but no more than the list holds.
pub fn pool_size(max_concurrent: usize, node_count: usize) -> (n: usize)
    ensures
        n == (if max_concurrent <= node_count {
            max_concurrent
        } else {
            node_count
        }),
{
    if max_concurrent <= node_count {
        max_concurrent
    } else {
        node_count
    }
}

/// Counts of the fixed-line display's lines by what they show.
#[derive(Debug, Clone, Copy)]
pub struct LineSummary {
    pub total: usize,
    /// Lines with 🔄 or ⚠️.
    pub active: usize,
    /// Lines with ✅.
    pub successful: usize,
    /// Lines with ❌.
    pub failed: usize,
}

/// The fixed-line display of a batch run: the latest status of each node
/// as it was reported, and the proofs submitted per node and in all.
pub struct FixedLineDisplay {
    max_lines: usize,
    node_lines: HashMap<u64, String>,
    proof_counts: HashMap<u64, u64>,
    total_proofs: u64,
}

impl FixedLineDisplay {
    pub closed spec fn spec_lines(&self) -> Map<u64, String> {
        self.node_lines@
    }

    pub closed spec fn spec_proof_counts(&self) -> Map<u64, u64> {
        self.proof_counts@
    }

    pub closed spec fn spec_total_proofs(&self) -> u64 {
        self.total_proofs
    }

    pub closed spec fn spec_max_lines(&self) -> usize {
        self.max_lines
    }

    /// An empty display meant for about `max_lines` nodes.
    pub fn new(max_lines: usize) -> (d: Self)
        ensures
            d.spec_lines() == Map::<u64, String>::empty(),
            d.spec_proof_counts() == Map::<u64, u64>::empty(),
            d.spec_total_proofs() == 0,
            d.spec_max_lines() == max_lines,
    {
        FixedLineDisplay {
            max_lines,
            node_lines: HashMap::with_capacity(max_lines),
            proof_counts: HashMap::new(),
            total_proofs: 0,
        }
    }

    /// Counts one more proof for `node_id`.
    pub fn increment_proof_count(&mut self, node_id: u64)
        requires
            count_of(old(self).spec_proof_counts(), node_id) < u64::MAX,
            old(self).spec_total_proofs() < u64::MAX,
        ensures
            final(self).spec_proof_counts() == old(self).spec_proof_counts().insert(
                node_id,
                (count_of(old(self).spec_proof_counts(), node_id) + 1) as u64,
            ),
            final(self).spec_total_proofs() == old(self).spec_total_proofs() + 1,
            final(self).spec_lines() == old(self).spec_lines(),
            final(self).spec_max_lines() == old(self).spec_max_lines(),
    {
        let current = match self.proof_counts.get(&node_id) {
            Some(c) => *c,
            None => 0,
        };
        self.proof_counts.insert(node_id, current + 1);
        self.total_proofs = self.total_proofs + 1;
    }

    /// Records the status `node_id` reports: a submitted proof is counted,
    /// and the status becomes the node's line. Answers whether the line
    /// changed, which calls for a render.
    pub fn update_node_status(&mut self, node_id: u64, status: String) -> (changed: bool)
        requires
            reports_proof(status@) ==> count_of(old(self).spec_proof_counts(), node_id) < u64::MAX
                && old(self).spec_total_proofs() < u64::MAX,
        ensures
            reports_proof(status@) ==> {
                &&& final(self).spec_proof_counts() == old(self).spec_proof_counts().insert(
                    node_id,
                    (count_of(old(self).spec_proof_counts(), node_id) + 1) as u64,
                )
                &&& final(self).spec_total_proofs() == old(self).spec_total_proofs() + 1
            },
            !reports_proof(status@) ==> {
                &&& final(self).spec_proof_counts() == old(self).spec_proof_counts()
                &&& final(self).spec_total_proofs() == old(self).spec_total_proofs()
            },
            changed == !(old(self).spec_lines().contains_key(node_id)
                && old(self).spec_lines()[node_id]@ == status@),
            final(self).spec_lines() == old(self).spec_lines().insert(
                node_id,
                final(self).spec_lines()[node_id],
            ),
            final(self).spec_lines()[node_id]@ == status@,
            final(self).spec_max_lines() == old(self).spec_max_lines(),
    {
        let chars = to_chars(status.as_str());
        let proof_marker = to_chars("Proof submitted");
        let submitted_marker = to_chars("Successfully submitted proof");
        if contains_chars(&chars, &proof_marker) || contains_chars(&chars, &submitted_marker) {
            self.increment_proof_count(node_id);
        }
        let changed = match self.node_lines.get(&node_id) {
            Some(line) => !(*line == status),
            None => true,
        };
        if changed {
            self.node_lines.insert(node_id, status);
        } else {
            proof {
                let m = self.node_lines@;
                assert(m.insert(node_id, m[node_id]) =~= m);
            }
        }
        changed
    }

    /// Takes `node_id` off the display.
    pub fn remove_node(&mut self, node_id: u64)
        ensures
            final(self).spec_lines() == old(self).spec_lines().remove(node_id),
            final(self).spec_proof_counts() == old(self).spec_proof_counts(),
            final(self).spec_total_proofs() == old(self).spec_total_proofs(),
            final(self).spec_max_lines() == old(self).spec_max_lines(),
    {
        self.node_lines.remove(&node_id);
    }

    /// Counts the lines: all, those with 🔄 or ⚠️, those with ✅, those
    /// with ❌.
    pub fn summary(&self) -> (s: LineSummary)
        ensures
            s.total == self.spec_lines().len(),
            s.active == lines_with_either(self.spec_lines(), "🔄"@, "⚠️"@).len(),
            s.successful == lines_with_either(self.spec_lines(), "✅"@, "✅"@).len(),
            s.failed == lines_with_either(self.spec_lines(), "❌"@, "❌"@).len(),
    {
        LineSummary {
            total: self.node_lines.len(),
            active: count_lines_with_either(&self.node_lines, "🔄", "⚠️"),
            successful: count_lines_with_either(&self.node_lines, "✅", "✅"),
            failed: count_lines_with_either(&self.node_lines, "❌", "❌"),
        }
    }

    /// The node lines.
    pub fn lines(&self) -> (l: &HashMap<u64, String>)
        ensures
            l@ == self.spec_lines(),
    {
        &self.node_lines
    }

    /// Proofs counted for `node_id`.
    pub fn proof_count(&self, node_id: u64) -> (c: u64)
        ensures
            c == count_of(self.spec_proof_counts(), node_id),
    {
        match self.proof_counts.get(&node_id) {
            Some(c) => *c,
            None => 0,
        }
    }

    /// Proofs counted in all.
    pub fn total_proofs(&self) -> (t: u64)
        ensures
            t == self.spec_total_proofs(),
    {
        self.total_proofs
    }
}

} // verus!
