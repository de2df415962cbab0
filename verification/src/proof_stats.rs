use vstd::prelude::*;
use std::collections::HashMap;
use std::path::PathBuf;
use std::time::{Duration, SystemTime, SystemTimeError};
use std::collections::hash_map::DefaultHasher;
use std::hash::Hasher;
use vstd::multiset::Multiset;

verus! {

#[verifier::external_type_specification]
#[verifier::external_body]
pub struct ExPathBuf(PathBuf);

#[verifier::external_type_specification]
#[verifier::external_body]
pub struct ExIoError(std::io::Error);

#[verifier::external_type_specification]
#[verifier::external_body]
pub struct ExSystemTime(SystemTime);

#[verifier::external_type_specification]
#[verifier::external_body]
pub struct ExSystemTimeError(SystemTimeError);

/// How many proofs `m` records for `node_id` (none when it is absent).
pub open spec fn count_of(m: Map<u64, u64>, node_id: u64) -> int {
    if m.contains_key(node_id) {
        m[node_id] as int
    } else {
        0
    }
}

/// The sum of all counts in `m`.
pub open spec fn count_sum(m: Map<u64, u64>) -> int
    decreases m.dom().len(),
    when m.dom().finite()
{
    if m.dom().len() == 0 {
        0
    } else {
        let k = m.dom().choose();
        m[k] + count_sum(m.remove(k))
    }
}

/// Taking one key out of a finite map lowers its sum by that key's count.
pub proof fn lemma_count_sum_remove(m: Map<u64, u64>, k: u64)
    requires
        m.dom().finite(),
        m.contains_key(k),
    ensures
        count_sum(m) == m[k] + count_sum(m.remove(k)),
    decreases m.dom().len(),
{
    let c = m.dom().choose();
    assert(m.dom().len() != 0);
    if c != k {
        assert(m.remove(k).dom().len() < m.dom().len());
        assert(m.remove(c).dom().len() < m.dom().len());
        lemma_count_sum_remove(m.remove(c), k);
        lemma_count_sum_remove(m.remove(k), c);
        assert(m.remove(c).remove(k) =~= m.remove(k).remove(c));
    }
}

/// Setting the count of `k` to `v` changes the sum by the difference.
pub proof fn lemma_count_sum_insert(m: Map<u64, u64>, k: u64, v: u64)
    requires
        m.dom().finite(),
    ensures
        count_sum(m.insert(k, v)) == count_sum(m) - count_of(m, k) + v,
{
    let m2 = m.insert(k, v);
    lemma_count_sum_remove(m2, k);
    if m.contains_key(k) {
        lemma_count_sum_remove(m, k);
        assert(m2.remove(k) =~= m.remove(k));
    } else {
        assert(m2.remove(k) =~= m);
    }
}

/// The empty map sums to zero.
pub proof fn lemma_count_sum_empty()
    ensures
        count_sum(Map::<u64, u64>::empty()) == 0,
{
    assert(Map::<u64, u64>::empty().dom() =~= Set::empty());
}

/// Per-node counts of `a` and `b` added together.
pub open spec fn merged_counts(a: Map<u64, u64>, b: Map<u64, u64>) -> Map<u64, u64> {
    Map::new(
        |k: u64| a.contains_key(k) || b.contains_key(k),
        |k: u64| (count_of(a, k) + count_of(b, k)) as u64,
    )
}

/// Merging adds the counts of each node.
pub proof fn lemma_merged_count(a: Map<u64, u64>, b: Map<u64, u64>, node_id: u64)
    requires
        count_of(a, node_id) + count_of(b, node_id) <= u64::MAX,
    ensures
        count_of(merged_counts(a, b), node_id) == count_of(a, node_id) + count_of(b, node_id),
{
}

/// The per-node counts left by counting one proof for each id of `ids`, in
/// order, starting from no counts.
pub open spec fn counts_after(ids: Seq<u64>) -> Map<u64, u64>
    decreases ids.len(),
{
    if ids.len() == 0 {
        Map::empty()
    } else {
        let before = counts_after(ids.drop_last());
        before.insert(ids.last(), (count_of(before, ids.last()) + 1) as u64)
    }
}

/// Counting one more proof for `x` after the ids `ids` gives the counts
/// after `ids` followed by `x`.
pub proof fn lemma_counts_after_push(ids: Seq<u64>, x: u64)
    ensures
        counts_after(ids.push(x)) == counts_after(ids).insert(
            x,
            (count_of(counts_after(ids), x) + 1) as u64,
        ),
{
    assert(ids.push(x).drop_last() =~= ids);
}

/// After counting one proof for each id of `ids`, a node's count is the
/// number of times it occurs in `ids` (zero for a node that never does),
/// and it holds a count exactly when it occurs.
pub proof fn lemma_count_is_occurrences(ids: Seq<u64>, n: u64)
    requires
        ids.len() <= u64::MAX,
    ensures
        count_of(counts_after(ids), n) == ids.to_multiset().count(n),
        counts_after(ids).contains_key(n) <==> ids.to_multiset().count(n) > 0,
        counts_after(ids).dom().finite(),
    decreases ids.len(),
{
    if ids.len() == 0 {
        ids.to_multiset_ensures();
        vstd::multiset::axiom_count_le_len(ids.to_multiset(), n);
        assert(Map::<u64, u64>::empty().dom() =~= Set::<u64>::empty());
    } else {
        let prev = ids.drop_last();
        let x = ids.last();
        assert(prev.push(x) =~= ids);
        lemma_count_is_occurrences(prev, n);
        lemma_count_is_occurrences(prev, x);
        prev.to_multiset_ensures();
        assert(ids.to_multiset() =~= prev.to_multiset().insert(x));
        assert(prev.to_multiset().count(x) <= prev.len()) by {
            vstd::multiset::axiom_count_le_len(prev.to_multiset(), x);
        }
    }
}

/// After counting one proof for each id of `ids`, the counts add up to the
/// number of ids.
pub proof fn lemma_counts_sum_to_length(ids: Seq<u64>)
    requires
        ids.len() <= u64::MAX,
    ensures
        count_sum(counts_after(ids)) == ids.len(),
    decreases ids.len(),
{
    if ids.len() == 0 {
        lemma_count_sum_empty();
    } else {
        let prev = ids.drop_last();
        let x = ids.last();
        lemma_counts_sum_to_length(prev);
        lemma_count_is_occurrences(prev, x);
        prev.to_multiset_ensures();
        vstd::multiset::axiom_count_le_len(prev.to_multiset(), x);
        lemma_count_sum_insert(
            counts_after(prev),
            x,
            (count_of(counts_after(prev), x) + 1) as u64,
        );
    }
}

/// Merging the counts after `a` with the counts after `b` gives the counts
/// after `a` followed by `b`.
#[verifier::spinoff_prover]
pub proof fn lemma_merge_is_concatenation(a: Seq<u64>, b: Seq<u64>)
    requires
        a.len() + b.len() <= u64::MAX,
    ensures
        merged_counts(counts_after(a), counts_after(b)) == counts_after(a + b),
{
    vstd::seq_lib::lemma_multiset_commutative(a, b);
    assert forall|n: u64| #[trigger] counts_after(a + b).contains_key(n) == merged_counts(
        counts_after(a),
        counts_after(b),
    ).contains_key(n) by {
        lemma_count_is_occurrences(a, n);
        lemma_count_is_occurrences(b, n);
        lemma_count_is_occurrences(a + b, n);
    }
    assert forall|n: u64| #[trigger] counts_after(a + b).contains_key(n) implies counts_after(
        a + b,
    )[n] == merged_counts(counts_after(a), counts_after(b))[n] by {
        lemma_count_is_occurrences(a, n);
        lemma_count_is_occurrences(b, n);
        lemma_count_is_occurrences(a + b, n);
    }
    assert(merged_counts(counts_after(a), counts_after(b)) =~= counts_after(a + b));
}

/// `SystemTime::now()`: the current reading of the system clock. Nothing is
/// stated of it.
#[verifier::external_body]
fn system_now() -> SystemTime {
    SystemTime::now()
}

/// `SystemTime::duration_since(UNIX_EPOCH)`: the time elapsed from the Unix
/// epoch to `t`, or the error std gives when `t` lies before the epoch.
/// Nothing is stated of which comes back: it depends on the clock.
#[verifier::external_body]
fn since_unix_epoch(t: &SystemTime) -> Result<Duration, SystemTimeError> {
    t.duration_since(std::time::UNIX_EPOCH)
}

/// `Duration::as_secs`: the whole seconds of `d`. Nothing is stated of it,
/// as a `Duration` is opaque here.
#[verifier::external_body]
fn whole_secs(d: &Duration) -> u64 {
    d.as_secs()
}

/// `Hash::hash` of a `SystemTime`: feeds `t` to `hasher`. Nothing is stated
/// of what is written.
#[verifier::external_body]
fn hash_time(t: &SystemTime, hasher: &mut DefaultHasher) {
    std::hash::Hash::hash(t, hasher)
}

/// Seconds since the Unix epoch, read from the system clock; zero when the
/// clock stands before the epoch (a default `Duration`).
fn current_unix_secs() -> u64 {
    let now = system_now();
    match since_unix_epoch(&now) {
        Ok(elapsed) => whole_secs(&elapsed),
        Err(_) => 0,
    }
}

/// A digest of the current system time: a fresh `DefaultHasher` fed with
/// the clock's reading, finished.
fn time_digest() -> u64 {
    let now = system_now();
    let mut hasher = DefaultHasher::new();
    hash_time(&now, &mut hasher);
    hasher.finish()
}

/// The lower-case hexadecimal digit for `d < 16`.
pub open spec fn hex_digit(d: nat) -> char {
    if d < 10 {
        ('0' as nat + d) as char
    } else {
        ('a' as nat + (d - 10)) as char
    }
}

/// `n` in lower-case hexadecimal, without leading zeros (`0` for zero).
pub open spec fn lower_hex(n: nat) -> Seq<char>
    decreases n,
{
    if n < 16 {
        seq![hex_digit(n)]
    } else {
        lower_hex(n / 16) + seq![hex_digit(n % 16)]
    }
}

/// A lower-case hexadecimal digit.
pub open spec fn is_lower_hex_digit(c: char) -> bool {
    ('0' <= c <= '9') || ('a' <= c <= 'f')
}

/// `s` is a non-empty run of lower-case hexadecimal digits.
pub open spec fn is_lower_hex_text(s: Seq<char>) -> bool {
    &&& s.len() > 0
    &&& forall|i: int| 0 <= i < s.len() ==> is_lower_hex_digit(#[trigger] s[i])
}

/// Every number written in lower-case hexadecimal is a non-empty run of
/// lower-case hexadecimal digits.
pub proof fn lemma_lower_hex_is_hex_text(n: nat)
    ensures
        is_lower_hex_text(lower_hex(n)),
    decreases n,
{
    if n < 16 {
        assert(is_lower_hex_digit(hex_digit(n)));
    } else {
        lemma_lower_hex_is_hex_text(n / 16);
        assert(is_lower_hex_digit(hex_digit(n % 16)));
        let s = lower_hex(n);
        assert(s == lower_hex(n / 16) + seq![hex_digit(n % 16)]);
        assert forall|i: int| 0 <= i < s.len() implies is_lower_hex_digit(#[trigger] s[i]) by {
            if i < lower_hex(n / 16).len() {
                assert(s[i] == lower_hex(n / 16)[i]);
            }
        }
    }
}

/// The one-character text of the hexadecimal digit `d`.
fn hex_digit_text(d: u64) -> (t: &'static str)
    requires
        d < 16,
    ensures
        t@ == seq![hex_digit(d as nat)],
{
    proof {
        reveal_strlit("0");
        reveal_strlit("1");
        reveal_strlit("2");
        reveal_strlit("3");
        reveal_strlit("4");
        reveal_strlit("5");
        reveal_strlit("6");
        reveal_strlit("7");
        reveal_strlit("8");
        reveal_strlit("9");
        reveal_strlit("a");
        reveal_strlit("b");
        reveal_strlit("c");
        reveal_strlit("d");
        reveal_strlit("e");
        reveal_strlit("f");
    }
    let t = match d {
        0 => "0",
        1 => "1",
        2 => "2",
        3 => "3",
        4 => "4",
        5 => "5",
        6 => "6",
        7 => "7",
        8 => "8",
        9 => "9",
        10 => "a",
        11 => "b",
        12 => "c",
        13 => "d",
        14 => "e",
        _ => "f",
    };
    assert(t@ =~= seq![hex_digit(d as nat)]);
    t
}

/// Appends `n` in lower-case hexadecimal to `out`.
fn push_lower_hex(n: u64, out: &mut String)
    ensures
        final(out)@ == old(out)@ + lower_hex(n as nat),
    decreases n,
{
    if n >= 16 {
        push_lower_hex(n / 16, out);
    }
    out.append(hex_digit_text(n % 16));
    assert(final(out)@ =~= old(out)@ + lower_hex(n as nat));
}

/// `n` in lower-case hexadecimal.
fn format_lower_hex(n: u64) -> (s: String)
    ensures
        s@ == lower_hex(n as nat),
{
    let mut s = String::new();
    push_lower_hex(n, &mut s);
    assert(s@ =~= lower_hex(n as nat));
    s
}

/// Proof statistics: proofs submitted per node and in all.
#[derive(Debug, Clone)]
pub struct ProofStats {
    /// Proofs counted for each node.
    pub node_counts: HashMap<u64, u64>,
    /// Proofs counted in all.
    pub total_proofs: u64,
    /// Seconds since the Unix epoch of the last change.
    pub last_updated: u64,
    /// Seconds since the Unix epoch at which the session began.
    pub session_start: u64,
    /// Identifies the run that the statistics belong to.
    pub session_id: String,
}

impl ProofStats {
    /// These statistics are what counting one proof for each id of `ids`,
    /// in order, leaves: the per-node counts after `ids`, and as many proofs
    /// in all as there are ids.
    pub open spec fn counted_from(&self, ids: Seq<u64>) -> bool {
        &&& self.node_counts@ == counts_after(ids)
        &&& self.total_proofs == ids.len()
    }

    /// Statistics counted from a sequence of ids give each node as many
    /// proofs as it occurs in the sequence, and a total equal to the sum of
    /// the per-node counts.
    pub proof fn lemma_counted_from(&self, ids: Seq<u64>)
        requires
            self.counted_from(ids),
        ensures
            self.totals_agree(),
            forall|n: u64| count_of(self.node_counts@, n) == #[trigger] ids.to_multiset().count(n),
    {
        lemma_counts_sum_to_length(ids);
        assert forall|n: u64| count_of(self.node_counts@, n) == #[trigger] ids.to_multiset().count(
            n,
        ) by {
            lemma_count_is_occurrences(ids, n);
        }
    }

    /// The running total agrees with the per-node counts.
    pub open spec fn totals_agree(&self) -> bool {
        self.total_proofs == count_sum(self.node_counts@)
    }

    /// Empty statistics for a session begun at `now`, whose identifier is
    /// `session_digest` in hexadecimal.
    pub fn new_at(now: u64, session_digest: u64) -> (s: Self)
        ensures
            s.node_counts@ == Map::<u64, u64>::empty(),
            s.total_proofs == 0,
            s.last_updated == now,
            s.session_start == now,
            s.session_id@ == lower_hex(session_digest as nat),
            s.totals_agree(),
            s.counted_from(Seq::empty()),
    {
        proof {
            lemma_count_sum_empty();
        }
        ProofStats {
            node_counts: HashMap::new(),
            total_proofs: 0,
            last_updated: now,
            session_start: now,
            session_id: format_lower_hex(session_digest),
        }
    }

    /// Empty statistics for a session begun now, with an identifier drawn
    /// from the clock.
    pub fn new() -> (s: Self)
        ensures
            s.node_counts@ == Map::<u64, u64>::empty(),
            s.total_proofs == 0,
            s.last_updated == s.session_start,
            is_lower_hex_text(s.session_id@),
            s.totals_agree(),
            s.counted_from(Seq::empty()),
    {
        let now = current_unix_secs();
        let digest = time_digest();
        proof {
            lemma_lower_hex_is_hex_text(digest as nat);
        }
        Self::new_at(now, digest)
    }

    /// Counts one more proof for `node_id`, updated at `now`.
    pub fn increment_proof_count_at(&mut self, node_id: u64, now: u64)
        requires
            count_of(old(self).node_counts@, node_id) < u64::MAX,
            old(self).total_proofs < u64::MAX,
        ensures
            final(self).node_counts@ == old(self).node_counts@.insert(
                node_id,
                (count_of(old(self).node_counts@, node_id) + 1) as u64,
            ),
            final(self).total_proofs == old(self).total_proofs + 1,
            final(self).last_updated == now,
            final(self).session_start == old(self).session_start,
            final(self).session_id == old(self).session_id,
            old(self).totals_agree() ==> final(self).totals_agree(),
            forall|ids: Seq<u64>|
                #[trigger] old(self).counted_from(ids) ==> final(self).counted_from(ids.push(node_id)),
    {
        let current = match self.node_counts.get(&node_id) {
            Some(c) => *c,
            None => 0,
        };
        proof {
            lemma_count_sum_insert(self.node_counts@, node_id, (current + 1) as u64);
        }
        self.node_counts.insert(node_id, current + 1);
        self.total_proofs = self.total_proofs + 1;
        self.last_updated = now;
        proof {
            assert forall|ids: Seq<u64>| #[trigger] old(self).counted_from(ids) implies self.counted_from(
                ids.push(node_id),
            ) by {
                lemma_counts_after_push(ids, node_id);
            }
        }
    }

    /// Counts one more proof for `node_id`, updated at the current time.
    pub fn increment_proof_count(&mut self, node_id: u64)
        requires
            count_of(old(self).node_counts@, node_id) < u64::MAX,
            old(self).total_proofs < u64::MAX,
        ensures
            final(self).node_counts@ == old(self).node_counts@.insert(
                node_id,
                (count_of(old(self).node_counts@, node_id) + 1) as u64,
            ),
            final(self).total_proofs == old(self).total_proofs + 1,
            final(self).session_start == old(self).session_start,
            final(self).session_id == old(self).session_id,
            old(self).totals_agree() ==> final(self).totals_agree(),
            forall|ids: Seq<u64>|
                #[trigger] old(self).counted_from(ids) ==> final(self).counted_from(ids.push(node_id)),
    {
        let now = current_unix_secs();
        self.increment_proof_count_at(node_id, now);
    }

    /// Proofs counted for `node_id` (zero for a node never seen).
    pub fn get_node_count(&self, node_id: u64) -> (c: u64)
        ensures
            c == count_of(self.node_counts@, node_id),
    {
        match self.node_counts.get(&node_id) {
            Some(c) => *c,
            None => 0,
        }
    }

    /// Proofs counted in all.
    pub fn get_total_proofs(&self) -> (t: u64)
        ensures
            t == self.total_proofs,
    {
        self.total_proofs
    }

    /// The per-node counts.
    pub fn get_all_node_counts(&self) -> (m: &HashMap<u64, u64>)
        ensures
            m@ == self.node_counts@,
    {
        &self.node_counts
    }

    /// Adds the counts of `other` to these (used to restore statistics
    /// after a restart). The last update becomes the later of the two.
    pub fn merge(&mut self, other: &ProofStats)
        requires
            forall|k: u64|
                count_of(old(self).node_counts@, k) + count_of(other.node_counts@, k) <= u64::MAX,
            old(self).total_proofs + other.total_proofs <= u64::MAX,
        ensures
            final(self).node_counts@ == merged_counts(old(self).node_counts@, other.node_counts@),
            final(self).total_proofs == old(self).total_proofs + other.total_proofs,
            final(self).last_updated == (if other.last_updated > old(self).last_updated {
                other.last_updated
            } else {
                old(self).last_updated
            }),
            final(self).session_start == old(self).session_start,
            final(self).session_id == old(self).session_id,
            old(self).totals_agree() && other.totals_agree() ==> final(self).totals_agree(),
            forall|ia: Seq<u64>, ib: Seq<u64>|
                #[trigger] old(self).counted_from(ia) && #[trigger] other.counted_from(ib)
                    ==> final(self).counted_from(ia + ib),
    {
        let ghost base = self.node_counts@;
        let ghost total0 = self.total_proofs;
        let ghost updated0 = self.last_updated;
        let ghost mut done: Map<u64, u64> = Map::empty();
        proof {
            lemma_count_sum_empty();
            assert(merged_counts(base, done) =~= base);
        }
        for entry in it: other.node_counts.iter()
            invariant
                self.total_proofs == total0,
                self.last_updated == updated0,
                self.session_start == old(self).session_start,
                self.session_id == old(self).session_id,
                total0 + other.total_proofs <= u64::MAX,
                it.seq().no_duplicates(),
                base.dom().finite(),
                done.dom().finite(),
                forall|k: u64|
                    count_of(base, k) + count_of(other.node_counts@, k) <= u64::MAX,
                forall|k: u64|
                    #[trigger] done.contains_key(k) ==> other.node_counts@.contains_key(k)
                        && done[k] == other.node_counts@[k],
                forall|k: u64|
                    #[trigger] done.contains_key(k) <==> exists|i: int|
                        0 <= i < it.index() && *it.seq()[i].0 == k,
                forall|k: u64|
                    #[trigger] other.node_counts@.contains_key(k) ==> done.contains_key(k) || exists|
                        i: int,
                    |
                        it.index() <= i < it.seq().len() && *it.seq()[i].0 == k,
                self.node_counts@ == merged_counts(base, done),
                count_sum(self.node_counts@) == count_sum(base) + count_sum(done),
        {
            let (node_id, count) = entry;
            proof {
                let j = it.index();
                assert(0 <= j < it.seq().len());
                assert(entry == it.seq()[j]);
                assert(*it.seq()[j].0 == *node_id);
                if done.contains_key(*node_id) {
                    let i = choose|i: int| 0 <= i < j && *it.seq()[i].0 == *node_id;
                    assert(it.seq()[i] == it.seq()[j]);
                }
                assert(!done.contains_key(*node_id));
                assert(other.node_counts@.contains_key(*node_id));
                assert(other.node_counts@[*node_id] == *count);
            }
            let current = match self.node_counts.get(node_id) {
                Some(c) => *c,
                None => 0,
            };
            proof {
                lemma_count_sum_insert(self.node_counts@, *node_id, (current + *count) as u64);
                lemma_count_sum_insert(done, *node_id, *count);
                assert(merged_counts(base, done.insert(*node_id, *count)) =~= merged_counts(
                    base,
                    done,
                ).insert(*node_id, (current + *count) as u64));
                done = done.insert(*node_id, *count);
            }
            self.node_counts.insert(*node_id, current + *count);
        }
        assert(done =~= other.node_counts@);
        self.total_proofs = self.total_proofs + other.total_proofs;
        if other.last_updated > self.last_updated {
            self.last_updated = other.last_updated;
        }
        proof {
            assert forall|ia: Seq<u64>, ib: Seq<u64>|
                #[trigger] old(self).counted_from(ia) && #[trigger] other.counted_from(
                    ib,
                ) implies self.counted_from(ia + ib) by {
                lemma_merge_is_concatenation(ia, ib);
            }
        }
    }

    /// Empties the statistics and starts a new session at `now`, whose
    /// identifier is `session_digest` in hexadecimal.
    pub fn reset_at(&mut self, now: u64, session_digest: u64)
        ensures
            final(self).node_counts@ == Map::<u64, u64>::empty(),
            final(self).total_proofs == 0,
            final(self).last_updated == now,
            final(self).session_start == now,
            final(self).session_id@ == lower_hex(session_digest as nat),
            final(self).totals_agree(),
            final(self).counted_from(Seq::empty()),
    {
        proof {
            lemma_count_sum_empty();
        }
        self.node_counts.clear();
        self.total_proofs = 0;
        self.last_updated = now;
        self.session_start = now;
        self.session_id = format_lower_hex(session_digest);
    }

    /// Empties the statistics and starts a new session now.
    pub fn reset(&mut self)
        ensures
            final(self).node_counts@ == Map::<u64, u64>::empty(),
            final(self).total_proofs == 0,
            final(self).last_updated == final(self).session_start,
            is_lower_hex_text(final(self).session_id@),
            final(self).totals_agree(),
            final(self).counted_from(Seq::empty()),
    {
        let now = current_unix_secs();
        let digest = time_digest();
        proof {
            lemma_lower_hex_is_hex_text(digest as nat);
        }
        self.reset_at(now, digest);
    }
}

impl Default for ProofStats {
    /// Empty statistics for a session begun now.
    fn default() -> (s: Self)
        ensures
            s.node_counts@ == Map::<u64, u64>::empty(),
            s.total_proofs == 0,
            s.last_updated == s.session_start,
            is_lower_hex_text(s.session_id@),
            s.totals_agree(),
            s.counted_from(Seq::empty()),
    {
        Self::new()
    }
}

/// Seconds between automatic saves of a fresh manager.
pub const DEFAULT_AUTO_SAVE_INTERVAL: u64 = 30;

/// Keeps proof statistics together with where and when they are saved.
/// Reading and writing the file is the caller's part: this type decides
/// when a save is due and records when one succeeded.
pub struct ProofStatsManager {
    stats: ProofStats,
    file_path: PathBuf,
    auto_save_interval: u64,
    last_save_time: u64,
}

impl ProofStatsManager {
    pub closed spec fn spec_stats(&self) -> ProofStats {
        self.stats
    }

    pub closed spec fn spec_file_path(&self) -> PathBuf {
        self.file_path
    }

    pub closed spec fn spec_auto_save_interval(&self) -> u64 {
        self.auto_save_interval
    }

    pub closed spec fn spec_last_save_time(&self) -> u64 {
        self.last_save_time
    }

    /// A manager of fresh statistics to be saved at `file_path`, never
    /// saved yet, saving every `DEFAULT_AUTO_SAVE_INTERVAL` seconds.
    pub fn new(file_path: PathBuf) -> (m: Self)
        ensures
            m.spec_stats().node_counts@ == Map::<u64, u64>::empty(),
            m.spec_stats().total_proofs == 0,
            m.spec_stats().totals_agree(),
            m.spec_stats().counted_from(Seq::empty()),
            is_lower_hex_text(m.spec_stats().session_id@),
            m.spec_file_path() == file_path,
            m.spec_auto_save_interval() == DEFAULT_AUTO_SAVE_INTERVAL,
            m.spec_last_save_time() == 0,
    {
        ProofStatsManager {
            stats: ProofStats::new(),
            file_path,
            auto_save_interval: DEFAULT_AUTO_SAVE_INTERVAL,
            last_save_time: 0,
        }
    }

    /// A manager of statistics just read from `file_path` at `now`.
    pub fn from_stats(stats: ProofStats, file_path: PathBuf, now: u64) -> (m: Self)
        ensures
            m.spec_stats() == stats,
            m.spec_file_path() == file_path,
            m.spec_auto_save_interval() == DEFAULT_AUTO_SAVE_INTERVAL,
            m.spec_last_save_time() == now,
    {
        ProofStatsManager {
            stats,
            file_path,
            auto_save_interval: DEFAULT_AUTO_SAVE_INTERVAL,
            last_save_time: now,
        }
    }

    /// The statistics kept.
    pub fn stats(&self) -> (s: &ProofStats)
        ensures
            *s == self.spec_stats(),
    {
        &self.stats
    }

    /// Counts one more proof for `node_id` at `now`, and answers whether an
    /// automatic save is due: whether `auto_save_interval` seconds have
    /// passed since the last successful save.
    pub fn record_proof(&mut self, node_id: u64, now: u64) -> (save_due: bool)
        requires
            count_of(old(self).spec_stats().node_counts@, node_id) < u64::MAX,
            old(self).spec_stats().total_proofs < u64::MAX,
            now >= old(self).spec_last_save_time(),
        ensures
            final(self).spec_stats().node_counts@ == old(self).spec_stats().node_counts@.insert(
                node_id,
                (count_of(old(self).spec_stats().node_counts@, node_id) + 1) as u64,
            ),
            final(self).spec_stats().total_proofs == old(self).spec_stats().total_proofs + 1,
            final(self).spec_stats().last_updated == now,
            final(self).spec_stats().session_start == old(self).spec_stats().session_start,
            final(self).spec_stats().session_id == old(self).spec_stats().session_id,
            old(self).spec_stats().totals_agree() ==> final(self).spec_stats().totals_agree(),
            forall|ids: Seq<u64>|
                #[trigger] old(self).spec_stats().counted_from(ids) ==> final(self).spec_stats().counted_from(ids.push(node_id)),
            final(self).spec_file_path() == old(self).spec_file_path(),
            final(self).spec_auto_save_interval() == old(self).spec_auto_save_interval(),
            final(self).spec_last_save_time() == old(self).spec_last_save_time(),
            save_due == (now - old(self).spec_last_save_time() >= old(self).spec_auto_save_interval()),
    {
        self.stats.increment_proof_count_at(node_id, now);
        now - self.last_save_time >= self.auto_save_interval
    }

    /// Proofs counted for `node_id`.
    pub fn get_node_count(&self, node_id: u64) -> (c: u64)
        ensures
            c == count_of(self.spec_stats().node_counts@, node_id),
    {
        self.stats.get_node_count(node_id)
    }

    /// Proofs counted in all.
    pub fn get_total_proofs(&self) -> (t: u64)
        ensures
            t == self.spec_stats().total_proofs,
    {
        self.stats.get_total_proofs()
    }

    /// The per-node counts.
    pub fn get_all_node_counts(&self) -> (m: &HashMap<u64, u64>)
        ensures
            m@ == self.spec_stats().node_counts@,
    {
        self.stats.get_all_node_counts()
    }

    /// Empties the statistics and starts a new session; the caller saves
    /// the result.
    pub fn reset(&mut self)
        ensures
            final(self).spec_stats().node_counts@ == Map::<u64, u64>::empty(),
            final(self).spec_stats().total_proofs == 0,
            final(self).spec_stats().totals_agree(),
            final(self).spec_stats().counted_from(Seq::empty()),
            is_lower_hex_text(final(self).spec_stats().session_id@),
            final(self).spec_file_path() == old(self).spec_file_path(),
            final(self).spec_auto_save_interval() == old(self).spec_auto_save_interval(),
            final(self).spec_last_save_time() == old(self).spec_last_save_time(),
    {
        self.stats.reset();
    }

    /// Takes the outcome of a save made at `now`: a success becomes the
    /// time of the last save. The outcome is handed back.
    pub fn force_save(&mut self, saved: Result<(), std::io::Error>, now: u64) -> (r: Result<
        (),
        std::io::Error,
    >)
        ensures
            r == saved,
            final(self).spec_last_save_time() == (if saved is Ok {
                now
            } else {
                old(self).spec_last_save_time()
            }),
            final(self).spec_stats() == old(self).spec_stats(),
            final(self).spec_file_path() == old(self).spec_file_path(),
            final(self).spec_auto_save_interval() == old(self).spec_auto_save_interval(),
    {
        if saved.is_ok() {
            self.last_save_time = now;
        }
        saved
    }

    /// Seconds since the Unix epoch of the last successful save.
    pub fn last_save_time(&self) -> (t: u64)
        ensures
            t == self.spec_last_save_time(),
    {
        self.last_save_time
    }

    /// Seconds between automatic saves.
    pub fn auto_save_interval(&self) -> (t: u64)
        ensures
            t == self.spec_auto_save_interval(),
    {
        self.auto_save_interval
    }

    /// Where the statistics are saved.
    pub fn get_file_path(&self) -> (p: &PathBuf)
        ensures
            *p == self.spec_file_path(),
    {
        &self.file_path
    }

    /// Sets the seconds between automatic saves.
    pub fn set_auto_save_interval(&mut self, interval_seconds: u64)
        ensures
            final(self).spec_auto_save_interval() == interval_seconds,
            final(self).spec_stats() == old(self).spec_stats(),
            final(self).spec_file_path() == old(self).spec_file_path(),
            final(self).spec_last_save_time() == old(self).spec_last_save_time(),
    {
        self.auto_save_interval = interval_seconds;
    }
}

} // verus!
