use vstd::prelude::*;

verus! {

/// `pat` occurs in `s` starting at character position `i`.
pub open spec fn occurs_at(s: Seq<char>, pat: Seq<char>, i: int) -> bool {
    &&& 0 <= i
    &&& i + pat.len() <= s.len()
    &&& s.subrange(i, i + pat.len()) == pat
}

/// `pat` occurs somewhere in `s` (what `str::contains` answers).
pub open spec fn has_substr(s: Seq<char>, pat: Seq<char>) -> bool {
    exists|i: int| occurs_at(s, pat, i)
}

/// An occurrence of `pat` in `s` stays an occurrence, shifted by the
/// length of `p`, when `p` is put in front of `s`; and it stays where it is
/// when `q` is put behind `s`.
pub proof fn lemma_occurrence_survives_wrapping(p: Seq<char>, s: Seq<char>, q: Seq<char>, pat: Seq<char>, i: int)
    requires
        occurs_at(s, pat, i),
    ensures
        occurs_at(p + s, pat, p.len() + i),
        occurs_at(s + q, pat, i),
        occurs_at(p + s + q, pat, p.len() + i),
        has_substr(p + s + q, pat),
{
    assert((p + s).subrange(p.len() + i, p.len() + i + pat.len()) =~= s.subrange(i, i + pat.len()));
    assert((s + q).subrange(i, i + pat.len()) =~= s.subrange(i, i + pat.len()));
    assert((p + s + q).subrange(p.len() + i, p.len() + i + pat.len()) =~= s.subrange(
        i,
        i + pat.len(),
    ));
    assert(occurs_at(p + s + q, pat, p.len() + i));
}

/// The position of the first occurrence of `pat` in `s` (what `str::find`
/// answers, counted in characters).
#[verifier::opaque]
pub open spec fn first_occurrence(s: Seq<char>, pat: Seq<char>) -> Option<int> {
    if has_substr(s, pat) {
        Some(
            choose|i: int|
                occurs_at(s, pat, i) && forall|j: int| #![auto] 0 <= j < i ==> !occurs_at(s, pat, j),
        )
    } else {
        None
    }
}

/// The position of the last occurrence of `pat` in `s` (what `str::rfind`
/// answers, counted in characters).
#[verifier::opaque]
pub open spec fn last_occurrence(s: Seq<char>, pat: Seq<char>) -> Option<int> {
    if has_substr(s, pat) {
        Some(
            choose|i: int|
                occurs_at(s, pat, i) && forall|j: int| #![auto] i < j ==> !occurs_at(s, pat, j),
        )
    } else {
        None
    }
}

/// The characters of `s`, one by one.
pub fn to_chars(s: &str) -> (v: Vec<char>)
    ensures
        v@ == s@,
{
    let mut v: Vec<char> = Vec::new();
    for c in it: s.chars()
        invariant
            it.seq() == s@,
            v@ == it.seq().take(it.index()),
    {
        v.push(c);
        assert(v@ =~= it.seq().take(it.index() + 1));
    }
    assert(v@ =~= s@);
    v
}

/// Whether `pat` occurs in `s` at position `i`.
pub fn matches_at(s: &Vec<char>, pat: &Vec<char>, i: usize) -> (b: bool)
    ensures
        b == occurs_at(s@, pat@, i as int),
{
    if i > s.len() || pat.len() > s.len() - i {
        return false;
    }
    let mut k: usize = 0;
    while k < pat.len()
        invariant
            i + pat@.len() <= s@.len(),
            s@.len() <= usize::MAX,
            k <= pat@.len(),
            forall|m: int| 0 <= m < k ==> s@[i + m] == pat@[m],
        decreases pat@.len() - k,
    {
        if s[i + k] != pat[k] {
            assert(s@.subrange(i as int, i + pat@.len())[k as int] != pat@[k as int]);
            return false;
        }
        k = k + 1;
    }
    assert(s@.subrange(i as int, i + pat@.len()) =~= pat@);
    true
}

/// The first position at which `pat` occurs in `s`.
pub fn find_chars(s: &Vec<char>, pat: &Vec<char>) -> (r: Option<usize>)
    ensures
        match r {
            Some(i) => first_occurrence(s@, pat@) == Some(i as int) && occurs_at(s@, pat@, i as int),
            None => first_occurrence(s@, pat@) is None,
        },
{
    reveal(first_occurrence);
    if pat.len() > s.len() {
        assert(!has_substr(s@, pat@));
        return None;
    }
    let last = s.len() - pat.len();
    let mut i: usize = 0;
    loop
        invariant
            last == s@.len() - pat@.len(),
            i <= last,
            forall|j: int| 0 <= j < i ==> !occurs_at(s@, pat@, j),
        ensures
            forall|j: int| 0 <= j <= last ==> !occurs_at(s@, pat@, j),
        decreases last - i,
    {
        if matches_at(s, pat, i) {
            reveal(first_occurrence);
            assert(has_substr(s@, pat@));
            let ghost c = choose|c: int|
                occurs_at(s@, pat@, c) && forall|j: int|
                    #![auto]
                    0 <= j < c ==> !occurs_at(s@, pat@, j);
            proof {
                if c < i as int {
                    assert(!occurs_at(s@, pat@, c));
                }
                if c > i as int {
                    assert(!occurs_at(s@, pat@, i as int));
                }
            }
            return Some(i);
        }
        if i == last {
            break;
        }
        i = i + 1;
    }
    assert forall|j: int| !occurs_at(s@, pat@, j) by {
        if 0 <= j <= last {
        }
    }
    None
}

/// The last position at which `pat` occurs in `s`.
pub fn rfind_chars(s: &Vec<char>, pat: &Vec<char>) -> (r: Option<usize>)
    ensures
        match r {
            Some(i) => last_occurrence(s@, pat@) == Some(i as int) && occurs_at(s@, pat@, i as int),
            None => last_occurrence(s@, pat@) is None,
        },
{
    reveal(last_occurrence);
    if pat.len() > s.len() {
        assert(!has_substr(s@, pat@));
        return None;
    }
    let mut i: usize = s.len() - pat.len();
    loop
        invariant
            i <= s@.len() - pat@.len(),
            forall|j: int| i < j ==> !occurs_at(s@, pat@, j),
        ensures
            forall|j: int| 0 <= j ==> !occurs_at(s@, pat@, j),
        decreases i,
    {
        if matches_at(s, pat, i) {
            reveal(last_occurrence);
            assert(has_substr(s@, pat@));
            let ghost c = choose|c: int|
                occurs_at(s@, pat@, c) && forall|j: int| #![auto] c < j ==> !occurs_at(s@, pat@, j);
            proof {
                if c < i as int {
                    assert(!occurs_at(s@, pat@, i as int));
                }
                if c > i as int {
                    assert(!occurs_at(s@, pat@, c));
                }
            }
            return Some(i);
        }
        if i == 0 {
            break;
        }
        i = i - 1;
    }
    assert forall|j: int| !occurs_at(s@, pat@, j) by {
        if j < 0 {
        }
    }
    None
}

/// Whether `pat` occurs in `s`.
pub fn contains_chars(s: &Vec<char>, pat: &Vec<char>) -> (b: bool)
    ensures
        b == has_substr(s@, pat@),
{
    reveal(first_occurrence);
    let r = find_chars(s, pat);
    r.is_some()
}

/// Whether `pat` occurs in `s`.
pub fn str_contains(s: &str, pat: &str) -> (b: bool)
    ensures
        b == has_substr(s@, pat@),
{
    let sv = to_chars(s);
    let pv = to_chars(pat);
    contains_chars(&sv, &pv)
}

} // verus!
