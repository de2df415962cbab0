use vstd::prelude::*;
use crate::text::to_chars;

verus! {

/// Why a node id could not be read as a `u64` (the kinds of std's
/// `ParseIntError` that an unsigned parse can give).
#[derive(Debug, Clone, Copy, PartialEq, Eq, Structural)]
pub enum NodeIdParseError {
    /// The text is empty.
    Empty,
    /// A character is not a decimal digit (a lone sign counts as one).
    InvalidDigit,
    /// The number is larger than `u64::MAX`.
    PosOverflow,
}

impl NodeIdParseError {
    /// The reason as std's `ParseIntError` words it.
    pub fn reason(&self) -> (r: &'static str)
        ensures
            r@ == (match *self {
                NodeIdParseError::Empty => "cannot parse integer from empty string"@,
                NodeIdParseError::InvalidDigit => "invalid digit found in string"@,
                NodeIdParseError::PosOverflow => "number too large to fit in target type"@,
            }),
    {
        match self {
            NodeIdParseError::Empty => "cannot parse integer from empty string",
            NodeIdParseError::InvalidDigit => "invalid digit found in string",
            NodeIdParseError::PosOverflow => "number too large to fit in target type",
        }
    }
}

pub open spec fn is_decimal_digit(c: char) -> bool {
    '0' <= c <= '9'
}

/// The number that the decimal digits `s` spell.
pub open spec fn decimal_value(s: Seq<char>) -> int
    decreases s.len(),
{
    if s.len() == 0 {
        0
    } else {
        decimal_value(s.drop_last()) * 10 + (s.last() as int - '0' as int)
    }
}

/// The end of the run of decimal digits of `s` that starts at `i`.
pub open spec fn digit_run_end(s: Seq<char>, i: int) -> int
    decreases s.len() - i,
{
    if i < 0 || i >= s.len() || !is_decimal_digit(s[i]) {
        i
    } else {
        digit_run_end(s, i + 1)
    }
}

/// The characters after an optional leading `+`.
pub open spec fn unsigned_digits(s: Seq<char>) -> Seq<char> {
    if s.len() > 0 && s[0] == '+' {
        s.subrange(1, s.len() as int)
    } else {
        s
    }
}

/// How std reads an unsigned integer from text: empty text is refused; a
/// lone sign is an invalid digit; one leading `+` is dropped; then the
/// digits are read from the left, and the first character that is no
/// digit is an invalid digit unless the number read before it already
/// exceeds `u64::MAX`, which is an overflow.
pub open spec fn parsed_node_id(s: Seq<char>) -> Result<u64, NodeIdParseError> {
    if s.len() == 0 {
        Err(NodeIdParseError::Empty)
    } else if s.len() == 1 && (s[0] == '+' || s[0] == '-') {
        Err(NodeIdParseError::InvalidDigit)
    } else {
        let d = unsigned_digits(s);
        let run = digit_run_end(d, 0);
        if decimal_value(d.subrange(0, run)) > u64::MAX {
            Err(NodeIdParseError::PosOverflow)
        } else if run < d.len() {
            Err(NodeIdParseError::InvalidDigit)
        } else {
            Ok(decimal_value(d) as u64)
        }
    }
}

proof fn lemma_run_bounds(s: Seq<char>, i: int)
    requires
        0 <= i <= s.len(),
    ensures
        i <= digit_run_end(s, i) <= s.len(),
        forall|t: int| i <= t < digit_run_end(s, i) ==> is_decimal_digit(#[trigger] s[t]),
        digit_run_end(s, i) < s.len() ==> !is_decimal_digit(s[digit_run_end(s, i)]),
    decreases s.len() - i,
{
    if i < s.len() && is_decimal_digit(s[i]) {
        lemma_run_bounds(s, i + 1);
    }
}

proof fn lemma_value_nonneg_and_monotone(s: Seq<char>, a: int, b: int)
    requires
        0 <= a <= b <= s.len(),
        forall|t: int| 0 <= t < b ==> is_decimal_digit(#[trigger] s[t]),
    ensures
        0 <= decimal_value(s.subrange(0, a)) <= decimal_value(s.subrange(0, b)),
    decreases b,
{
    if b > 0 {
        assert(s.subrange(0, b).drop_last() =~= s.subrange(0, b - 1));
        if a < b {
            lemma_value_nonneg_and_monotone(s, a, b - 1);
        } else {
            lemma_value_nonneg_and_monotone(s, b - 1, b - 1);
        }
    } else {
        assert(s.subrange(0, 0).len() == 0);
    }
}

/// Reads a node id as std's `str::parse::<u64>` does: see
/// `parsed_node_id`.
pub fn parse_node_id(text: &str) -> (r: Result<u64, NodeIdParseError>)
    ensures
        r == parsed_node_id(text@),
{
    let s = to_chars(text);
    let n = s.len();
    if n == 0 {
        return Err(NodeIdParseError::Empty);
    }
    if n == 1 && (s[0] == '+' || s[0] == '-') {
        return Err(NodeIdParseError::InvalidDigit);
    }
    let start: usize = if s[0] == '+' {
        1
    } else {
        0
    };
    let ghost d = unsigned_digits(s@);
    proof {
        assert(d =~= s@.subrange(start as int, n as int));
        lemma_run_bounds(d, 0);
    }
    let mut value: u64 = 0;
    let mut k: usize = 0;
    while k < n - start
        invariant
            s@ == text@,
            n == s@.len(),
            n > 1 || (s@[0] != '+' && s@[0] != '-'),
            d == unsigned_digits(text@),
            start <= 1,
            start < n,
            d == s@.subrange(start as int, n as int),
            k <= d.len(),
            forall|t: int| 0 <= t < k ==> is_decimal_digit(#[trigger] d[t]),
            value == decimal_value(d.subrange(0, k as int)),
        decreases d.len() - k,
    {
        let c = s[start + k];
        assert(c == d[k as int]);
        if !('0' <= c && c <= '9') {
            proof {
                lemma_run_bounds(d, 0);
                assert(digit_run_end(d, 0) == k);
            }
            return Err(NodeIdParseError::InvalidDigit);
        }
        let digit = (c as u32 - '0' as u32) as u64;
        let wide: u128 = value as u128 * 10 + digit as u128;
        proof {
            assert(d.subrange(0, k + 1).drop_last() =~= d.subrange(0, k as int));
            assert(decimal_value(d.subrange(0, k + 1)) == wide);
        }
        if wide > u64::MAX as u128 {
            proof {
                lemma_run_bounds(d, 0);
                assert(digit_run_end(d, 0) >= k + 1);
                lemma_value_nonneg_and_monotone(d, k + 1, digit_run_end(d, 0));
            }
            return Err(NodeIdParseError::PosOverflow);
        }
        value = wide as u64;
        k = k + 1;
    }
    proof {
        lemma_run_bounds(d, 0);
        assert(d.subrange(0, d.len() as int) =~= d);
    }
    Ok(value)
}

/// The node id a run uses: the one given on the command line, else the one
/// read from the configuration file's text (when there is a configuration
/// file), else none.
pub fn resolve_node_id(given: Option<u64>, config_node_id: Option<&str>) -> (r: Result<
    Option<u64>,
    NodeIdParseError,
>)
    ensures
        match given {
            Some(n) => r == Ok::<Option<u64>, NodeIdParseError>(Some(n)),
            None => match config_node_id {
                None => r == Ok::<Option<u64>, NodeIdParseError>(None),
                Some(text) => match parsed_node_id(text@) {
                    Ok(v) => r == Ok::<Option<u64>, NodeIdParseError>(Some(v)),
                    Err(e) => r == Err::<Option<u64>, NodeIdParseError>(e),
                },
            },
        },
{
    match given {
        Some(n) => Ok(Some(n)),
        None => match config_node_id {
            None => Ok(None),
            Some(text) => match parse_node_id(text) {
                Ok(v) => Ok(Some(v)),
                Err(e) => Err(e),
            },
        },
    }
}

} // verus!
