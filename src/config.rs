use vstd::prelude::*;
use crate::error::BenchError;

verus! {

/// How the workers get their matcher.
#[derive(Debug, Clone, Copy, PartialEq, Eq)]
pub enum Strategy {
    /// Each worker owns an independent copy, with a scratch pool of its own.
    Cloned,
    /// All workers share one instance and its single scratch pool.
    Shared,
}

pub open spec fn is_digit(c: char) -> bool {
    '0' <= c && c <= '9'
}

pub open spec fn digit_value(c: char) -> nat {
    (c as u32 - '0' as u32) as nat
}

/// The number that a string of decimal digits denotes.
pub open spec fn decimal_value(s: Seq<char>) -> nat
    decreases s.len(),
{
    if s.len() == 0 {
        0
    } else {
        decimal_value(s.drop_last()) * 10 + digit_value(s.last())
    }
}

pub open spec fn all_digits(s: Seq<char>) -> bool {
    forall|i: int| 0 <= i < s.len() ==> is_digit(#[trigger] s[i])
}

/// The digits of an unsigned number in text: a leading `+` is allowed.
pub open spec fn unsigned_digits(s: Seq<char>) -> Seq<char> {
    if s.len() > 0 && s[0] == '+' {
        s.drop_first()
    } else {
        s
    }
}

/// The thread count that `s` configures, if it is a positive decimal integer
/// (with an optional leading `+`) that fits in `u32`.
pub open spec fn thread_count_of(s: Seq<char>) -> Option<u32> {
    let d = unsigned_digits(s);
    if d.len() > 0 && all_digits(d) && 1 <= decimal_value(d) <= u32::MAX {
        Some(decimal_value(d) as u32)
    } else {
        None
    }
}

/// The strategy that `s` selects, if it names one.
pub open spec fn strategy_of(s: Seq<char>) -> Option<Strategy> {
    if s == "cloned"@ {
        Some(Strategy::Cloned)
    } else if s == "shared"@ {
        Some(Strategy::Shared)
    } else {
        None
    }
}

proof fn lemma_decimal_grows(s: Seq<char>, j: int, k: int)
    requires
        0 <= j <= k <= s.len(),
    ensures
        decimal_value(s.subrange(0, j)) <= decimal_value(s.subrange(0, k)),
    decreases k - j,
{
    if j < k {
        lemma_decimal_grows(s, j, k - 1);
        assert(s.subrange(0, k).drop_last() =~= s.subrange(0, k - 1));
    }
}

/// Reads a thread count: a positive decimal integer that fits in `u32`, with
/// an optional leading `+`. Zero is refused.
pub fn parse_threads(text: &str) -> (r: Result<u32, BenchError>)
    ensures
        match thread_count_of(text@) {
            Some(n) => r == Ok::<u32, BenchError>(n),
            None => r matches Err(BenchError::InvalidThreadCount(t)) && t@ == text@,
        },
{
    let len = text.unicode_len();
    let mut start: usize = 0;
    if len > 0 && text.get_char(0) == '+' {
        start = 1;
    }
    let ghost d = unsigned_digits(text@);
    assert(d =~= text@.subrange(start as int, len as int));
    let mut value: u64 = 0;
    let mut i: usize = start;
    while i < len
        invariant
            start <= i <= len,
            len == text@.len(),
            d == text@.subrange(start as int, len as int),
            d == unsigned_digits(text@),
            all_digits(d.subrange(0, i - start)),
            value == decimal_value(d.subrange(0, i - start)),
            value <= u32::MAX,
        decreases len - i,
    {
        let c = text.get_char(i);
        assert(d[i - start] == c);
        if c < '0' || c > '9' {
            assert(!is_digit(d[i - start]));
            return Err(BenchError::InvalidThreadCount(text.to_owned()));
        }
        let digit = (c as u32 - '0' as u32) as u64;
        assert(d.subrange(0, i + 1 - start).drop_last() =~= d.subrange(0, i - start));
        assert(d.subrange(0, i + 1 - start).last() == c);
        assert(digit == digit_value(c));
        value = value * 10 + digit;
        assert(value == decimal_value(d.subrange(0, i + 1 - start)));
        if value > 4294967295 {
            proof {
                lemma_decimal_grows(d, i + 1 - start, d.len() as int);
                assert(d.subrange(0, d.len() as int) =~= d);
            }
            return Err(BenchError::InvalidThreadCount(text.to_owned()));
        }
        i = i + 1;
        assert(all_digits(d.subrange(0, i - start))) by {
            assert forall|k: int| 0 <= k < i - start implies is_digit(
                #[trigger] d.subrange(0, i - start)[k],
            ) by {
                if k < i - 1 - start {
                    assert(d.subrange(0, i - 1 - start)[k] == d[k]);
                }
            }
        }
    }
    assert(d.subrange(0, i - start) =~= d);
    if i == start || value == 0 {
        return Err(BenchError::InvalidThreadCount(text.to_owned()));
    }
    Ok(value as u32)
}

/// Compares two strings character by character.
fn same_text(a: &str, b: &str) -> (r: bool)
    ensures
        r == (a@ == b@),
{
    let n = a.unicode_len();
    if n != b.unicode_len() {
        return false;
    }
    let mut i: usize = 0;
    while i < n
        invariant
            n == a@.len() == b@.len(),
            i <= n,
            a@.subrange(0, i as int) == b@.subrange(0, i as int),
        decreases n - i,
    {
        if a.get_char(i) != b.get_char(i) {
            return false;
        }
        assert(a@.subrange(0, i + 1) =~= a@.subrange(0, i as int).push(a@[i as int]));
        assert(b@.subrange(0, i + 1) =~= b@.subrange(0, i as int).push(b@[i as int]));
        i = i + 1;
    }
    assert(a@ =~= a@.subrange(0, n as int));
    assert(b@ =~= b@.subrange(0, n as int));
    true
}

/// Reads a strategy selector: `cloned` or `shared`. Any other text is refused
/// with an error that holds it, before any worker exists.
pub fn parse_strategy(text: &str) -> (r: Result<Strategy, BenchError>)
    ensures
        match strategy_of(text@) {
            Some(s) => r == Ok::<Strategy, BenchError>(s),
            None => r matches Err(BenchError::UnrecognizedStrategy(t)) && t@ == text@,
        },
{
    if same_text(text, "cloned") {
        Ok(Strategy::Cloned)
    } else if same_text(text, "shared") {
        Ok(Strategy::Shared)
    } else {
        Err(BenchError::UnrecognizedStrategy(text.to_owned()))
    }
}

} // verus!
