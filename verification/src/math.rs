//! Scalar helper functions.
use vstd::prelude::*;

verus! {

/// The larger of two values; on a tie the first argument is returned.
pub open spec fn spec_partial_max(a: int, b: int) -> int {
    if a >= b { a } else { b }
}

/// The smaller of two values; on a tie the first argument is returned.
pub open spec fn spec_partial_min(a: int, b: int) -> int {
    if a <= b { a } else { b }
}

/// `n` clamped to the closed range spanned by `start` and `end`, whichever is larger.
pub open spec fn spec_clamp(n: int, start: int, end: int) -> int {
    if start <= end {
        if n < start { start } else if n > end { end } else { n }
    } else {
        if n < end { end } else if n > start { start } else { n }
    }
}

/// The max between two partially ordered values.
pub fn partial_max(a: i64, b: i64) -> (r: i64)
    ensures
        r == spec_partial_max(a as int, b as int),
{
    if a >= b {
        a
    } else {
        b
    }
}

/// The min between two partially ordered values.
pub fn partial_min(a: i64, b: i64) -> (r: i64)
    ensures
        r == spec_partial_min(a as int, b as int),
{
    if a <= b {
        a
    } else {
        b
    }
}

/// Clamp a value between some range.
///
/// The range may be given in either order.
pub fn clamp(n: i64, start: i64, end: i64) -> (r: i64)
    ensures
        r == spec_clamp(n as int, start as int, end as int),
{
    if start <= end {
        if n < start {
            start
        } else if n > end {
            end
        } else {
            n
        }
    } else {
        if n < end {
            end
        } else if n > start {
            start
        } else {
            n
        }
    }
}

/// The value two, as `one + one`.
pub fn two() -> (r: i64)
    ensures
        r == 2,
{
    1 + 1
}

/// Clamping always yields a value within the bounds, and is idempotent.
pub proof fn lemma_clamp_within_bounds(n: int, start: int, end: int)
    ensures
        spec_partial_min(start, end) <= spec_clamp(n, start, end) <= spec_partial_max(start, end),
        spec_clamp(spec_clamp(n, start, end), start, end) == spec_clamp(n, start, end),
        spec_partial_min(start, end) <= n <= spec_partial_max(start, end) ==> spec_clamp(
            n,
            start,
            end,
        ) == n,
{
}

/// The max of two values is one of them and bounds both from above; the min dually.
pub proof fn lemma_max_min(a: int, b: int)
    ensures
        spec_partial_max(a, b) >= a && spec_partial_max(a, b) >= b,
        spec_partial_max(a, b) == a || spec_partial_max(a, b) == b,
        spec_partial_min(a, b) <= a && spec_partial_min(a, b) <= b,
        spec_partial_min(a, b) == a || spec_partial_min(a, b) == b,
        spec_partial_max(a, b) + spec_partial_min(a, b) == a + b,
{
}

} // verus!
