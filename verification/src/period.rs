//! Periods of time measured in ticks.
use vstd::prelude::*;

verus! {

/// A period of time in ticks.
#[derive(Copy, Clone, Debug, PartialEq, Eq, Structural)]
pub struct Period<T> {
    /// The first tick within the period.
    pub start: T,
    /// The first tick after the period.
    pub end: T,
}

impl Period<i64> {
    /// The duration of the period.
    pub fn duration(&self) -> (r: i64)
        requires
            i64::MIN <= self.end - self.start <= i64::MAX,
        ensures
            r == self.end - self.start,
    {
        self.end - self.start
    }

    /// Does the given ticks fall within the period.
    pub fn contains(&self, t: i64) -> (r: bool)
        ensures
            r == (self.start <= t < self.end),
    {
        t >= self.start && t < self.end
    }

    /// Whether or not self intersects with the other period.
    ///
    /// Periods that only touch at an end also intersect.
    pub fn intersects(&self, other: &Self) -> (r: bool)
        ensures
            r == !(other.start > self.end || self.start > other.end),
    {
        !(other.start > self.end || self.start > other.end)
    }
}

/// Intersection is symmetric, and a period intersects every period that contains one of its
/// ticks.
pub proof fn lemma_intersects_symmetric(a: Period<i64>, b: Period<i64>, t: int)
    ensures
        !(b.start > a.end || a.start > b.end) == !(a.start > b.end || b.start > a.end),
        a.start <= t < a.end && b.start <= t < b.end ==> !(b.start > a.end || a.start > b.end),
{
}

} // verus!
