//! The markers of a timeline ruler within one bar.
use vstd::prelude::*;

verus! {

/// An iterator yielding the position in ticks of each marker within a bar: starting at the
/// first marker, one every `marker_step_ticks`, while they come before `end_ticks`.
#[derive(Clone)]
pub struct BarMarkersInTicks {
    maybe_next: Option<i64>,
    marker_step_ticks: i64,
    end_ticks: i64,
}

impl BarMarkersInTicks {
    /// Markers starting at `first` (none where it is `None`), `marker_step_ticks` apart, before
    /// `end_ticks`.
    pub fn new(first: Option<i64>, marker_step_ticks: i64, end_ticks: i64) -> (r: Self)
        ensures
            r.next_marker() == first && r.step() == marker_step_ticks && r.end() == end_ticks,
    {
        BarMarkersInTicks { maybe_next: first, marker_step_ticks, end_ticks }
    }

    /// The marker to be yielded next, if any.
    pub closed spec fn next_marker(self) -> Option<i64> {
        self.maybe_next
    }

    /// The distance in ticks between markers.
    pub closed spec fn step(self) -> i64 {
        self.marker_step_ticks
    }

    /// The tick before which markers must lie.
    pub closed spec fn end(self) -> i64 {
        self.end_ticks
    }

    /// Yield the next marker.
    pub fn next(&mut self) -> (r: Option<i64>)
        requires
            old(self).next_marker() matches Some(t) ==> i64::MIN <= t + old(self).step()
                <= i64::MAX,
        ensures
            r == old(self).next_marker(),
            final(self).step() == old(self).step() && final(self).end() == old(self).end(),
            r matches Some(t) ==> final(self).next_marker() == (if t + old(self).step() < old(
                self,
            ).end() {
                Some((t + old(self).step()) as i64)
            } else {
                None
            }),
            r is None ==> final(self).next_marker() is None,
    {
        match self.maybe_next {
            None => None,
            Some(this_marker_ticks) => {
                let next_marker_ticks = this_marker_ticks + self.marker_step_ticks;
                self.maybe_next = if next_marker_ticks < self.end_ticks {
                    Some(next_marker_ticks)
                } else {
                    None
                };
                Some(this_marker_ticks)
            },
        }
    }
}

} // verus!
