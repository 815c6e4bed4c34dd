//! The square line cap.
use vstd::prelude::*;

verus! {

/// A line cap with a square edge that extends past the end of the start or end by half the
/// line's thickness.
#[derive(Clone, Debug)]
pub struct Square;

} // verus!
