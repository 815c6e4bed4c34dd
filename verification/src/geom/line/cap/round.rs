//! The rounded line cap.
use vstd::prelude::*;

verus! {

/// A line cap with a rounded edge around a line's start or end.
#[derive(Clone, Debug)]
pub struct Round;

} // verus!
