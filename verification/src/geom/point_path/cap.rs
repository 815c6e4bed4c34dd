//! The styles of caps at the ends of a point path.
use vstd::prelude::*;

verus! {

/// Ends the stroke flush with the start or end of the line.
#[derive(Copy, Clone, Debug)]
pub struct Butt;

/// Ends the line with a half circle whose radius is half the line thickness.
#[derive(Copy, Clone, Debug)]
pub struct Round;

/// Extends the line on either end by half the thickness.
#[derive(Copy, Clone, Debug)]
pub struct Square;

} // verus!
