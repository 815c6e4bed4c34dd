//! The styles of joins between the lines of a point path.
use vstd::prelude::*;

verus! {

/// Extends the stroke to where the edges on each side bisect.
#[derive(Copy, Clone, Debug)]
pub struct Miter;

/// Rounds the outside edge with a circle the diameter of the thickness.
#[derive(Copy, Clone, Debug)]
pub struct Round;

/// Cuts the outside edge off where a circle the diameter of the thickness intersects the
/// thickness.
#[derive(Copy, Clone, Debug)]
pub struct Bevel;

} // verus!
