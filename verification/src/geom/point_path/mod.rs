//! Tools for working with point paths using varying kinds of line joins and caps.
//!
//! The naming and behaviour for line joins and caps follows the SVG format conventions.
//!
//! Joins: **miter** extends the stroke to where the edges on each side bisect (the default),
//! **round** rounds the outside edge, **bevel** cuts the outside edge off.
//!
//! Caps: **butt** ends the stroke flush with the line's end (the default), **round** ends it with
//! a half circle, **square** extends it by half the thickness.
use vstd::prelude::*;

pub mod cap;
pub mod join;

verus! {

/// A point path: the points of a line of some thickness, with its cap and join styles.
pub struct PointPath<C, J, I, S> {
    /// The cap style at both ends.
    pub cap: C,
    /// The join style between lines.
    pub join: J,
    /// The points along the path.
    pub points: I,
    /// The thickness of the line.
    pub thickness: S,
}

impl<C, J, I, S> PointPath<C, J, I, S> {
    /// Construct a new PointPath from its parts.
    pub fn new(cap: C, join: J, points: I, thickness: S) -> (r: Self)
        ensures
            r.cap == cap && r.join == join && r.points == points && r.thickness == thickness,
    {
        PointPath { cap, join, points, thickness }
    }

    /// Specify the capping style for the start and end of the line.
    pub fn cap<T>(self, cap: T) -> (r: PointPath<T, J, I, S>)
        ensures
            r.cap == cap && r.join == self.join && r.points == self.points && r.thickness
                == self.thickness,
    {
        let PointPath { join, points, thickness, .. } = self;
        PointPath { cap, join, points, thickness }
    }

    /// Specify the style of the join between lines.
    pub fn join<T>(self, join: T) -> (r: PointPath<C, T, I, S>)
        ensures
            r.cap == self.cap && r.join == join && r.points == self.points && r.thickness
                == self.thickness,
    {
        let PointPath { cap, points, thickness, .. } = self;
        PointPath { cap, join, points, thickness }
    }

    /// Ends the stroke flush with the start or end of the line.
    pub fn cap_butt(self) -> (r: PointPath<cap::Butt, J, I, S>)
        ensures
            r.join == self.join && r.points == self.points && r.thickness == self.thickness,
    {
        self.cap(cap::Butt)
    }

    /// Ends the line with a half circle whose radius is half the line thickness.
    pub fn cap_round(self) -> (r: PointPath<cap::Round, J, I, S>)
        ensures
            r.join == self.join && r.points == self.points && r.thickness == self.thickness,
    {
        self.cap(cap::Round)
    }

    /// Extends the line on either end by half the thickness.
    pub fn cap_square(self) -> (r: PointPath<cap::Square, J, I, S>)
        ensures
            r.join == self.join && r.points == self.points && r.thickness == self.thickness,
    {
        self.cap(cap::Square)
    }

    /// Extends the stroke to where the edges on each side bisect.
    pub fn join_miter(self) -> (r: PointPath<C, join::Miter, I, S>)
        ensures
            r.cap == self.cap && r.points == self.points && r.thickness == self.thickness,
    {
        self.join(join::Miter)
    }

    /// Rounds the outside edge with a circle the diameter of the thickness.
    pub fn join_round(self) -> (r: PointPath<C, join::Round, I, S>)
        ensures
            r.cap == self.cap && r.points == self.points && r.thickness == self.thickness,
    {
        self.join(join::Round)
    }

    /// Cuts the outside edge off where a circle the diameter of the thickness intersects the
    /// thickness.
    pub fn join_bevel(self) -> (r: PointPath<C, join::Bevel, I, S>)
        ensures
            r.cap == self.cap && r.join == join::Bevel && r.points == self.points && r.thickness
                == self.thickness,
    {
        self.join(join::Bevel)
    }
}

/// Construct a PointPath with the default butt cap and miter join.
pub fn new<I, S>(points: I, thickness: S) -> (r: PointPath<cap::Butt, join::Miter, I, S>)
    ensures
        r.points == points && r.thickness == thickness,
{
    PointPath::new(cap::Butt, join::Miter, points, thickness)
}

} // verus!
