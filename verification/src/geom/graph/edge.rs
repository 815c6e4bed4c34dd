//! Items related to the edges of a geometry graph.
use crate::geom::vector::Vector3;
use vstd::prelude::*;

verus! {

/// Describes an edge within the geometry graph.
#[derive(Copy, Clone, Debug, PartialEq)]
pub struct Edge<S> {
    /// The unique kind of edge.
    ///
    /// Represents the combination of `Axis` and `Relative` association described by the edge.
    pub kind: Kind,
    /// A weight whose value's meaning depends on the edge's `Relative` association.
    ///
    /// For `Position` kind edges this represents a relative scalar value.
    /// For `Orientation` kind edges this represents a relative angle in radians.
    /// For `Scale` kind edges this represents the relative scale.
    pub weight: S,
}

/// The unique `Edge` kind - a combo of a `Relative` association and an `Axis`.
///
/// Every incoming (parent) `Edge` for each `Node` in the graph *must* be a unique kind. E.g.
/// it does not make sense for a `Node` to be positioned relatively along the *x* axis to two
/// different parent `Node`s.
#[derive(Copy, Clone, Debug, PartialEq, Eq, Hash, Structural)]
pub struct Kind {
    /// The axis along which this edge describes some relationship.
    pub axis: Axis,
    /// The relative association described by the edge.
    pub relative: Relative,
}

/// Describes one of the three axes in three-dimensional space.
#[derive(Copy, Clone, Debug, PartialEq, Eq, Hash, PartialOrd, Ord, Structural)]
pub enum Axis {
    X,
    Y,
    Z,
}

/// The various possible relative relationships that can be created between nodes.
#[derive(Copy, Clone, Debug, PartialEq, Eq, Hash, Structural)]
pub enum Relative {
    /// A relative position as a scalar value.
    Position,
    /// A relative orientation in radians.
    Orientation,
    /// A relative scale.
    Scale,
}

impl Kind {
    /// Simple constructor for an edge `Kind`.
    pub fn new(axis: Axis, relative: Relative) -> (k: Self)
        ensures
            k.axis == axis && k.relative == relative,
    {
        Kind { axis, relative }
    }

    /// Simple constructor for and Edge describing a relative association over the **X** axis.
    pub fn x(relative: Relative) -> (k: Self)
        ensures
            k.axis == Axis::X && k.relative == relative,
    {
        Kind::new(Axis::X, relative)
    }

    /// Simple constructor for and Edge describing a relative association over the **Y** axis.
    pub fn y(relative: Relative) -> (k: Self)
        ensures
            k.axis == Axis::Y && k.relative == relative,
    {
        Kind::new(Axis::Y, relative)
    }

    /// Simple constructor for and Edge describing a relative association over the **Z** axis.
    pub fn z(relative: Relative) -> (k: Self)
        ensures
            k.axis == Axis::Z && k.relative == relative,
    {
        Kind::new(Axis::Z, relative)
    }

    /// Simple constructor for an Edge describing a relative position along the given axis.
    pub fn position(axis: Axis) -> (k: Self)
        ensures
            k.axis == axis && k.relative == Relative::Position,
    {
        let relative = Relative::Position;
        Kind { axis, relative }
    }

    /// Simple constructor for an Edge describing a relative orientation along the given axis.
    pub fn orientation(axis: Axis) -> (k: Self)
        ensures
            k.axis == axis && k.relative == Relative::Orientation,
    {
        let relative = Relative::Orientation;
        Kind { axis, relative }
    }

    /// Simple constructor for an Edge describing a relative scale along the given axis.
    pub fn scale(axis: Axis) -> (k: Self)
        ensures
            k.axis == axis && k.relative == Relative::Scale,
    {
        let relative = Relative::Scale;
        Kind { axis, relative }
    }

    /// Simple constructor for and Edge describing a relative position over the **X** axis.
    pub fn x_position() -> (k: Self)
        ensures
            k.axis == Axis::X && k.relative == Relative::Position,
    {
        Kind::x(Relative::Position)
    }

    /// Simple constructor for and Edge describing a relative orientation over the **X** axis.
    pub fn x_orientation() -> (k: Self)
        ensures
            k.axis == Axis::X && k.relative == Relative::Orientation,
    {
        Kind::x(Relative::Orientation)
    }

    /// Simple constructor for and Edge describing a relative scale over the **X** axis.
    pub fn x_scale() -> (k: Self)
        ensures
            k.axis == Axis::X && k.relative == Relative::Scale,
    {
        Kind::x(Relative::Scale)
    }

    /// Simple constructor for and Edge describing a relative position over the **Y** axis.
    pub fn y_position() -> (k: Self)
        ensures
            k.axis == Axis::Y && k.relative == Relative::Position,
    {
        Kind::y(Relative::Position)
    }

    /// Simple constructor for and Edge describing a relative orientation over the **Y** axis.
    pub fn y_orientation() -> (k: Self)
        ensures
            k.axis == Axis::Y && k.relative == Relative::Orientation,
    {
        Kind::y(Relative::Orientation)
    }

    /// Simple constructor for and Edge describing a relative scale over the **Y** axis.
    pub fn y_scale() -> (k: Self)
        ensures
            k.axis == Axis::Y && k.relative == Relative::Scale,
    {
        Kind::y(Relative::Scale)
    }

    /// Simple constructor for and Edge describing a relative position over the **Z** axis.
    pub fn z_position() -> (k: Self)
        ensures
            k.axis == Axis::Z && k.relative == Relative::Position,
    {
        Kind::z(Relative::Position)
    }

    /// Simple constructor for and Edge describing a relative orientation over the **Z** axis.
    pub fn z_orientation() -> (k: Self)
        ensures
            k.axis == Axis::Z && k.relative == Relative::Orientation,
    {
        Kind::z(Relative::Orientation)
    }

    /// Simple constructor for and Edge describing a relative scale over the **Z** axis.
    pub fn z_scale() -> (k: Self)
        ensures
            k.axis == Axis::Z && k.relative == Relative::Scale,
    {
        Kind::z(Relative::Scale)
    }
}

impl<S> Edge<S> {
    /// Simple constructor for an `Edge`.
    pub fn new(kind: Kind, weight: S) -> (e: Self)
        ensures
            e.kind == kind && e.weight == weight,
    {
        Edge { kind, weight }
    }

    /// Simple constructor for an `Edge` describing a relative association over the **X** axis.
    pub fn x(relative: Relative, weight: S) -> (e: Self)
        ensures
            e.kind.axis == Axis::X && e.kind.relative == relative && e.weight == weight,
    {
        Edge::new(Kind::x(relative), weight)
    }

    /// Simple constructor for an `Edge` describing a relative association over the **Y** axis.
    pub fn y(relative: Relative, weight: S) -> (e: Self)
        ensures
            e.kind.axis == Axis::Y && e.kind.relative == relative && e.weight == weight,
    {
        Edge::new(Kind::y(relative), weight)
    }

    /// Simple constructor for an `Edge` describing a relative association over the **Z** axis.
    pub fn z(relative: Relative, weight: S) -> (e: Self)
        ensures
            e.kind.axis == Axis::Z && e.kind.relative == relative && e.weight == weight,
    {
        Edge::new(Kind::z(relative), weight)
    }

    /// Simple constructor for an `Edge` describing a relative position over the given axis.
    pub fn position(axis: Axis, weight: S) -> (e: Self)
        ensures
            e.kind.axis == axis && e.kind.relative == Relative::Position && e.weight == weight,
    {
        Edge::new(Kind::position(axis), weight)
    }

    /// Simple constructor for an `Edge` describing a relative orientation over the given axis.
    pub fn orientation(axis: Axis, weight: S) -> (e: Self)
        ensures
            e.kind.axis == axis && e.kind.relative == Relative::Orientation && e.weight == weight,
    {
        Edge::new(Kind::orientation(axis), weight)
    }

    /// Simple constructor for an `Edge` describing a relative scale over the given axis.
    pub fn scale(axis: Axis, weight: S) -> (e: Self)
        ensures
            e.kind.axis == axis && e.kind.relative == Relative::Scale && e.weight == weight,
    {
        Edge::new(Kind::scale(axis), weight)
    }

    /// Simple constructor for an `Edge` describing a relative position over the **X** axis.
    pub fn x_position(weight: S) -> (e: Self)
        ensures
            e.kind.axis == Axis::X && e.kind.relative == Relative::Position && e.weight == weight,
    {
        Edge::new(Kind::x_position(), weight)
    }

    /// Simple constructor for an `Edge` describing a relative orientation over the **X** axis.
    pub fn x_orientation(weight: S) -> (e: Self)
        ensures
            e.kind.axis == Axis::X && e.kind.relative == Relative::Orientation && e.weight == weight,
    {
        Edge::new(Kind::x_orientation(), weight)
    }

    /// Simple constructor for an `Edge` describing a relative scale over the **X** axis.
    pub fn x_scale(weight: S) -> (e: Self)
        ensures
            e.kind.axis == Axis::X && e.kind.relative == Relative::Scale && e.weight == weight,
    {
        Edge::new(Kind::x_scale(), weight)
    }

    /// Simple constructor for an `Edge` describing a relative position over the **Y** axis.
    pub fn y_position(weight: S) -> (e: Self)
        ensures
            e.kind.axis == Axis::Y && e.kind.relative == Relative::Position && e.weight == weight,
    {
        Edge::new(Kind::y_position(), weight)
    }

    /// Simple constructor for an `Edge` describing a relative orientation over the **Y** axis.
    pub fn y_orientation(weight: S) -> (e: Self)
        ensures
            e.kind.axis == Axis::Y && e.kind.relative == Relative::Orientation && e.weight == weight,
    {
        Edge::new(Kind::y_orientation(), weight)
    }

    /// Simple constructor for an `Edge` describing a relative scale over the **Y** axis.
    pub fn y_scale(weight: S) -> (e: Self)
        ensures
            e.kind.axis == Axis::Y && e.kind.relative == Relative::Scale && e.weight == weight,
    {
        Edge::new(Kind::y_scale(), weight)
    }

    /// Simple constructor for an `Edge` describing a relative position over the **Z** axis.
    pub fn z_position(weight: S) -> (e: Self)
        ensures
            e.kind.axis == Axis::Z && e.kind.relative == Relative::Position && e.weight == weight,
    {
        Edge::new(Kind::z_position(), weight)
    }

    /// Simple constructor for an `Edge` describing a relative orientation over the **Z** axis.
    pub fn z_orientation(weight: S) -> (e: Self)
        ensures
            e.kind.axis == Axis::Z && e.kind.relative == Relative::Orientation && e.weight == weight,
    {
        Edge::new(Kind::z_orientation(), weight)
    }

    /// Simple constructor for an `Edge` describing a relative scale over the **Z** axis.
    pub fn z_scale(weight: S) -> (e: Self)
        ensures
            e.kind.axis == Axis::Z && e.kind.relative == Relative::Scale && e.weight == weight,
    {
        Edge::new(Kind::z_scale(), weight)
    }
}

/// The three edges describing the given position displacement.
pub fn displace<S>(v: Vector3<S>) -> (r: [Edge<S>; 3])
    ensures
        r[0].kind == (Kind { axis: Axis::X, relative: Relative::Position }) && r[0].weight == v.x,
        r[1].kind == (Kind { axis: Axis::Y, relative: Relative::Position }) && r[1].weight == v.y,
        r[2].kind == (Kind { axis: Axis::Z, relative: Relative::Position }) && r[2].weight == v.z,
{
    [Edge::x_position(v.x), Edge::y_position(v.y), Edge::z_position(v.z)]
}

/// An angle in radians.
#[derive(Copy, Clone, Debug, PartialEq)]
pub struct Rad<S>(pub S);

/// A rotation as three angles, one about each axis.
#[derive(Copy, Clone, Debug, PartialEq)]
pub struct Euler<A> {
    /// The angle about the **X** axis.
    pub x: A,
    /// The angle about the **Y** axis.
    pub y: A,
    /// The angle about the **Z** axis.
    pub z: A,
}

/// The three edges describing the given orientation rotation: one orientation edge per axis,
/// weighted by that axis' angle.
pub fn rotate<S>(e: Euler<Rad<S>>) -> (r: [Edge<S>; 3])
    where
        S: Copy,
    ensures
        r[0].kind == (Kind { axis: Axis::X, relative: Relative::Orientation }) && r[0].weight
            == e.x.0,
        r[1].kind == (Kind { axis: Axis::Y, relative: Relative::Orientation }) && r[1].weight
            == e.y.0,
        r[2].kind == (Kind { axis: Axis::Z, relative: Relative::Orientation }) && r[2].weight
            == e.z.0,
{
    [Edge::x_orientation(e.x.0), Edge::y_orientation(e.y.0), Edge::z_orientation(e.z.0)]
}

/// An edge for scaling each axis using the given single scalar scale value.
pub fn scale<S: Copy>(s: S) -> (r: [Edge<S>; 3])
    ensures
        r[0].kind == (Kind { axis: Axis::X, relative: Relative::Scale }) && r[0].weight == s,
        r[1].kind == (Kind { axis: Axis::Y, relative: Relative::Scale }) && r[1].weight == s,
        r[2].kind == (Kind { axis: Axis::Z, relative: Relative::Scale }) && r[2].weight == s,
{
    [Edge::x_scale(s), Edge::y_scale(s), Edge::z_scale(s)]
}

} // verus!
