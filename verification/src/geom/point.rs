//! Implementation of the **Point** types: aliases of the vector types.
use crate::geom::vector::{Vector2, Vector3, Vector4};
use vstd::prelude::*;

verus! {

/// A 2-dimensional point type.
pub type Point2<S> = Vector2<S>;

/// A 3-dimensional point type.
pub type Point3<S> = Vector3<S>;

/// A 4-dimensional point type.
pub type Point4<S> = Vector4<S>;

/// Construct a 2-dimensional point.
pub fn pt2<S>(x: S, y: S) -> (r: Point2<S>)
    ensures
        r.x == x && r.y == y,
{
    Vector2 { x, y }
}

/// Construct a 3-dimensional point.
pub fn pt3<S>(x: S, y: S, z: S) -> (r: Point3<S>)
    ensures
        r.x == x && r.y == y && r.z == z,
{
    Vector3 { x, y, z }
}

/// Construct a 4-dimensional point.
pub fn pt4<S>(x: S, y: S, z: S, w: S) -> (r: Point4<S>)
    ensures
        r.x == x && r.y == y && r.z == z && r.w == w,
{
    Vector4 { x, y, z, w }
}

} // verus!
