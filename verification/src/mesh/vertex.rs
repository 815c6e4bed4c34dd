//! The vertex types yielded by meshes that carry more than points.
use vstd::prelude::*;

verus! {

/// A vertex with a color.
#[derive(Copy, Clone, Debug, PartialEq)]
pub struct WithColor<V, C> {
    /// The vertex.
    pub vertex: V,
    /// The vertex's color.
    pub color: C,
}

/// A vertex with texture coordinates.
#[derive(Copy, Clone, Debug, PartialEq)]
pub struct WithTexCoords<V, T> {
    /// The vertex.
    pub vertex: V,
    /// The vertex's texture coordinates.
    pub tex_coords: T,
}

/// A vertex with a normal.
#[derive(Copy, Clone, Debug, PartialEq)]
pub struct WithNormal<V, N> {
    /// The vertex.
    pub vertex: V,
    /// The vertex's normal.
    pub normal: N,
}

} // verus!
