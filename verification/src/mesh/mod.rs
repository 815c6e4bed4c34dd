//! Meshes built from channels of points, indices, colors, texture coordinates and normals.
//!
//! A mesh starts as a channel of points (`from_points`) and is extended by adaptors that add an
//! index channel or a channel of per-vertex data. Each adaptor keeps the channels of the mesh
//! it wraps reachable.
use crate::geom::point::Point2;
use crate::geom::tri::{group_into_tris, iter_from_vertices, IterFromVertices};
use std::marker::PhantomData;
use vstd::prelude::*;

pub mod channel;
pub mod vertex;

pub use self::channel::{Channel, ChannelMut};

verus! {

/// Meshes that can produce the vertex at a given index.
pub trait GetVertex {
    /// The type of the vertices produced.
    type Vertex;

    /// The vertex at the given index, if there is one.
    spec fn spec_vertex(&self, index: usize) -> Option<Self::Vertex>;

    /// Create a vertex containing all channel properties for the given index.
    fn get_vertex(&self, index: usize) -> (r: Option<Self::Vertex>)
        ensures
            r == self.spec_vertex(index),
    ;
}

/// Meshes that have a channel of points.
pub trait Points {
    /// The type of the points.
    type Point;
    /// The channel the points are stored in.
    type Points: Channel<Element = Self::Point>;

    /// The channel of points.
    spec fn spec_points(&self) -> Self::Points;

    /// Borrow the channel of points.
    fn points(&self) -> (r: &Self::Points)
        ensures
            *r == self.spec_points(),
    ;
}

/// Meshes that have a channel of indices.
pub trait Indices {
    /// The channel the indices are stored in.
    type Indices: Channel<Element = usize>;

    /// The channel of indices.
    spec fn spec_indices(&self) -> Self::Indices;

    /// Borrow the channel of indices.
    fn indices(&self) -> (r: &Self::Indices)
        ensures
            *r == self.spec_indices(),
    ;
}

/// Meshes that have a channel of colors.
pub trait Colors {
    /// The type of the colors.
    type Color;
    /// The channel the colors are stored in.
    type Colors: Channel<Element = Self::Color>;

    /// The channel of colors.
    spec fn spec_colors(&self) -> Self::Colors;

    /// Borrow the channel of colors.
    fn colors(&self) -> (r: &Self::Colors)
        ensures
            *r == self.spec_colors(),
    ;
}

/// Meshes that have a channel of texture coordinates.
pub trait TexCoords {
    /// The scalar of the texture coordinates.
    type TexCoordScalar;
    /// The channel the texture coordinates are stored in.
    type TexCoords: Channel<Element = Point2<Self::TexCoordScalar>>;

    /// The channel of texture coordinates.
    spec fn spec_tex_coords(&self) -> Self::TexCoords;

    /// Borrow the channel of texture coordinates.
    fn tex_coords(&self) -> (r: &Self::TexCoords)
        ensures
            *r == self.spec_tex_coords(),
    ;
}

/// Meshes that have a channel of vertex normals.
pub trait Normals: Points {
    /// The channel the normals are stored in.
    type Normals: Channel;

    /// The channel of normals.
    spec fn spec_normals(&self) -> Self::Normals;

    /// Borrow the channel of normals.
    fn normals(&self) -> (r: &Self::Normals)
        ensures
            *r == self.spec_normals(),
    ;
}

/// The minimum mesh type: a channel of points.
#[derive(Copy, Clone, Debug, Default, PartialEq)]
pub struct MeshPoints<P> {
    /// The channel of points.
    pub points: P,
}

/// A mesh type with an added channel containing indices describing the edges between vertices.
#[derive(Copy, Clone, Debug, Default, PartialEq)]
pub struct WithIndices<M, I> {
    /// The wrapped mesh.
    pub mesh: M,
    /// The channel of indices.
    pub indices: I,
}

/// A `Mesh` type with an added channel containing colors.
#[derive(Copy, Clone, Debug, Default, PartialEq)]
pub struct WithColors<M, C> {
    /// The wrapped mesh.
    pub mesh: M,
    /// The channel of colors.
    pub colors: C,
}

/// A `Mesh` type with an added channel containing texture coordinates.
#[derive(Debug)]
pub struct WithTexCoords<M, T, S> {
    /// The wrapped mesh.
    pub mesh: M,
    /// The channel of texture coordinates.
    pub tex_coords: T,
    /// The scalar type of the texture coordinates.
    pub _tex_coord_scalar: PhantomData<S>,
}

/// A `Mesh` type with an added channel containing vertex normals.
#[derive(Copy, Clone, Debug, Default, PartialEq)]
pub struct WithNormals<M, N> {
    /// The wrapped mesh.
    pub mesh: M,
    /// The channel of normals.
    pub normals: N,
}

/// The element of a channel at `index`, if there is one.
pub open spec fn channel_get<C: Channel>(c: C, index: usize) -> Option<C::Element> {
    if index < c.elements().len() {
        Some(c.elements()[index as int])
    } else {
        None
    }
}

fn channel_get_copy<C: Channel>(c: &C, index: usize) -> (r: Option<C::Element>)
    where
        C::Element: Copy,
    ensures
        r == channel_get(*c, index),
{
    let s = c.channel();
    if index < s.len() {
        Some(s[index])
    } else {
        None
    }
}

impl<P> GetVertex for MeshPoints<P> where P: Channel, P::Element: Copy {
    type Vertex = P::Element;

    open spec fn spec_vertex(&self, index: usize) -> Option<P::Element> {
        channel_get(self.points, index)
    }

    fn get_vertex(&self, index: usize) -> (r: Option<P::Element>) {
        channel_get_copy(&self.points, index)
    }
}

impl<M, I> GetVertex for WithIndices<M, I> where M: GetVertex {
    type Vertex = M::Vertex;

    open spec fn spec_vertex(&self, index: usize) -> Option<M::Vertex> {
        self.mesh.spec_vertex(index)
    }

    fn get_vertex(&self, index: usize) -> (r: Option<M::Vertex>) {
        self.mesh.get_vertex(index)
    }
}

impl<M, C> GetVertex for WithColors<M, C> where M: GetVertex, C: Channel, C::Element: Copy {
    type Vertex = vertex::WithColor<M::Vertex, C::Element>;

    open spec fn spec_vertex(&self, index: usize) -> Option<Self::Vertex> {
        match (self.mesh.spec_vertex(index), channel_get(self.colors, index)) {
            (Some(vertex), Some(color)) => Some(vertex::WithColor { vertex, color }),
            _ => None,
        }
    }

    fn get_vertex(&self, index: usize) -> (r: Option<Self::Vertex>) {
        match self.mesh.get_vertex(index) {
            Some(vertex) => match channel_get_copy(&self.colors, index) {
                Some(color) => Some(vertex::WithColor { vertex, color }),
                None => None,
            },
            None => None,
        }
    }
}

impl<M, T, S> GetVertex for WithTexCoords<M, T, S> where M: GetVertex, T: Channel, T::Element: Copy {
    type Vertex = vertex::WithTexCoords<M::Vertex, T::Element>;

    open spec fn spec_vertex(&self, index: usize) -> Option<Self::Vertex> {
        match (self.mesh.spec_vertex(index), channel_get(self.tex_coords, index)) {
            (Some(vertex), Some(tex_coords)) => Some(vertex::WithTexCoords { vertex, tex_coords }),
            _ => None,
        }
    }

    fn get_vertex(&self, index: usize) -> (r: Option<Self::Vertex>) {
        match self.mesh.get_vertex(index) {
            Some(vertex) => match channel_get_copy(&self.tex_coords, index) {
                Some(tex_coords) => Some(vertex::WithTexCoords { vertex, tex_coords }),
                None => None,
            },
            None => None,
        }
    }
}

impl<M, N> GetVertex for WithNormals<M, N> where M: GetVertex, N: Channel, N::Element: Copy {
    type Vertex = vertex::WithNormal<M::Vertex, N::Element>;

    open spec fn spec_vertex(&self, index: usize) -> Option<Self::Vertex> {
        match (self.mesh.spec_vertex(index), channel_get(self.normals, index)) {
            (Some(vertex), Some(normal)) => Some(vertex::WithNormal { vertex, normal }),
            _ => None,
        }
    }

    fn get_vertex(&self, index: usize) -> (r: Option<Self::Vertex>) {
        match self.mesh.get_vertex(index) {
            Some(vertex) => match channel_get_copy(&self.normals, index) {
                Some(normal) => Some(vertex::WithNormal { vertex, normal }),
                None => None,
            },
            None => None,
        }
    }
}

impl<P> Points for MeshPoints<P> where P: Channel {
    type Point = P::Element;
    type Points = P;

    open spec fn spec_points(&self) -> P {
        self.points
    }

    fn points(&self) -> (r: &P) {
        &self.points
    }
}

impl<M, I> Points for WithIndices<M, I> where M: Points {
    type Point = M::Point;
    type Points = M::Points;

    open spec fn spec_points(&self) -> M::Points {
        self.mesh.spec_points()
    }

    fn points(&self) -> (r: &M::Points) {
        self.mesh.points()
    }
}

impl<M, C> Points for WithColors<M, C> where M: Points {
    type Point = M::Point;
    type Points = M::Points;

    open spec fn spec_points(&self) -> M::Points {
        self.mesh.spec_points()
    }

    fn points(&self) -> (r: &M::Points) {
        self.mesh.points()
    }
}

impl<M, T, S> Points for WithTexCoords<M, T, S> where M: Points {
    type Point = M::Point;
    type Points = M::Points;

    open spec fn spec_points(&self) -> M::Points {
        self.mesh.spec_points()
    }

    fn points(&self) -> (r: &M::Points) {
        self.mesh.points()
    }
}

impl<M, N> Points for WithNormals<M, N> where M: Points {
    type Point = M::Point;
    type Points = M::Points;

    open spec fn spec_points(&self) -> M::Points {
        self.mesh.spec_points()
    }

    fn points(&self) -> (r: &M::Points) {
        self.mesh.points()
    }
}

impl<M, I> Indices for WithIndices<M, I> where I: Channel<Element = usize> {
    type Indices = I;

    open spec fn spec_indices(&self) -> I {
        self.indices
    }

    fn indices(&self) -> (r: &I) {
        &self.indices
    }
}

impl<M, C> Indices for WithColors<M, C> where M: Indices {
    type Indices = M::Indices;

    open spec fn spec_indices(&self) -> M::Indices {
        self.mesh.spec_indices()
    }

    fn indices(&self) -> (r: &M::Indices) {
        self.mesh.indices()
    }
}

impl<M, T, S> Indices for WithTexCoords<M, T, S> where M: Indices {
    type Indices = M::Indices;

    open spec fn spec_indices(&self) -> M::Indices {
        self.mesh.spec_indices()
    }

    fn indices(&self) -> (r: &M::Indices) {
        self.mesh.indices()
    }
}

impl<M, N> Indices for WithNormals<M, N> where M: Indices {
    type Indices = M::Indices;

    open spec fn spec_indices(&self) -> M::Indices {
        self.mesh.spec_indices()
    }

    fn indices(&self) -> (r: &M::Indices) {
        self.mesh.indices()
    }
}

impl<M, C> Colors for WithColors<M, C> where C: Channel {
    type Color = C::Element;
    type Colors = C;

    open spec fn spec_colors(&self) -> C {
        self.colors
    }

    fn colors(&self) -> (r: &C) {
        &self.colors
    }
}

impl<M, I> Colors for WithIndices<M, I> where M: Colors {
    type Color = M::Color;
    type Colors = M::Colors;

    open spec fn spec_colors(&self) -> M::Colors {
        self.mesh.spec_colors()
    }

    fn colors(&self) -> (r: &M::Colors) {
        self.mesh.colors()
    }
}

impl<M, T, S> Colors for WithTexCoords<M, T, S> where M: Colors {
    type Color = M::Color;
    type Colors = M::Colors;

    open spec fn spec_colors(&self) -> M::Colors {
        self.mesh.spec_colors()
    }

    fn colors(&self) -> (r: &M::Colors) {
        self.mesh.colors()
    }
}

impl<M, N> Colors for WithNormals<M, N> where M: Colors {
    type Color = M::Color;
    type Colors = M::Colors;

    open spec fn spec_colors(&self) -> M::Colors {
        self.mesh.spec_colors()
    }

    fn colors(&self) -> (r: &M::Colors) {
        self.mesh.colors()
    }
}

impl<M, T, S> TexCoords for WithTexCoords<M, T, S> where T: Channel<Element = Point2<S>> {
    type TexCoordScalar = S;
    type TexCoords = T;

    open spec fn spec_tex_coords(&self) -> T {
        self.tex_coords
    }

    fn tex_coords(&self) -> (r: &T) {
        &self.tex_coords
    }
}

impl<M, I> TexCoords for WithIndices<M, I> where M: TexCoords {
    type TexCoordScalar = M::TexCoordScalar;
    type TexCoords = M::TexCoords;

    open spec fn spec_tex_coords(&self) -> M::TexCoords {
        self.mesh.spec_tex_coords()
    }

    fn tex_coords(&self) -> (r: &M::TexCoords) {
        self.mesh.tex_coords()
    }
}

impl<M, C> TexCoords for WithColors<M, C> where M: TexCoords {
    type TexCoordScalar = M::TexCoordScalar;
    type TexCoords = M::TexCoords;

    open spec fn spec_tex_coords(&self) -> M::TexCoords {
        self.mesh.spec_tex_coords()
    }

    fn tex_coords(&self) -> (r: &M::TexCoords) {
        self.mesh.tex_coords()
    }
}

impl<M, N> TexCoords for WithNormals<M, N> where M: TexCoords {
    type TexCoordScalar = M::TexCoordScalar;
    type TexCoords = M::TexCoords;

    open spec fn spec_tex_coords(&self) -> M::TexCoords {
        self.mesh.spec_tex_coords()
    }

    fn tex_coords(&self) -> (r: &M::TexCoords) {
        self.mesh.tex_coords()
    }
}

impl<M, N> Normals for WithNormals<M, N> where M: Points, N: Channel {
    type Normals = N;

    open spec fn spec_normals(&self) -> N {
        self.normals
    }

    fn normals(&self) -> (r: &N) {
        &self.normals
    }
}

impl<M, I> Normals for WithIndices<M, I> where M: Normals {
    type Normals = M::Normals;

    open spec fn spec_normals(&self) -> M::Normals {
        self.mesh.spec_normals()
    }

    fn normals(&self) -> (r: &M::Normals) {
        self.mesh.normals()
    }
}

impl<M, C> Normals for WithColors<M, C> where M: Normals {
    type Normals = M::Normals;

    open spec fn spec_normals(&self) -> M::Normals {
        self.mesh.spec_normals()
    }

    fn normals(&self) -> (r: &M::Normals) {
        self.mesh.normals()
    }
}

impl<M, T, S> Normals for WithTexCoords<M, T, S> where M: Normals {
    type Normals = M::Normals;

    open spec fn spec_normals(&self) -> M::Normals {
        self.mesh.spec_normals()
    }

    fn normals(&self) -> (r: &M::Normals) {
        self.mesh.normals()
    }
}

impl<'a, M> GetVertex for &'a M where M: GetVertex {
    type Vertex = M::Vertex;

    open spec fn spec_vertex(&self, index: usize) -> Option<M::Vertex> {
        (**self).spec_vertex(index)
    }

    fn get_vertex(&self, index: usize) -> (r: Option<M::Vertex>) {
        (**self).get_vertex(index)
    }
}

impl<'a, M> Points for &'a M where M: Points {
    type Point = M::Point;
    type Points = M::Points;

    open spec fn spec_points(&self) -> M::Points {
        (**self).spec_points()
    }

    fn points(&self) -> (r: &M::Points) {
        (**self).points()
    }
}

impl<'a, M> Indices for &'a M where M: Indices {
    type Indices = M::Indices;

    open spec fn spec_indices(&self) -> M::Indices {
        (**self).spec_indices()
    }

    fn indices(&self) -> (r: &M::Indices) {
        (**self).indices()
    }
}

impl<'a, M> Colors for &'a M where M: Colors {
    type Color = M::Color;
    type Colors = M::Colors;

    open spec fn spec_colors(&self) -> M::Colors {
        (**self).spec_colors()
    }

    fn colors(&self) -> (r: &M::Colors) {
        (**self).colors()
    }
}

impl<'a, M> TexCoords for &'a M where M: TexCoords {
    type TexCoordScalar = M::TexCoordScalar;
    type TexCoords = M::TexCoords;

    open spec fn spec_tex_coords(&self) -> M::TexCoords {
        (**self).spec_tex_coords()
    }

    fn tex_coords(&self) -> (r: &M::TexCoords) {
        (**self).tex_coords()
    }
}

impl<'a, M> Normals for &'a M where M: Normals {
    type Normals = M::Normals;

    open spec fn spec_normals(&self) -> M::Normals {
        (**self).spec_normals()
    }

    fn normals(&self) -> (r: &M::Normals) {
        (**self).normals()
    }
}

/// Create a simple base mesh from the given channel of vertex points.
pub fn from_points<P>(points: P) -> (r: MeshPoints<P>)
    where
        P: Channel,
    ensures
        r.points == points,
{
    MeshPoints { points }
}

/// Combine the given mesh with the given channel of indices.
pub fn with_indices<M, I>(mesh: M, indices: I) -> (r: WithIndices<M, I>)
    where
        M: GetVertex,
        I: Channel<Element = usize>,
    ensures
        r.mesh == mesh && r.indices == indices,
{
    WithIndices { mesh, indices }
}

/// Combine the given mesh with the given channel of vertex colors.
///
/// A vertex of the combined mesh exists only where both the mesh and the colors channel have
/// one.
pub fn with_colors<M, C>(mesh: M, colors: C) -> (r: WithColors<M, C>)
    where
        C: Channel,
    ensures
        r.mesh == mesh && r.colors == colors,
{
    WithColors { mesh, colors }
}

/// Combine the given mesh with the given channel of vertex texture coordinates.
pub fn with_tex_coords<M, T, S>(mesh: M, tex_coords: T) -> (r: WithTexCoords<M, T, S>)
    where
        T: Channel<Element = Point2<S>>,
    ensures
        r.mesh == mesh && r.tex_coords == tex_coords,
{
    let _tex_coord_scalar = PhantomData;
    WithTexCoords { mesh, tex_coords, _tex_coord_scalar }
}

/// Combine the given mesh with the given channel of vertex normals.
pub fn with_normals<M, N>(mesh: M, normals: N) -> (r: WithNormals<M, N>)
    where
        M: Points,
        N: Channel,
    ensures
        r.mesh == mesh && r.normals == normals,
{
    WithNormals { mesh, normals }
}

/// An iterator yielding the raw vertices (with combined channels) of a mesh.
///
/// Requires that the mesh implements **GetVertex**.
///
/// Returns `None` when the inner mesh first returns `None` for a call to **GetVertex::get_vertex**.
#[derive(Clone, Debug)]
pub struct RawVertices<M> {
    index: usize,
    mesh: M,
}

/// An iterator yielding vertices in the order specified via the mesh's **Indices** channel.
///
/// Requires that the mesh implements **Indices** and **GetVertex**.
///
/// Every index produced by the mesh's **Indices** channel must name a vertex of the mesh
/// (`indices_in_bounds`).
#[derive(Clone, Debug)]
pub struct Vertices<M> {
    index: usize,
    mesh: M,
}

/// Whether every index of the mesh's index channel names a vertex of the mesh.
pub open spec fn indices_in_bounds<M: Indices + GetVertex>(mesh: M) -> bool {
    forall|k: int|
        0 <= k < mesh.spec_indices().elements().len() ==> (#[trigger] mesh.spec_vertex(
            mesh.spec_indices().elements()[k],
        )) is Some
}

/// The vertices of the mesh in the order of its index channel.
pub open spec fn indexed_vertices<M: Indices + GetVertex>(mesh: M) -> Seq<M::Vertex> {
    mesh.spec_indices().elements().map_values(|i: usize| mesh.spec_vertex(i)->0)
}

/// Produce an iterator yielding all raw (non-index-order) vertices of the mesh.
pub fn raw_vertices<M>(mesh: M) -> (r: RawVertices<M>)
    where
        M: GetVertex,
    ensures
        r.position() == 0 && r.mesh() == mesh,
{
    let index: usize = 0;
    RawVertices { index, mesh }
}

/// Produce an iterator yielding all vertices of the mesh in the order specified via its
/// indices channel.
pub fn vertices<M>(mesh: M) -> (r: Vertices<M>)
    where
        M: Indices + GetVertex,
    ensures
        r.position() == 0 && r.mesh() == mesh,
{
    let index: usize = 0;
    Vertices { index, mesh }
}

/// Produce an iterator yielding a triangle for every three vertices yielded in the order
/// specified via the mesh's index channel.
pub fn triangles<M>(mesh: M) -> (r: IterFromVertices<M::Vertex>)
    where
        M: Indices + GetVertex,
        M::Vertex: Copy,
    requires
        indices_in_bounds(mesh),
    ensures
        r.remaining() == group_into_tris(indexed_vertices(mesh)),
{
    let mut vs = vertices(mesh);
    let mut out: Vec<M::Vertex> = Vec::new();
    let n = vs.len();
    let mut k: usize = 0;
    while k < n
        invariant
            vs.mesh() == mesh,
            indices_in_bounds(mesh),
            n == mesh.spec_indices().elements().len(),
            k <= n,
            vs.position() == k,
            out@ =~= indexed_vertices(mesh).subrange(0, k as int),
        decreases n - k,
    {
        let v = vs.next();
        match v {
            Some(v) => out.push(v),
            None => {},
        }
        k = k + 1;
    }
    assert(out@ =~= indexed_vertices(mesh));
    iter_from_vertices(out)
}

impl<M> RawVertices<M> {
    /// The index of the next vertex.
    pub closed spec fn position(self) -> usize {
        self.index
    }

    /// The mesh whose vertices are yielded.
    pub closed spec fn mesh(self) -> M {
        self.mesh
    }
}

impl<M: GetVertex> RawVertices<M> {
    /// Yield the vertex at the next index, stopping at the first index without one.
    pub fn next(&mut self) -> (r: Option<M::Vertex>)
        requires
            old(self).position() < usize::MAX,
        ensures
            final(self).mesh() == old(self).mesh(),
            r == old(self).mesh().spec_vertex(old(self).position()),
            r is Some ==> final(self).position() == old(self).position() + 1,
            r is None ==> final(self).position() == old(self).position(),
    {
        if let Some(vertex) = self.mesh.get_vertex(self.index) {
            self.index = self.index + 1;
            return Some(vertex);
        }
        None
    }
}

impl<M> Vertices<M> {
    /// The number of vertices yielded so far, from either end.
    pub closed spec fn position(self) -> usize {
        self.index
    }

    /// The mesh whose vertices are yielded.
    pub closed spec fn mesh(self) -> M {
        self.mesh
    }
}

impl<M: Indices + GetVertex> Vertices<M> {
    /// Yield the vertex named by the next index from the front.
    pub fn next(&mut self) -> (r: Option<M::Vertex>)
        requires
            indices_in_bounds(old(self).mesh()),
        ensures
            final(self).mesh() == old(self).mesh(),
            ({
                let idx = old(self).mesh().spec_indices().elements();
                let k = old(self).position();
                &&& k < idx.len() ==> r == old(self).mesh().spec_vertex(idx[k as int])
                    && final(self).position() == k + 1
                &&& k >= idx.len() ==> r is None && final(self).position() == k
            }),
    {
        let indices = self.mesh.indices().channel();
        if self.index < indices.len() {
            let index = indices[self.index];
            self.index = self.index + 1;
            let vertex = self.mesh.get_vertex(index);
            return vertex;
        }
        None
    }

    /// Yield the vertex named by the index that lies as far from the back as the number of
    /// vertices yielded so far.
    pub fn next_back(&mut self) -> (r: Option<M::Vertex>)
        requires
            indices_in_bounds(old(self).mesh()),
            old(self).position() < old(self).mesh().spec_indices().elements().len(),
        ensures
            final(self).mesh() == old(self).mesh(),
            ({
                let idx = old(self).mesh().spec_indices().elements();
                let k = old(self).position();
                &&& r == old(self).mesh().spec_vertex(idx[idx.len() - 1 - k])
                &&& r is Some
                &&& final(self).position() == k + 1
            }),
    {
        let indices = self.mesh.indices().channel();
        let n = indices.len();
        let next_index = self.index + 1;
        let index = indices[n - next_index];
        self.index = next_index;
        self.mesh.get_vertex(index)
    }

    /// The number of indices not yet reached from the front.
    pub fn len(&self) -> (r: usize)
        requires
            self.position() <= self.mesh().spec_indices().elements().len(),
        ensures
            r == self.mesh().spec_indices().elements().len() - self.position(),
    {
        self.mesh.indices().channel().len() - self.index
    }
}

} // verus!
