//! Quads: four vertices, their vertex iterator and their split into two triangles.
use crate::geom::tri::{from_index_tri, Tri};
use vstd::prelude::*;

verus! {

/// The number of vertices in a quad.
pub const NUM_VERTICES: u8 = 4;

/// The number of triangles used to represent a quad.
pub const NUM_TRIANGLES: u8 = 2;

/// The number of indices used to describe each triangle in the quad.
pub const NUM_TRIANGLE_INDICES: u8 = 6;

/// A quad represented by its four vertices.
#[derive(Copy, Clone, Debug, PartialEq, Eq, Hash)]
pub struct Quad<V>(pub [V; 4]);

/// An iterator yielding each vertex in a quad.
#[derive(Debug)]
pub struct Vertices<V> {
    quad: Quad<V>,
    index: u8,
}

/// An iterator yielding the two triangles that make up a quad.
#[derive(Clone, Debug)]
pub struct Triangles<V> {
    a: Option<Tri<V>>,
    b: Option<Tri<V>>,
}

/// The index triangles that split a quad `abcd` into `abc` and `acd`.
pub open spec fn triangle_index_tris() -> Seq<Seq<int>> {
    seq![seq![0int, 1, 2], seq![0int, 2, 3]]
}

/// The triangle of `q` named by the `k`th index triangle.
pub open spec fn spec_quad_tri<V>(q: Quad<V>, k: int) -> Tri<V> {
    let ix = triangle_index_tris()[k];
    Tri([q.0[ix[0]], q.0[ix[1]], q.0[ix[2]]])
}

impl<V: Clone> Clone for Vertices<V> {
    fn clone(&self) -> (r: Self) {
        proof {
            use_type_invariant(self);
        }
        Vertices { quad: self.quad.clone(), index: self.index }
    }
}

impl<V> Vertices<V> {
    /// The position of the next vertex lies within the quad.
    #[verifier::type_invariant]
    pub closed spec fn wf(self) -> bool {
        self.index <= 4
    }

    /// The vertices not yet yielded.
    pub closed spec fn remaining(self) -> Seq<V> {
        self.quad.0@.subrange(self.index as int, 4)
    }
}

impl<V: Copy> Vertices<V> {
    /// Yield the next vertex of the quad.
    pub fn next(&mut self) -> (r: Option<V>)
        ensures
            old(self).remaining().len() == 0 ==> r is None && final(self).remaining()
                == old(self).remaining(),
            old(self).remaining().len() > 0 ==> r == Some(old(self).remaining()[0])
                && final(self).remaining() == old(self).remaining().drop_first(),
    {
        proof {
            use_type_invariant(&*self);
        }
        if self.index < NUM_VERTICES {
            let v = self.quad.0[self.index as usize];
            self.index = self.index + 1;
            Some(v)
        } else {
            None
        }
    }

    /// The number of vertices not yet yielded.
    pub fn len(&self) -> (r: usize)
        ensures
            r == self.remaining().len(),
    {
        proof {
            use_type_invariant(self);
        }
        4 - self.index as usize
    }
}

impl<V: Copy> Quad<V> {
    /// Produce an iterator yielding each vertex in the `Quad`.
    pub fn vertices(self) -> (r: Vertices<V>)
        ensures
            r.remaining() == self.0@,
    {
        vertices(self)
    }

    /// Triangulates the given quad, represented by four points that describe its edges in either
    /// clockwise or anti-clockwise order.
    ///
    /// The quad `abcd` is split into the triangles `abc` and `acd`.
    pub fn triangles(&self) -> (r: (Tri<V>, Tri<V>))
        ensures
            r.0 == spec_quad_tri(*self, 0),
            r.1 == spec_quad_tri(*self, 1),
    {
        triangles(self)
    }

    /// The same as `triangles` but provided as an **Iterator**.
    pub fn triangles_iter(&self) -> (r: Triangles<V>)
        ensures
            r.front() == Some(spec_quad_tri(*self, 0)),
            r.back() == Some(spec_quad_tri(*self, 1)),
    {
        triangles_iter(self)
    }

    /// Maps the underlying vertices to a new type and returns the resulting `Quad`.
    pub fn map_vertices<F, V2>(self, map: F) -> (r: Quad<V2>)
        where
            F: Fn(V) -> V2,
        requires
            forall|k: int| 0 <= k < 4 ==> call_requires(map, (self.0[k],)),
        ensures
            forall|k: int| 0 <= k < 4 ==> call_ensures(map, (self.0[k],), r.0[k]),
    {
        let a = map(self.0[0]);
        let b = map(self.0[1]);
        let c = map(self.0[2]);
        let d = map(self.0[3]);
        Quad([a, b, c, d])
    }
}

/// Produce an iterator yielding each vertex in the given **Quad**.
pub fn vertices<V: Copy>(quad: Quad<V>) -> (r: Vertices<V>)
    ensures
        r.remaining() == quad.0@,
{
    let r = Vertices { quad, index: 0 };
    assert(r.remaining() =~= quad.0@);
    r
}

/// Triangulates the given quad, represented by four points that describe its edges in either
/// clockwise or anti-clockwise order.
///
/// The quad `abcd` is split into the triangles `abc` and `acd`.
pub fn triangles<V: Copy>(q: &Quad<V>) -> (r: (Tri<V>, Tri<V>))
    ensures
        r.0 == spec_quad_tri(*q, 0),
        r.1 == spec_quad_tri(*q, 1),
{
    let first: [usize; 3] = [0, 1, 2];
    let second: [usize; 3] = [0, 2, 3];
    let a = from_index_tri(&q.0, &first);
    let b = from_index_tri(&q.0, &second);
    assert(a.0 =~= spec_quad_tri(*q, 0).0);
    assert(b.0 =~= spec_quad_tri(*q, 1).0);
    (a, b)
}

/// The same as `triangles` but provided as an `Iterator`.
pub fn triangles_iter<V: Copy>(points: &Quad<V>) -> (r: Triangles<V>)
    ensures
        r.front() == Some(spec_quad_tri(*points, 0)),
        r.back() == Some(spec_quad_tri(*points, 1)),
{
    let (a, b) = triangles(points);
    Triangles { a: Some(a), b: Some(b) }
}

impl<V> Triangles<V> {
    /// The first triangle, if it has not been yielded.
    pub closed spec fn front(self) -> Option<Tri<V>> {
        self.a
    }

    /// The second triangle, if it has not been yielded.
    pub closed spec fn back(self) -> Option<Tri<V>> {
        self.b
    }

    /// Yield the first triangle not yet yielded from the front.
    pub fn next(&mut self) -> (r: Option<Tri<V>>)
        ensures
            old(self).front() is Some ==> r == old(self).front() && final(self).front() is None
                && final(self).back() == old(self).back(),
            old(self).front() is None ==> r == old(self).back() && final(self).front() is None
                && final(self).back() is None,
    {
        match self.a.take() {
            Some(t) => Some(t),
            None => self.b.take(),
        }
    }

    /// Yield the last triangle not yet yielded from the back.
    pub fn next_back(&mut self) -> (r: Option<Tri<V>>)
        ensures
            old(self).back() is Some ==> r == old(self).back() && final(self).back() is None
                && final(self).front() == old(self).front(),
            old(self).back() is None ==> r == old(self).front() && final(self).front() is None
                && final(self).back() is None,
    {
        match self.b.take() {
            Some(t) => Some(t),
            None => self.a.take(),
        }
    }

    /// The length reported for the remaining triangles: 2 while both remain, 0 when only the
    /// second remains, and 1 otherwise.
    pub fn len(&self) -> (r: usize)
        ensures
            r == (if self.front() is Some && self.back() is Some {
                2usize
            } else if self.front() is None && self.back() is Some {
                0usize
            } else {
                1usize
            }),
    {
        match (&self.a, &self.b) {
            (Some(_), Some(_)) => 2,
            (None, Some(_)) => 0,
            _ => 1,
        }
    }
}

} // verus!
