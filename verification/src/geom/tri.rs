//! Triangles: construction from vertices or index triples, their vertex iterators, and the
//! iterators that group vertices into triangles or flatten triangles into vertices.
use crate::geom::vector::{in_scalar_range, Scalar, Vector2};
use vstd::prelude::*;

verus! {

/// The number of vertices in a triangle.
pub const NUM_VERTICES: u8 = 3;

/// A geometrical triangle represented by its three vertices.
#[derive(Copy, Clone, Debug, PartialEq, Eq, Hash)]
pub struct Tri<V>(pub [V; 3]);

/// An iterator yielding each of the vertices of the triangle.
#[derive(Debug)]
pub struct Vertices<V> {
    tri: Tri<V>,
    index: u8,
}

/// An iterator yielding triangles whose vertices are produced by the given iterator yielding
/// vertices.
#[derive(Debug)]
pub struct IterFromVertices<V> {
    vertices: Vec<V>,
    index: usize,
}

/// An iterator that flattens an iterator yielding triangles into its vertices.
#[derive(Debug)]
pub struct VerticesFromIter<V> {
    tris: Vec<Tri<V>>,
    next_tri: usize,
    tri: Option<Vertices<V>>,
}

/// Converts an iterator yielding `[usize; 3]` into an iterator yielding `usize`s.
#[derive(Debug)]
pub struct FlattenIndices {
    indices: Vec<[usize; 3]>,
    next_tri: usize,
    b: Option<usize>,
    c: Option<usize>,
}

impl<V: Clone> Clone for Vertices<V> {
    fn clone(&self) -> (r: Self) {
        proof {
            use_type_invariant(self);
        }
        Vertices { tri: self.tri.clone(), index: self.index }
    }
}

impl<V: Clone> Clone for IterFromVertices<V> {
    fn clone(&self) -> (r: Self) {
        proof {
            use_type_invariant(self);
        }
        IterFromVertices { vertices: self.vertices.clone(), index: self.index }
    }
}

impl<V: Clone> Clone for VerticesFromIter<V> {
    fn clone(&self) -> (r: Self) {
        proof {
            use_type_invariant(self);
        }
        let tri = match &self.tri {
            Some(vs) => Some(vs.clone()),
            None => None,
        };
        VerticesFromIter { tris: self.tris.clone(), next_tri: self.next_tri, tri }
    }
}

impl Clone for FlattenIndices {
    fn clone(&self) -> (r: Self) {
        proof {
            use_type_invariant(self);
        }
        FlattenIndices { indices: self.indices.clone(), next_tri: self.next_tri, b: self.b, c: self.c }
    }
}

/// The vertices of the triangles of `tris`, in order.
pub open spec fn flatten_tri_vertices<V>(tris: Seq<Tri<V>>) -> Seq<V>
    decreases tris.len(),
{
    if tris.len() == 0 {
        Seq::empty()
    } else {
        tris[0].0@ + flatten_tri_vertices(tris.drop_first())
    }
}

/// The indices of the index triangles of `tris`, in order.
pub open spec fn flatten_index_seq(tris: Seq<[usize; 3]>) -> Seq<usize>
    decreases tris.len(),
{
    if tris.len() == 0 {
        Seq::empty()
    } else {
        tris[0]@ + flatten_index_seq(tris.drop_first())
    }
}

/// The triangles formed by consecutive groups of three vertices; a trailing group of fewer than
/// three vertices forms none.
pub open spec fn group_into_tris<V>(vs: Seq<V>) -> Seq<Tri<V>> {
    Seq::new(vs.len() / 3, |j: int| Tri([vs[3 * j], vs[3 * j + 1], vs[3 * j + 2]]))
}

/// The optional value as a sequence of zero or one items.
pub open spec fn opt_seq<T>(o: Option<T>) -> Seq<T> {
    match o {
        Some(v) => seq![v],
        None => Seq::empty(),
    }
}

impl<V> Vertices<V> {
    /// The position of the next vertex lies within the triangle.
    #[verifier::type_invariant]
    pub closed spec fn wf(self) -> bool {
        self.index <= 3
    }

    /// The vertices not yet yielded.
    pub closed spec fn remaining(self) -> Seq<V> {
        self.tri.0@.subrange(self.index as int, 3)
    }
}

impl<V: Copy> Vertices<V> {

    /// Yield the next vertex of the triangle.
    pub fn next(&mut self) -> (r: Option<V>)
        ensures
            old(self).remaining().len() == 0 ==> r is None && final(self).remaining()
                == old(self).remaining(),
            old(self).remaining().len() > 0 ==> r == Some(old(self).remaining()[0])
                && final(self).remaining() == old(self).remaining().drop_first(),
    {
        proof {
            use_type_invariant(&*self);
        }
        if self.index < NUM_VERTICES {
            let v = self.tri.0[self.index as usize];
            self.index = self.index + 1;
            Some(v)
        } else {
            None
        }
    }

    /// The number of vertices not yet yielded.
    pub fn len(&self) -> (r: usize)
        ensures
            r == self.remaining().len(),
    {
        proof {
            use_type_invariant(self);
        }
        3 - self.index as usize
    }
}

impl<V: Copy> Tri<V> {
    /// Create a **Tri** by indexing into the given buffer.
    pub fn from_index_tri(vertices: &[V], indices: &[usize; 3]) -> (r: Self)
        requires
            forall|k: int| 0 <= k < 3 ==> indices[k] < vertices@.len(),
        ensures
            forall|k: int| 0 <= k < 3 ==> r.0[k] == vertices@[indices[k] as int],
    {
        from_index_tri(vertices, indices)
    }

    /// Create a **Tri** from the first three vertices yielded by the given `vertices`.
    ///
    /// Returns `None` if there were less than 3 vertices in the given iterator.
    pub fn from_vertices(vertices: &[V]) -> (r: Option<Self>)
        ensures
            vertices@.len() < 3 <==> r is None,
            r matches Some(t) ==> t.0@ == vertices@.subrange(0, 3),
    {
        from_vertices(vertices)
    }

    /// Produce an iterator yielding each of the vertices of the triangle.
    pub fn vertices(self) -> (r: Vertices<V>)
        ensures
            r.remaining() == self.0@,
    {
        let r = Vertices { tri: self, index: 0 };
        assert(r.remaining() =~= self.0@);
        r
    }

    /// Maps the underlying vertices to a new type and returns the resulting `Tri`.
    pub fn map_vertices<F, V2>(self, map: F) -> (r: Tri<V2>)
        where
            F: Fn(V) -> V2,
        requires
            forall|k: int| 0 <= k < 3 ==> call_requires(map, (self.0[k],)),
        ensures
            forall|k: int| 0 <= k < 3 ==> call_ensures(map, (self.0[k],), r.0[k]),
    {
        let a = map(self.0[0]);
        let b = map(self.0[1]);
        let c = map(self.0[2]);
        Tri([a, b, c])
    }
}

/// The signed area measure used to tell on which side of the line `bc` the point `a` lies.
pub open spec fn spec_sign(a: Vector2<Scalar>, b: Vector2<Scalar>, c: Vector2<Scalar>) -> int {
    (a.x - c.x) * (b.y - c.y) - (b.x - c.x) * (a.y - c.y)
}

/// Whether every step of `spec_sign(a, b, c)` fits the scalar type.
pub open spec fn sign_fits(a: Vector2<Scalar>, b: Vector2<Scalar>, c: Vector2<Scalar>) -> bool {
    &&& in_scalar_range(a.x - c.x)
    &&& in_scalar_range(b.y - c.y)
    &&& in_scalar_range(b.x - c.x)
    &&& in_scalar_range(a.y - c.y)
    &&& in_scalar_range((a.x - c.x) * (b.y - c.y))
    &&& in_scalar_range((b.x - c.x) * (a.y - c.y))
    &&& in_scalar_range(spec_sign(a, b, c))
}

/// Whether every step of the containment test of `v` in `t` fits the scalar type.
pub open spec fn contains_fits(t: Tri<Vector2<Scalar>>, v: Vector2<Scalar>) -> bool {
    &&& sign_fits(v, t.0[0], t.0[1])
    &&& sign_fits(v, t.0[1], t.0[2])
    &&& sign_fits(v, t.0[2], t.0[0])
}

/// `v` lies on the same side of all three edges of `t`.
pub open spec fn spec_contains(t: Tri<Vector2<Scalar>>, v: Vector2<Scalar>) -> bool {
    let b1 = spec_sign(v, t.0[0], t.0[1]) < 0;
    let b2 = spec_sign(v, t.0[1], t.0[2]) < 0;
    let b3 = spec_sign(v, t.0[2], t.0[0]) < 0;
    b1 == b2 && b2 == b3
}

fn sign(a: Vector2<Scalar>, b: Vector2<Scalar>, c: Vector2<Scalar>) -> (r: Scalar)
    requires
        sign_fits(a, b, c),
    ensures
        r == spec_sign(a, b, c),
{
    let ac_x = a.x - c.x;
    let bc_y = b.y - c.y;
    let bc_x = b.x - c.x;
    let ac_y = a.y - c.y;
    let p = ac_x * bc_y;
    let q = bc_x * ac_y;
    p - q
}

impl Tri<Vector2<Scalar>> {
    /// Returns `true` if the given 2D vertex is contained within the 2D `Tri`.
    pub fn contains(&self, v: &Vector2<Scalar>) -> (r: bool)
        requires
            contains_fits(*self, *v),
        ensures
            r == spec_contains(*self, *v),
    {
        let b1 = sign(*v, self.0[0], self.0[1]) < 0;
        let b2 = sign(*v, self.0[1], self.0[2]) < 0;
        let b3 = sign(*v, self.0[2], self.0[0]) < 0;
        (b1 == b2) && (b2 == b3)
    }
}

/// Whether a point lies inside a triangle does not depend on the vertex the triangle starts from.
pub proof fn lemma_contains_rotation_invariant(t: Tri<Vector2<Scalar>>, v: Vector2<Scalar>)
    ensures
        spec_contains(t, v) == spec_contains(Tri([t.0[1], t.0[2], t.0[0]]), v),
{
}

/// Reversing the last two points of a turn reverses its direction: `spec_sign` changes sign.
pub proof fn lemma_sign_swap(p: Vector2<Scalar>, q: Vector2<Scalar>, r: Vector2<Scalar>)
    ensures
        spec_sign(p, q, r) == -spec_sign(p, r, q),
{
    assert((p.x - r.x) * (q.y - r.y) - (q.x - r.x) * (p.y - r.y) == -((p.x - q.x) * (r.y - q.y) - (
    r.x - q.x) * (p.y - q.y))) by (nonlinear_arith);
}

/// Whether `v` lies off the three lines through the sides of the triangle.
pub open spec fn off_the_sides(t: Tri<Vector2<Scalar>>, v: Vector2<Scalar>) -> bool {
    &&& spec_sign(v, t.0[0], t.0[1]) != 0
    &&& spec_sign(v, t.0[1], t.0[2]) != 0
    &&& spec_sign(v, t.0[2], t.0[0]) != 0
}

/// Containment does not depend on which way round a triangle is given, for points off the lines
/// through its sides: a point lies in the triangle `abc` exactly when it lies in `acb`. A point off
/// those lines lies in the triangle exactly when it is on the same side of each of its three sides,
/// whichever side that is: strictly inside a clockwise or a counter-clockwise triangle.
pub proof fn lemma_contains_either_orientation(a: Vector2<Scalar>, b: Vector2<Scalar>, c: Vector2<Scalar>, v: Vector2<Scalar>)
    requires
        off_the_sides(Tri([a, b, c]), v),
    ensures
        off_the_sides(Tri([a, c, b]), v),
        spec_contains(Tri([a, b, c]), v) == spec_contains(Tri([a, c, b]), v),
        spec_contains(Tri([a, b, c]), v) <==> (
            (spec_sign(v, a, b) > 0 && spec_sign(v, b, c) > 0 && spec_sign(v, c, a) > 0)
            || (spec_sign(v, a, b) < 0 && spec_sign(v, b, c) < 0 && spec_sign(v, c, a) < 0)),
{
    lemma_sign_swap(v, a, c);
    lemma_sign_swap(v, c, b);
    lemma_sign_swap(v, b, a);
}

/// A point strictly inside a triangle, on the same strict side of each of its sides whichever side
/// that is, lies in the triangle, whichever way round the triangle is given.
pub proof fn lemma_strictly_inside_contained(a: Vector2<Scalar>, b: Vector2<Scalar>, c: Vector2<Scalar>, v: Vector2<Scalar>)
    requires
        (spec_sign(v, a, b) > 0 && spec_sign(v, b, c) > 0 && spec_sign(v, c, a) > 0) || (spec_sign(
            v,
            a,
            b,
        ) < 0 && spec_sign(v, b, c) < 0 && spec_sign(v, c, a) < 0),
    ensures
        spec_contains(Tri([a, b, c]), v),
        spec_contains(Tri([a, c, b]), v),
{
    lemma_contains_either_orientation(a, b, c, v);
}

/// Returns the first `Tri` that contains the given vertex.
///
/// If no `Tri`s contain the given vertex, returns `None`.
pub fn iter_contains(tris: &[Tri<Vector2<Scalar>>], v: &Vector2<Scalar>) -> (r: Option<
    Tri<Vector2<Scalar>>,
>)
    requires
        forall|i: int| 0 <= i < tris@.len() ==> contains_fits(#[trigger] tris@[i], *v),
    ensures
        r is None <==> forall|i: int| 0 <= i < tris@.len() ==> !spec_contains(#[trigger] tris@[i], *v),
        r matches Some(t) ==> exists|i: int|
            0 <= i < tris@.len() && #[trigger] tris@[i] == t && spec_contains(t, *v)
                && forall|j: int| 0 <= j < i ==> !spec_contains(#[trigger] tris@[j], *v),
{
    let mut i: usize = 0;
    while i < tris.len()
        invariant
            i <= tris@.len(),
            forall|k: int| 0 <= k < tris@.len() ==> contains_fits(#[trigger] tris@[k], *v),
            forall|j: int| 0 <= j < i ==> !spec_contains(#[trigger] tris@[j], *v),
        decreases tris@.len() - i,
    {
        if tris[i].contains(v) {
            assert(tris@[i as int] == tris[i as int]);
            return Some(tris[i]);
        }
        i = i + 1;
    }
    None
}

/// Create a **Tri** from the first three vertices yielded by the given `vertices`.
///
/// Returns `None` if there were less than 3 vertices in the given iterator.
pub fn from_vertices<V: Copy>(vertices: &[V]) -> (r: Option<Tri<V>>)
    ensures
        vertices@.len() < 3 <==> r is None,
        r matches Some(t) ==> t.0@ == vertices@.subrange(0, 3),
{
    if vertices.len() >= 3 {
        let t = Tri([vertices[0], vertices[1], vertices[2]]);
        assert(t.0@ =~= vertices@.subrange(0, 3));
        Some(t)
    } else {
        None
    }
}

/// Produce an iterator yielding a triangle for every three vertices yielded by the given
/// `vertices`.
pub fn iter_from_vertices<V: Copy>(vertices: Vec<V>) -> (r: IterFromVertices<V>)
    ensures
        r.remaining() == group_into_tris(vertices@),
{
    let r = IterFromVertices { vertices, index: 0 };
    assert(r.vertices@.subrange(0, r.vertices@.len() as int) =~= r.vertices@);
    r
}

impl<V> IterFromVertices<V> {
    /// The position of the next vertex lies within the vertex buffer.
    #[verifier::type_invariant]
    pub closed spec fn wf(self) -> bool {
        self.index <= self.vertices@.len()
    }

    /// The triangles not yet yielded.
    pub closed spec fn remaining(self) -> Seq<Tri<V>> {
        group_into_tris(self.vertices@.subrange(self.index as int, self.vertices@.len() as int))
    }
}

impl<V: Copy> IterFromVertices<V> {

    /// Yield the triangle formed by the next three vertices.
    pub fn next(&mut self) -> (r: Option<Tri<V>>)
        ensures
            old(self).remaining().len() == 0 ==> r is None && final(self).remaining().len() == 0,
            old(self).remaining().len() > 0 ==> r == Some(old(self).remaining()[0])
                && final(self).remaining() == old(self).remaining().drop_first(),
    {
        proof {
            use_type_invariant(&*self);
        }
        let n = self.vertices.len();
        if n - self.index >= 3 {
            let i = self.index;
            let t = Tri([self.vertices[i], self.vertices[i + 1], self.vertices[i + 2]]);
            proof {
                let old_rest = self.vertices@.subrange(i as int, n as int);
                let new_rest = self.vertices@.subrange(i + 3, n as int);
                assert(group_into_tris(new_rest) =~= group_into_tris(old_rest).drop_first());
                assert(t == group_into_tris(old_rest)[0]);
            }
            self.index = i + 3;
            Some(t)
        } else {
            self.index = n;
            proof {
                assert(group_into_tris(self.vertices@.subrange(n as int, n as int)).len() == 0);
            }
            None
        }
    }
}

/// Produce an iterator that flattens the given iterator yielding triangles into its vertices.
pub fn vertices_from_iter<V: Copy>(tris: Vec<Tri<V>>) -> (r: VerticesFromIter<V>)
    ensures
        r.remaining() == flatten_tri_vertices(tris@),
{
    let r = VerticesFromIter { tris, next_tri: 0, tri: None };
    assert(r.tris@.subrange(0, r.tris@.len() as int) =~= r.tris@);
    assert(opt_vertices_seq(r.tri) =~= Seq::<V>::empty());
    assert(r.remaining() =~= flatten_tri_vertices(r.tris@));
    r
}

/// The vertices not yet yielded by an optional triangle vertex iterator.
pub open spec fn opt_vertices_seq<V>(o: Option<Vertices<V>>) -> Seq<V> {
    match o {
        Some(vs) => vs.remaining(),
        None => Seq::empty(),
    }
}

impl<V> VerticesFromIter<V> {
    /// The position of the next triangle lies within the triangle buffer.
    #[verifier::type_invariant]
    pub closed spec fn wf(self) -> bool {
        self.next_tri <= self.tris@.len()
    }

    /// The vertices not yet yielded.
    pub closed spec fn remaining(self) -> Seq<V> {
        opt_vertices_seq(self.tri) + flatten_tri_vertices(
            self.tris@.subrange(self.next_tri as int, self.tris@.len() as int),
        )
    }
}

impl<V: Copy> VerticesFromIter<V> {

    /// Yield the next vertex.
    pub fn next(&mut self) -> (r: Option<V>)
        ensures
            old(self).remaining().len() == 0 ==> r is None && final(self).remaining().len() == 0,
            old(self).remaining().len() > 0 ==> r == Some(old(self).remaining()[0])
                && final(self).remaining() == old(self).remaining().drop_first(),
    {
        proof {
            use_type_invariant(&*self);
        }
        let ghost old_rem = self.remaining();
        let mut current: Option<Vertices<V>> = None;
        std::mem::swap(&mut current, &mut self.tri);
        match current {
            Some(mut vs) => {
                let ghost vs_rem = vs.remaining();
                let n = vs.len();
                if n > 0 {
                    let v = vs.next();
                    self.tri = Some(vs);
                    proof {
                        assert(old_rem == vs_rem + flatten_tri_vertices(
                            self.tris@.subrange(self.next_tri as int, self.tris@.len() as int),
                        ));
                        assert(self.remaining() =~= old_rem.drop_first());
                    }
                    return v;
                }
                assert(old_rem =~= flatten_tri_vertices(
                    self.tris@.subrange(self.next_tri as int, self.tris@.len() as int),
                ));
            },
            None => {
                assert(old_rem =~= flatten_tri_vertices(
                    self.tris@.subrange(self.next_tri as int, self.tris@.len() as int),
                ));
            },
        }
        if self.next_tri < self.tris.len() {
            let k = self.next_tri;
            let t = self.tris[k];
            let mut vs = t.vertices();
            let v = vs.next();
            proof {
                let rest = self.tris@.subrange(k as int, self.tris@.len() as int);
                assert(rest.drop_first() =~= self.tris@.subrange(k + 1, self.tris@.len() as int));
                assert(rest[0] == t);
                assert(old_rem == t.0@ + flatten_tri_vertices(rest.drop_first()));
            }
            self.next_tri = k + 1;
            self.tri = Some(vs);
            proof {
                assert(self.remaining() =~= old_rem.drop_first());
            }
            v
        } else {
            proof {
                assert(self.tris@.subrange(self.next_tri as int, self.tris@.len() as int).len()
                    == 0);
                assert(self.remaining() =~= Seq::<V>::empty());
            }
            None
        }
    }
}

/// Given an iterator yielding trios of indices, produce an iterator that yields each index one
/// at a time.
pub fn flatten_index_tris(index_tris: Vec<[usize; 3]>) -> (r: FlattenIndices)
    ensures
        r.remaining() == flatten_index_seq(index_tris@),
{
    let r = FlattenIndices { indices: index_tris, next_tri: 0, b: None, c: None };
    assert(r.indices@.subrange(0, r.indices@.len() as int) =~= r.indices@);
    assert(r.remaining() =~= flatten_index_seq(r.indices@));
    r
}

impl FlattenIndices {
    /// The position of the next triangle lies within the buffer, and a pending second index
    /// always comes with a pending third.
    #[verifier::type_invariant]
    pub closed spec fn wf(self) -> bool {
        &&& self.next_tri <= self.indices@.len()
        &&& self.b is Some ==> self.c is Some
    }

    /// The indices not yet yielded.
    pub closed spec fn remaining(self) -> Seq<usize> {
        opt_seq(self.b) + opt_seq(self.c) + flatten_index_seq(
            self.indices@.subrange(self.next_tri as int, self.indices@.len() as int),
        )
    }

    /// Yield the next index.
    pub fn next(&mut self) -> (r: Option<usize>)
        ensures
            old(self).remaining().len() == 0 ==> r is None && final(self).remaining().len() == 0,
            old(self).remaining().len() > 0 ==> r == Some(old(self).remaining()[0])
                && final(self).remaining() == old(self).remaining().drop_first(),
    {
        proof {
            use_type_invariant(&*self);
        }
        let ghost old_rem = self.remaining();
        let ghost rest = self.indices@.subrange(self.next_tri as int, self.indices@.len() as int);
        if let Some(next) = self.b {
            self.b = None;
            proof {
                assert(self.remaining() =~= old_rem.drop_first());
            }
            return Some(next);
        }
        if let Some(next) = self.c {
            self.c = None;
            proof {
                assert(self.remaining() =~= old_rem.drop_first());
            }
            return Some(next);
        }
        assert(old_rem =~= flatten_index_seq(rest));
        if self.next_tri < self.indices.len() {
            let k = self.next_tri;
            let trio = self.indices[k];
            proof {
                assert(rest.drop_first() =~= self.indices@.subrange(
                    k + 1,
                    self.indices@.len() as int,
                ));
                assert(rest[0] == trio);
            }
            self.next_tri = k + 1;
            self.c = Some(trio[2]);
            self.b = Some(trio[1]);
            proof {
                assert(trio@ =~= seq![trio[0], trio[1], trio[2]]);
                assert(self.remaining() =~= old_rem.drop_first());
            }
            Some(trio[0])
        } else {
            proof {
                assert(rest.len() == 0);
            }
            None
        }
    }

    /// The number of indices not yet yielded.
    pub fn len(&self) -> (r: usize)
        requires
            self.remaining().len() <= usize::MAX,
        ensures
            r == self.remaining().len(),
    {
        proof {
            use_type_invariant(self);
        }
        let mut n: usize = 0;
        if self.b.is_some() {
            n = n + 1;
        }
        if self.c.is_some() {
            n = n + 1;
        }
        let remaining_tris = self.indices.len() - self.next_tri;
        proof {
            lemma_flatten_index_len(
                self.indices@.subrange(self.next_tri as int, self.indices@.len() as int),
            );
        }
        n + remaining_tris * 3
    }
}

/// Flattening index triangles gives three indices per triangle.
pub proof fn lemma_flatten_index_len(tris: Seq<[usize; 3]>)
    ensures
        flatten_index_seq(tris).len() == 3 * tris.len(),
    decreases tris.len(),
{
    if tris.len() > 0 {
        lemma_flatten_index_len(tris.drop_first());
    }
}

/// Create a **Tri** by indexing into the given buffer.
pub fn from_index_tri<V: Copy>(vertices: &[V], indices: &[usize; 3]) -> (r: Tri<V>)
    requires
        forall|k: int| 0 <= k < 3 ==> indices[k] < vertices@.len(),
    ensures
        forall|k: int| 0 <= k < 3 ==> r.0[k] == vertices@[indices[k] as int],
{
    let a = vertices[indices[0]];
    let b = vertices[indices[1]];
    let c = vertices[indices[2]];
    Tri([a, b, c])
}

/// Flattening index triangles and grouping the indices back into triples gives the triangles
/// back.
pub proof fn lemma_flatten_then_group(ts: Seq<[usize; 3]>)
    ensures
        group_into_tris(flatten_index_seq(ts)) == ts.map_values(|t: [usize; 3]| Tri(t)),
    decreases ts.len(),
{
    let f = flatten_index_seq(ts);
    lemma_flatten_index_len(ts);
    if ts.len() == 0 {
        assert(group_into_tris(f) =~= ts.map_values(|t: [usize; 3]| Tri(t)));
    } else {
        let rest = ts.drop_first();
        let r = flatten_index_seq(rest);
        lemma_flatten_index_len(rest);
        lemma_flatten_then_group(rest);
        assert(f == ts[0]@ + r);
        let g = group_into_tris(f);
        let want = ts.map_values(|t: [usize; 3]| Tri(t));
        assert forall|j: int| 0 <= j < g.len() implies g[j] == want[j] by {
            if j == 0 {
                assert([f[0], f[1], f[2]] =~= ts[0]);
            } else {
                assert(f[3 * j] == r[3 * (j - 1)]);
                assert(f[3 * j + 1] == r[3 * (j - 1) + 1]);
                assert(f[3 * j + 2] == r[3 * (j - 1) + 2]);
                assert(group_into_tris(r)[j - 1] == Tri(rest[j - 1]));
            }
        }
        assert(g =~= want);
    }
}

} // verus!
