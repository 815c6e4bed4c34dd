//! The triangulation of a miter-joined polyline from its sequence of normal vertices.
use vstd::prelude::*;

verus! {

/// An iterator yielding the indices necessary to triangulate a miter polyline from a sequence of
/// normal vertices.
///
/// Every point of the polyline contributes two normal vertices, so a line of `n` points has
/// `2 * n` normal vertices and `2 * n - 2` triangles. Triangle `k` joins the normals `k`, `k + 1`
/// and `k + 2`, with the last two swapped on every second triangle so that all triangles share
/// one winding.
#[derive(Debug)]
pub struct TriangleIndices {
    i: usize,
    n_tris: usize,
    // Every second triangle requires a slightly different vertex order.
    second: bool,
}

impl Clone for TriangleIndices {
    fn clone(&self) -> (r: Self)
        ensures
            r == *self,
    {
        proof {
            use_type_invariant(self);
        }
        TriangleIndices { i: self.i, n_tris: self.n_tris, second: self.second }
    }
}

/// The `k`th triangle of the miter triangulation.
pub open spec fn miter_tri(k: int) -> Seq<int> {
    if k % 2 == 0 {
        seq![k, k + 1, k + 2]
    } else {
        seq![k, k + 2, k + 1]
    }
}

/// The index triple as a sequence of integers.
pub open spec fn trio_seq(t: [usize; 3]) -> Seq<int> {
    seq![t[0] as int, t[1] as int, t[2] as int]
}

impl TriangleIndices {
    /// The next triangle lies within the triangulation, and the alternating order is in step
    /// with the position.
    #[verifier::type_invariant]
    closed spec fn wf(self) -> bool {
        &&& self.i <= self.n_tris
        &&& self.second == (self.i % 2 == 1)
        &&& self.n_tris + 2 <= usize::MAX
    }

    /// The position of the next triangle.
    pub closed spec fn position(self) -> int {
        self.i as int
    }

    /// The number of triangles in the whole triangulation.
    pub closed spec fn n_tris(self) -> int {
        self.n_tris as int
    }

    /// Produce an iterator yielding the indices necessary to triangulate a miter polyline from a
    /// sequence of normal vertices.
    pub fn new(n_points: usize) -> (r: Self)
        requires
            1 <= n_points,
            2 * n_points <= usize::MAX,
        ensures
            r.position() == 0,
            r.n_tris() == 2 * n_points - 2,
    {
        let n_normals = n_points * 2;
        let n_tris = n_normals - 2;
        TriangleIndices { i: 0, n_tris, second: false }
    }

    /// Yield the next triangle's indices.
    pub fn next(&mut self) -> (r: Option<[usize; 3]>)
        ensures
            final(self).position() <= final(self).n_tris(),
            final(self).n_tris() == old(self).n_tris(),
            old(self).position() >= old(self).n_tris() ==> r is None && final(self).position()
                == old(self).position(),
            old(self).position() < old(self).n_tris() ==> (r matches Some(t) && trio_seq(t)
                == miter_tri(old(self).position())) && final(self).position() == old(
                self,
            ).position() + 1,
    {
        proof {
            use_type_invariant(&*self);
        }
        if self.i >= self.n_tris {
            return None;
        }
        let trio = if self.second {
            [self.i, self.i + 2, self.i + 1]
        } else {
            [self.i, self.i + 1, self.i + 2]
        };
        *self = TriangleIndices { i: self.i + 1, n_tris: self.n_tris, second: !self.second };
        Some(trio)
    }

    /// The number of triangles not yet yielded.
    pub fn len(&self) -> (r: usize)
        ensures
            r == self.n_tris() - self.position(),
    {
        proof {
            use_type_invariant(self);
        }
        self.n_tris - self.i
    }
}

/// Every index that the triangulation of `n_points` points yields names one of its
/// `2 * n_points` normal vertices.
pub proof fn lemma_miter_indices_in_bounds(n_points: int, k: int, j: int)
    requires
        1 <= n_points,
        0 <= k < 2 * n_points - 2,
        0 <= j < 3,
    ensures
        0 <= miter_tri(k)[j] < 2 * n_points,
{
}

/// Produce an iterator yielding the indices necessary to triangulate a miter polyline from a
/// sequence of normal vertices.
pub fn triangle_indices(n_points: usize) -> (r: TriangleIndices)
    requires
        1 <= n_points,
        2 * n_points <= usize::MAX,
    ensures
        r.position() == 0,
        r.n_tris() == 2 * n_points - 2,
{
    TriangleIndices::new(n_points)
}

/// What the next pair of normal vertices of a miter line is made of, as decided from the points
/// seen so far and the next point.
#[derive(Copy, Clone, Debug, PartialEq, Eq)]
pub enum PairStep<P> {
    /// No pair: the sequence is exhausted, or held a single point.
    Done,
    /// The first pair: the left and right corners at the start of the line `b -> c`.
    Start { b: P, c: P },
    /// The last pair: the left and right corners at the end of the line `a -> b`.
    End { a: P, b: P },
    /// A joint: where the left and right edges of the line `a -> b` meet those of `b -> c`.
    Join { a: P, b: P, c: P },
}

/// Determine the next vertex pair in the miter sequence given the two previous points and the
/// next if one exists, updating the two previous points.
///
/// This function expects that `point_a` is `None` and `point_b` is `Some` (containing the first
/// point in the sequence) when beginning the sequence.
pub fn next_pair<P: Copy>(
    point_a: &mut Option<P>,
    point_b: &mut Option<P>,
    next_point: Option<P>,
) -> (r: PairStep<P>)
    ensures
        match (*old(point_a), *old(point_b), next_point) {
            (None, Some(b), Some(c)) => r == PairStep::Start { b, c } && *final(point_a) == Some(b)
                && *final(point_b) == Some(c),
            (Some(a), Some(b), Some(c)) => r == PairStep::Join { a, b, c } && *final(point_a)
                == Some(b) && *final(point_b) == Some(c),
            (Some(a), Some(b), None) => r == PairStep::End { a, b } && *final(point_a) == Some(b)
                && *final(point_b) is None,
            _ => r == PairStep::<P>::Done && *final(point_a) is None && *final(point_b) is None,
        },
{
    let a = point_a.take();
    let b = point_b.take();
    match (a, b) {
        (None, Some(b)) => {
            let c = match next_point {
                Some(c) => c,
                None => {
                    return PairStep::Done;
                },
            };
            *point_a = Some(b);
            *point_b = Some(c);
            PairStep::Start { b, c }
        },
        (Some(a), Some(b)) => {
            let c = match next_point {
                Some(c) => c,
                None => {
                    *point_a = Some(b);
                    return PairStep::End { a, b };
                },
            };
            *point_a = Some(b);
            *point_b = Some(c);
            PairStep::Join { a, b, c }
        },
        _ => PairStep::Done,
    }
}

/// The sequence of points of a miter line and the two points most recently taken from it: the
/// state from which each pair of normal vertices is decided.
#[derive(Debug)]
pub struct VertexPairs<P> {
    points: Vec<P>,
    next: usize,
    point_a: Option<P>,
    point_b: Option<P>,
}

impl<P: Clone> Clone for VertexPairs<P> {
    fn clone(&self) -> (r: Self) {
        proof {
            use_type_invariant(self);
        }
        let point_a = match &self.point_a {
            Some(p) => Some(p.clone()),
            None => None,
        };
        let point_b = match &self.point_b {
            Some(p) => Some(p.clone()),
            None => None,
        };
        VertexPairs { points: self.points.clone(), next: self.next, point_a, point_b }
    }
}

impl<P> VertexPairs<P> {
    /// The position of the next point lies within the points, past any point taken.
    #[verifier::type_invariant]
    pub closed spec fn wf(self) -> bool {
        &&& self.next <= self.points@.len()
        &&& self.point_b is Some ==> self.next >= 1
    }

    /// The points not yet taken.
    pub closed spec fn remaining_points(self) -> Seq<P> {
        self.points@.subrange(self.next as int, self.points@.len() as int)
    }

    /// The point taken before `spec_point_b`.
    pub closed spec fn spec_point_a(self) -> Option<P> {
        self.point_a
    }

    /// The point most recently taken.
    pub closed spec fn spec_point_b(self) -> Option<P> {
        self.point_b
    }
}

impl<P: Copy> VertexPairs<P> {
    /// Produces the state for the miter normal vertices of each point in the given points: the
    /// first point is taken.
    pub fn new(points: Vec<P>) -> (r: Self)
        ensures
            r.spec_point_a() is None,
            points@.len() == 0 ==> r.spec_point_b() is None && r.remaining_points().len() == 0,
            points@.len() > 0 ==> r.spec_point_b() == Some(points@[0])
                && r.remaining_points() == points@.drop_first(),
    {
        let (point_b, next) = if points.len() > 0 {
            (Some(points[0]), 1)
        } else {
            (None, 0)
        };
        let r = VertexPairs { points, next, point_a: None, point_b };
        proof {
            if r.points@.len() > 0 {
                assert(r.remaining_points() =~= r.points@.drop_first());
            } else {
                assert(r.remaining_points() =~= Seq::<P>::empty());
            }
        }
        r
    }

    /// Decide the next pair from the two points taken last and the next point, which is taken.
    pub fn next(&mut self) -> (r: PairStep<P>)
        ensures
            ({
                let rest = old(self).remaining_points();
                let next_point = if rest.len() > 0 {
                    Some(rest[0])
                } else {
                    None
                };
                &&& final(self).remaining_points() == (if rest.len() > 0 {
                    rest.drop_first()
                } else {
                    rest
                })
                &&& match (old(self).spec_point_a(), old(self).spec_point_b(), next_point) {
                    (None, Some(b), Some(c)) => r == PairStep::Start { b, c }
                        && final(self).spec_point_a() == Some(b) && final(self).spec_point_b()
                        == Some(c),
                    (Some(a), Some(b), Some(c)) => r == PairStep::Join { a, b, c }
                        && final(self).spec_point_a() == Some(b) && final(self).spec_point_b()
                        == Some(c),
                    (Some(a), Some(b), None) => r == PairStep::End { a, b }
                        && final(self).spec_point_a() == Some(b)
                        && final(self).spec_point_b() is None,
                    _ => r == PairStep::<P>::Done && final(self).spec_point_a() is None
                        && final(self).spec_point_b() is None,
                }
            }),
    {
        proof {
            use_type_invariant(&*self);
        }
        let next_point = if self.next < self.points.len() {
            let p = self.points[self.next];
            self.next = self.next + 1;
            proof {
                assert(self.remaining_points() =~= old(self).remaining_points().drop_first());
            }
            Some(p)
        } else {
            None
        };
        let mut a = self.point_a;
        let mut b = self.point_b;
        let r = next_pair(&mut a, &mut b, next_point);
        self.point_a = a;
        self.point_b = b;
        r
    }

    /// The length this sequence reports: with only the first point taken, the number of points
    /// left (none when at most one is left); with two taken, the number left plus one; else none.
    pub fn len(&self) -> (r: usize)
        ensures
            r == (match (self.spec_point_a(), self.spec_point_b()) {
                (None, Some(_)) => if self.remaining_points().len() <= 1 {
                    0
                } else {
                    self.remaining_points().len()
                },
                (Some(_), Some(_)) => self.remaining_points().len() + 1,
                _ => 0,
            }),
    {
        proof {
            use_type_invariant(self);
        }
        let remaining_points = self.points.len() - self.next;
        match (&self.point_a, &self.point_b) {
            (None, Some(_)) => if remaining_points <= 1 {
                0
            } else {
                remaining_points
            },
            (Some(_), Some(_)) => remaining_points + 1,
            _ => 0,
        }
    }
}

} // verus!
