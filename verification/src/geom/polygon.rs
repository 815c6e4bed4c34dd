//! Polygons given as the sequence of points along their sides: their triangle fan and
//! containment.
use crate::geom::tri::{contains_fits, iter_contains, spec_contains, Tri};
use crate::geom::vector::{Scalar, Vector2};
use vstd::prelude::*;

verus! {

/// An iterator that triangulates a polygon represented by a sequence of points describing its
/// edges.
pub struct Triangles<V> {
    points: Vec<V>,
    next: usize,
}

/// The triangle fan of the polygon `ps`: the first point with each pair of consecutive later
/// points.
pub open spec fn fan_tris<V>(ps: Seq<V>) -> Seq<Tri<V>> {
    if ps.len() < 2 {
        Seq::empty()
    } else {
        Seq::new((ps.len() - 2) as nat, |j: int| Tri([ps[0], ps[j + 1], ps[j + 2]]))
    }
}

impl<V: Clone> Clone for Triangles<V> {
    fn clone(&self) -> (r: Self) {
        proof {
            use_type_invariant(self);
        }
        Triangles { points: self.points.clone(), next: self.next }
    }
}

impl<V> Triangles<V> {
    /// The next triangle's last point lies within the points, after the first two.
    #[verifier::type_invariant]
    pub closed spec fn wf(self) -> bool {
        2 <= self.next <= self.points@.len()
    }

    /// The triangles not yet yielded.
    pub closed spec fn remaining(self) -> Seq<Tri<V>> {
        fan_tris(self.points@).subrange(self.next - 2, self.points@.len() - 2)
    }
}

impl<V: Copy> Triangles<V> {
    /// Yield the next triangle of the fan.
    pub fn next(&mut self) -> (r: Option<Tri<V>>)
        ensures
            old(self).remaining().len() == 0 ==> r is None && final(self).remaining().len() == 0,
            old(self).remaining().len() > 0 ==> r == Some(old(self).remaining()[0])
                && final(self).remaining() == old(self).remaining().drop_first(),
    {
        proof {
            use_type_invariant(&*self);
        }
        if self.next < self.points.len() {
            let k = self.next;
            let t = Tri([self.points[0], self.points[k - 1], self.points[k]]);
            self.next = k + 1;
            proof {
                assert(self.remaining() =~= old(self).remaining().drop_first());
            }
            Some(t)
        } else {
            None
        }
    }
}

/// Triangulate the polygon given as a list of `Point`s describing its sides.
///
/// Returns `None` if the given iterator yields less than two points.
pub fn triangles<V: Copy>(points: Vec<V>) -> (r: Option<Triangles<V>>)
    ensures
        points@.len() < 2 <==> r is None,
        r matches Some(ts) ==> ts.wf() && ts.remaining() == fan_tris(points@),
{
    if points.len() < 2 {
        return None;
    }
    let r = Triangles { points, next: 2 };
    assert(r.remaining() =~= fan_tris(r.points@));
    Some(r)
}

/// Returns the first triangle of the polygon's fan that contains the given point, if any.
pub fn contains(points: Vec<Vector2<Scalar>>, point: Vector2<Scalar>) -> (r: Option<
    Tri<Vector2<Scalar>>,
>)
    requires
        forall|i: int|
            0 <= i < fan_tris(points@).len() ==> contains_fits(#[trigger] fan_tris(points@)[i], point),
    ensures
        r is None <==> forall|i: int|
            0 <= i < fan_tris(points@).len() ==> !spec_contains(#[trigger] fan_tris(points@)[i], point),
        r matches Some(t) ==> exists|i: int|
            0 <= i < fan_tris(points@).len() && #[trigger] fan_tris(points@)[i] == t
                && spec_contains(t, point) && forall|j: int|
                0 <= j < i ==> !spec_contains(#[trigger] fan_tris(points@)[j], point),
{
    let ghost fan = fan_tris(points@);
    let mut ts = match triangles(points) {
        Some(ts) => ts,
        None => {
            return None;
        },
    };
    let mut all: Vec<Tri<Vector2<Scalar>>> = Vec::new();
    loop
        invariant_except_break
            fan == all@ + ts.remaining(),
        ensures
            all@ == fan,
        decreases ts.remaining().len(),
    {
        match ts.next() {
            Some(t) => {
                proof {
                    assert(fan =~= all@.push(t) + ts.remaining());
                }
                all.push(t);
            },
            None => {
                assert(all@ =~= fan);
                break;
            },
        }
    }
    iter_contains(&all, &point)
}

} // verus!
