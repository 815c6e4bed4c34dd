//! Producing vertices from a buffer and a sequence of indices into it.
use vstd::prelude::*;

verus! {

/// An iterator yielding a vertex for each index yielded by the given indices iterator.
#[derive(Debug)]
pub struct IterFromIndices<'a, V> {
    indices: Vec<usize>,
    front: usize,
    back: usize,
    vertices: &'a [V],
}

/// The vertices named by `indices`, in order.
pub open spec fn vertices_at<V>(indices: Seq<usize>, vertices: Seq<V>) -> Seq<V> {
    indices.map_values(|i: usize| vertices[i as int])
}

/// Produce an iterator that yields a vertex for each index yielded by the given indices
/// iterator.
pub fn iter_from_indices<'a, V>(indices: Vec<usize>, vertices: &'a [V]) -> (r: IterFromIndices<
    'a,
    V,
>)
    requires
        forall|k: int| 0 <= k < indices@.len() ==> indices@[k] < vertices@.len(),
    ensures
        r.remaining() == vertices_at(indices@, vertices@),
{
    let back = indices.len();
    let r = IterFromIndices { indices, front: 0, back, vertices };
    assert(r.indices@.subrange(0, back as int) =~= r.indices@);
    r
}

impl<'a, V> Clone for IterFromIndices<'a, V> {
    fn clone(&self) -> (r: Self) {
        proof {
            use_type_invariant(self);
        }
        let indices = self.indices.clone();
        assert(indices@ =~= self.indices@);
        IterFromIndices { indices, front: self.front, back: self.back, vertices: self.vertices }
    }
}

impl<'a, V> IterFromIndices<'a, V> {
    /// The remaining window lies within the indices, and every index names a vertex.
    #[verifier::type_invariant]
    pub closed spec fn wf(self) -> bool {
        &&& self.front <= self.back <= self.indices@.len()
        &&& forall|k: int| 0 <= k < self.indices@.len() ==> self.indices@[k] < self.vertices@.len()
    }

    /// The vertices not yet yielded from either end.
    pub closed spec fn remaining(self) -> Seq<V> {
        vertices_at(self.indices@.subrange(self.front as int, self.back as int), self.vertices@)
    }

    /// Yield the vertex for the next index from the front.
    pub fn next(&mut self) -> (r: Option<&'a V>)
        ensures
            old(self).remaining().len() == 0 ==> r is None && final(self).remaining().len() == 0,
            old(self).remaining().len() > 0 ==> r == Some(&old(self).remaining()[0])
                && final(self).remaining() == old(self).remaining().drop_first(),
    {
        proof {
            use_type_invariant(&*self);
        }
        if self.front < self.back {
            let i = self.indices[self.front];
            let ghost old_window = self.indices@.subrange(self.front as int, self.back as int);
            self.front = self.front + 1;
            proof {
                assert(self.indices@.subrange(self.front as int, self.back as int)
                    =~= old_window.drop_first());
                assert(vertices_at(old_window.drop_first(), self.vertices@) =~= vertices_at(
                    old_window,
                    self.vertices@,
                ).drop_first());
            }
            Some(&self.vertices[i])
        } else {
            None
        }
    }

    /// Yield the vertex for the next index from the back.
    pub fn next_back(&mut self) -> (r: Option<&'a V>)
        ensures
            old(self).remaining().len() == 0 ==> r is None && final(self).remaining().len() == 0,
            old(self).remaining().len() > 0 ==> r == Some(&old(self).remaining().last())
                && final(self).remaining() == old(self).remaining().drop_last(),
    {
        proof {
            use_type_invariant(&*self);
        }
        if self.front < self.back {
            let i = self.indices[self.back - 1];
            let ghost old_window = self.indices@.subrange(self.front as int, self.back as int);
            self.back = self.back - 1;
            proof {
                assert(self.indices@.subrange(self.front as int, self.back as int)
                    =~= old_window.drop_last());
                assert(vertices_at(old_window.drop_last(), self.vertices@) =~= vertices_at(
                    old_window,
                    self.vertices@,
                ).drop_last());
            }
            Some(&self.vertices[i])
        } else {
            None
        }
    }

    /// The number of vertices not yet yielded.
    pub fn len(&self) -> (r: usize)
        ensures
            r == self.remaining().len(),
    {
        proof {
            use_type_invariant(self);
        }
        self.back - self.front
    }
}

} // verus!
