//! Channels: the buffers of points, indices, colors, texture coordinates or normals that a mesh
//! is built from.
use vstd::prelude::*;

verus! {

/// A channel of mesh data: a buffer that can be borrowed as a slice of its elements.
pub trait Channel {
    /// The type of the elements stored in the channel.
    type Element;

    /// The elements of the channel, in order.
    spec fn elements(&self) -> Seq<Self::Element>;

    /// Borrow the elements of the channel as a slice.
    fn channel(&self) -> (r: &[Self::Element])
        ensures
            r@ == self.elements(),
    ;
}

/// A channel whose elements can be borrowed mutably.
pub trait ChannelMut: Channel {
    /// Borrow the elements of the channel as a mutable slice.
    fn channel_mut(&mut self) -> (r: &mut [Self::Element])
        ensures
            r@ == old(self).elements(),
            final(r)@ == final(self).elements(),
    ;
}

impl<'a, T> Channel for &'a [T] {
    type Element = T;

    open spec fn elements(&self) -> Seq<T> {
        (*self)@
    }

    fn channel(&self) -> (r: &[T]) {
        *self
    }
}

impl<T> Channel for Vec<T> {
    type Element = T;

    open spec fn elements(&self) -> Seq<T> {
        self@
    }

    fn channel(&self) -> (r: &[T]) {
        self.as_slice()
    }
}

impl<T> ChannelMut for Vec<T> {
    fn channel_mut(&mut self) -> (r: &mut [T]) {
        self.as_mut_slice()
    }
}

impl<T, const N: usize> Channel for [T; N] {
    type Element = T;

    open spec fn elements(&self) -> Seq<T> {
        self@
    }

    fn channel(&self) -> (r: &[T]) {
        self.as_slice()
    }
}

} // verus!
