//! The traits shared by the entity arenas and their index types, and the two
//! computation traits left to callers.

use vstd::prelude::*;

use crate::point::Point;
use crate::UNSET_VALUE;

verus! {

/// A type with a reserved element meaning "unset / none".
pub trait UnsetValue: Sized {
    /// The reserved element.
    spec fn spec_unset() -> Self;

    /// Whether this value is the reserved element.
    spec fn spec_is_unset(&self) -> bool;

    fn unset() -> (r: Self)
        ensures
            r == Self::spec_unset(),
            r.spec_is_unset(),
    ;

    fn is_unset(&self) -> (r: bool)
        ensures
            r == self.spec_is_unset(),
    ;
}

/// Dense, insertion-ordered storage of one entity kind, addressed by a typed
/// 32-bit index.  Appending returns the new entity's index, which is the
/// arena's length before the append.
pub trait MeshPartCollection<T, I>: Sized {
    /// The stored entities, in index order.
    spec fn model(&self) -> Seq<T>;

    /// The typed index that addresses arena position `n`.
    spec fn index_at(n: int) -> I;

    fn new() -> (c: Self)
        ensures
            c.model() == Seq::<T>::empty(),
    ;

    fn len(&self) -> (n: usize)
        ensures
            n == self.model().len(),
    ;

    fn add(&mut self, element: T) -> (i: I)
        requires
            old(self).model().len() < UNSET_VALUE,
        ensures
            final(self).model() == old(self).model().push(element),
            i == Self::index_at(old(self).model().len() as int),
    ;
}

/// Face-centroid computation, a stub left to callers.
pub trait FaceCenter {
    fn compute(&self) -> Point;
}

/// Dual-mesh computation, a stub left to callers.
pub trait Dual: Sized {
    fn compute(&self) -> Self;
}

} // verus!
