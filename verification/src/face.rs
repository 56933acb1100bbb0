//! Faces and their arena.
//!
//! A face records only its first bounding half-edge; the rest of its boundary
//! is recovered by following `next_edge` links.  A face is "unused" exactly
//! when `first_half_edge` is unset.

use vstd::prelude::*;

use crate::half_edge::HalfEdgeIndex;
use crate::traits::{MeshPartCollection, UnsetValue};
use crate::UNSET_VALUE;

verus! {

/// An opaque 32-bit handle addressing a face arena slot.
#[derive(PartialEq, Eq, Structural, Clone, Copy, Debug)]
pub struct FaceIndex {
    pub index: u32,
}

impl UnsetValue for FaceIndex {
    open spec fn spec_unset() -> FaceIndex {
        FaceIndex { index: UNSET_VALUE }
    }

    open spec fn spec_is_unset(&self) -> bool {
        self.index == UNSET_VALUE
    }

    fn unset() -> (r: FaceIndex) {
        FaceIndex { index: UNSET_VALUE }
    }

    fn is_unset(&self) -> (r: bool) {
        self.index == UNSET_VALUE
    }
}

impl FaceIndex {
    pub fn new(index: u32) -> (r: FaceIndex)
        ensures
            r.index == index,
    {
        FaceIndex { index }
    }

    pub fn increment(&mut self)
        requires
            old(self).index < UNSET_VALUE,
        ensures
            final(self).index == old(self).index + 1,
    {
        self.index = self.index + 1;
    }
}

/// Whether a face slot is a tombstone: no first half-edge.
pub open spec fn face_unused(f: Face) -> bool {
    f.first_half_edge.index == UNSET_VALUE
}

/// A face: the first half-edge of its bounding loop.
#[derive(PartialEq, Eq, Structural, Clone, Copy, Debug)]
pub struct Face {
    pub first_half_edge: HalfEdgeIndex,
}

impl Face {
    /// A face whose bounding loop starts at `first_edge`.
    pub fn new(first_edge: HalfEdgeIndex) -> (r: Face)
        ensures
            r == (Face { first_half_edge: first_edge }),
    {
        Face { first_half_edge: first_edge }
    }

    /// An unused face slot.
    pub fn unset() -> (r: Face)
        ensures
            r.first_half_edge.index == UNSET_VALUE,
            face_unused(r),
    {
        Face { first_half_edge: HalfEdgeIndex { index: UNSET_VALUE } }
    }

    pub fn is_unused(&self) -> (r: bool)
        ensures
            r == face_unused(*self),
    {
        self.first_half_edge.index == UNSET_VALUE
    }
}

/// The face arena.
#[derive(Debug)]
pub struct FaceCollection {
    faces: Vec<Face>,
}

impl View for FaceCollection {
    type V = Seq<Face>;

    closed spec fn view(&self) -> Seq<Face> {
        self.faces@
    }
}

impl MeshPartCollection<Face, FaceIndex> for FaceCollection {
    open spec fn model(&self) -> Seq<Face> {
        self@
    }

    open spec fn index_at(n: int) -> FaceIndex {
        FaceIndex { index: n as u32 }
    }

    fn new() -> (c: Self) {
        FaceCollection { faces: Vec::new() }
    }

    fn len(&self) -> (n: usize) {
        self.faces.len()
    }

    fn add(&mut self, element: Face) -> (i: FaceIndex) {
        self.faces.push(element);
        FaceIndex { index: (self.faces.len() - 1) as u32 }
    }
}

impl FaceCollection {
    /// Read the face at `index`.
    pub fn get(&self, index: FaceIndex) -> (r: &Face)
        requires
            (index.index as int) < self@.len(),
        ensures
            *r == self@[index.index as int],
    {
        &self.faces[index.index as usize]
    }

    /// Overwrite the face at `index`.
    pub fn set(&mut self, index: FaceIndex, f: Face)
        requires
            (index.index as int) < old(self)@.len(),
        ensures
            final(self)@ == old(self)@.update(index.index as int, f),
    {
        self.faces[index.index as usize] = f;
    }

    /// Physically delete the `count` slots starting at `start`; used by
    /// compaction after survivors have been moved to the front.
    pub fn remove_range(&mut self, start: FaceIndex, count: usize)
        requires
            (start.index as int) + count <= old(self)@.len(),
        ensures
            final(self)@ == old(self)@.subrange(0, start.index as int) + old(self)@.subrange(
                start.index as int + count,
                old(self)@.len() as int,
            ),
    {
        let ghost orig = self.faces@;
        let s = start.index as usize;
        let mut removed: usize = 0;
        while removed < count
            invariant
                removed <= count,
                s == start.index as usize,
                (s + count) as int <= orig.len(),
                self.faces@ == orig.subrange(0, s as int) + orig.subrange(
                    s as int + removed,
                    orig.len() as int,
                ),
            decreases count - removed,
        {
            self.faces.remove(s);
            removed = removed + 1;
            proof {
                assert(self.faces@ =~= orig.subrange(0, s as int) + orig.subrange(
                    s as int + removed,
                    orig.len() as int,
                ));
            }
        }
        proof {
            assert(self.faces@ =~= orig.subrange(0, s as int) + orig.subrange(
                s as int + count,
                orig.len() as int,
            ));
        }
    }
}

} // verus!
