//! Vertices and their arena.
//!
//! A vertex is "unused" exactly when its `outgoing_half_edge` is unset; an
//! unused slot is the tombstone left behind by removal until a compaction
//! pass reclaims it.

use vstd::prelude::*;

use crate::half_edge::HalfEdgeIndex;
use crate::point::Point;
use crate::traits::{MeshPartCollection, UnsetValue};
use crate::UNSET_VALUE;

verus! {

/// An opaque 32-bit handle addressing a vertex arena slot.
#[derive(PartialEq, Eq, Structural, Clone, Copy, Debug)]
pub struct VertexIndex {
    pub index: u32,
}

impl UnsetValue for VertexIndex {
    open spec fn spec_unset() -> VertexIndex {
        VertexIndex { index: UNSET_VALUE }
    }

    open spec fn spec_is_unset(&self) -> bool {
        self.index == UNSET_VALUE
    }

    fn unset() -> (r: VertexIndex) {
        VertexIndex { index: UNSET_VALUE }
    }

    fn is_unset(&self) -> (r: bool) {
        self.index == UNSET_VALUE
    }
}

impl VertexIndex {
    pub fn new(index: u32) -> (r: VertexIndex)
        ensures
            r.index == index,
    {
        VertexIndex { index }
    }

    pub fn increment(&mut self)
        requires
            old(self).index < UNSET_VALUE,
        ensures
            final(self).index == old(self).index + 1,
    {
        self.index = self.index + 1;
    }
}

/// Whether a vertex slot is a tombstone: no outgoing half-edge.
pub open spec fn vertex_unused(v: Vertex) -> bool {
    v.outgoing_half_edge.index == UNSET_VALUE
}

/// A vertex: its position and one of its outgoing half-edges.
#[derive(PartialEq, Eq, Structural, Clone, Copy, Debug)]
pub struct Vertex {
    pub outgoing_half_edge: HalfEdgeIndex,
    pub location: Point,
}

impl Vertex {
    /// An unused vertex slot.
    pub fn unset() -> (r: Vertex)
        ensures
            r.outgoing_half_edge.index == UNSET_VALUE,
            vertex_unused(r),
            r.location == (Point {
                x: crate::point::UNSET_COORDINATE,
                y: crate::point::UNSET_COORDINATE,
                z: crate::point::UNSET_COORDINATE,
            }),
    {
        Vertex { outgoing_half_edge: HalfEdgeIndex { index: UNSET_VALUE }, location: Point::unset() }
    }

    /// A fresh vertex at `location`, not yet attached to any half-edge.
    pub fn new(location: Point) -> (r: Vertex)
        ensures
            r.outgoing_half_edge.index == UNSET_VALUE,
            vertex_unused(r),
            r.location == location,
    {
        Vertex { outgoing_half_edge: HalfEdgeIndex { index: UNSET_VALUE }, location }
    }

    pub fn is_unused(&self) -> (r: bool)
        ensures
            r == vertex_unused(*self),
    {
        self.outgoing_half_edge.index == UNSET_VALUE
    }
}

/// The vertex arena.
#[derive(Debug)]
pub struct VertexCollection {
    vertices: Vec<Vertex>,
}

impl View for VertexCollection {
    type V = Seq<Vertex>;

    closed spec fn view(&self) -> Seq<Vertex> {
        self.vertices@
    }
}

impl MeshPartCollection<Vertex, VertexIndex> for VertexCollection {
    open spec fn model(&self) -> Seq<Vertex> {
        self@
    }

    open spec fn index_at(n: int) -> VertexIndex {
        VertexIndex { index: n as u32 }
    }

    fn new() -> (c: Self) {
        VertexCollection { vertices: Vec::new() }
    }

    fn len(&self) -> (n: usize) {
        self.vertices.len()
    }

    fn add(&mut self, element: Vertex) -> (i: VertexIndex) {
        self.vertices.push(element);
        VertexIndex { index: (self.vertices.len() - 1) as u32 }
    }
}

impl VertexCollection {
    /// Read the vertex at `index`.
    pub fn get(&self, index: VertexIndex) -> (r: &Vertex)
        requires
            (index.index as int) < self@.len(),
        ensures
            *r == self@[index.index as int],
    {
        &self.vertices[index.index as usize]
    }

    /// Overwrite the vertex at `index`.
    pub fn set(&mut self, index: VertexIndex, v: Vertex)
        requires
            (index.index as int) < old(self)@.len(),
        ensures
            final(self)@ == old(self)@.update(index.index as int, v),
    {
        self.vertices[index.index as usize] = v;
    }

    /// Physically delete the `count` slots starting at `start`; used by
    /// compaction after survivors have been moved to the front.
    pub fn remove_range(&mut self, start: VertexIndex, count: usize)
        requires
            (start.index as int) + count <= old(self)@.len(),
        ensures
            final(self)@ == old(self)@.subrange(0, start.index as int) + old(self)@.subrange(
                start.index as int + count,
                old(self)@.len() as int,
            ),
    {
        let ghost orig = self.vertices@;
        let s = start.index as usize;
        let mut removed: usize = 0;
        while removed < count
            invariant
                removed <= count,
                s == start.index as usize,
                (s + count) as int <= orig.len(),
                self.vertices@ == orig.subrange(0, s as int) + orig.subrange(
                    s as int + removed,
                    orig.len() as int,
                ),
            decreases count - removed,
        {
            self.vertices.remove(s);
            removed = removed + 1;
            proof {
                assert(self.vertices@ =~= orig.subrange(0, s as int) + orig.subrange(
                    s as int + removed,
                    orig.len() as int,
                ));
            }
        }
        proof {
            assert(self.vertices@ =~= orig.subrange(0, s as int) + orig.subrange(
                s as int + count,
                orig.len() as int,
            ));
        }
    }
}

} // verus!
