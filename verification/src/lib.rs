//! An incremental half-edge mesh topology engine.
//!
//! Index-addressed arenas of vertices, half-edges and faces, together with
//! the mutation and traversal algorithms that keep a planar-graph
//! representation of a polygon mesh consistent as faces are added and
//! removed.  Half-edges are allocated in adjacent pairs, so pairing is
//! positional: the pair of the edge at position `2k` sits at `2k + 1`.

#![allow(unused_imports)]
use vstd::prelude::*;

pub mod face;
pub mod half_edge;
pub mod laws;
pub mod mesh;
pub mod point;
pub mod traits;
pub mod vertex;

verus! {

/// The reserved 32-bit index value that means "unset / none".
pub const UNSET_VALUE: u32 = u32::MAX;

} // verus!
