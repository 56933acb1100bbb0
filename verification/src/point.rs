//! The position type stored with each vertex.
//!
//! The topology engine never reads coordinates; it only stores them and hands
//! them back.  Each coordinate is therefore carried as an opaque 64-bit word
//! chosen by the caller (for example the bit encoding of a floating-point
//! coordinate).

use vstd::prelude::*;

verus! {

/// The coordinate word that `Point::unset` fills in: the encoding of the
/// smallest finite 64-bit floating-point coordinate.
pub const UNSET_COORDINATE: u64 = 0xFFEF_FFFF_FFFF_FFFF;

/// A 3-component position, opaque to the topology engine.
#[derive(PartialEq, Eq, Structural, Clone, Copy, Debug)]
pub struct Point {
    pub x: u64,
    pub y: u64,
    pub z: u64,
}

impl Point {
    /// The origin: all coordinate words zero.
    pub fn new() -> (r: Point)
        ensures
            r == (Point { x: 0u64, y: 0u64, z: 0u64 }),
    {
        Point { x: 0, y: 0, z: 0 }
    }

    /// A placeholder position for slots that carry no caller-chosen location.
    pub fn unset() -> (r: Point)
        ensures
            r == (Point { x: UNSET_COORDINATE, y: UNSET_COORDINATE, z: UNSET_COORDINATE }),
    {
        Point { x: UNSET_COORDINATE, y: UNSET_COORDINATE, z: UNSET_COORDINATE }
    }

    /// A position built from three caller-chosen coordinate words.
    pub fn from_values(x: u64, y: u64, z: u64) -> (r: Point)
        ensures
            r == (Point { x, y, z }),
    {
        Point { x, y, z }
    }
}

} // verus!
