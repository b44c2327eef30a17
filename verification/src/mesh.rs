//! The source mesh, as the generator reads it.
//!
//! A mesh is three parallel attribute lists: positions, texture
//! coordinates, and a triangle index list. Any of them may be absent
//! ("feature not ready yet" tolerance): generation then simply places
//! nothing. Coordinates are fixed-point mesh-local values, bounded so
//! that world-space geometry math cannot overflow.

use vstd::prelude::*;
use crate::fixed::{Vec2Fx, Vec3Fx, COORD_LIMIT};

verus! {

/// A triangulated source mesh: positions, UVs and a triangle list.
/// Indices are read in consecutive groups of three; a trailing partial
/// group is ignored.
pub struct MeshData {
    pub positions: Option<Vec<Vec3Fx>>,
    pub uvs: Option<Vec<Vec2Fx>>,
    pub indices: Option<Vec<u32>>,
}

impl MeshData {
    /// Every present coordinate is within the fixed-point working range.
    pub open spec fn wf(self) -> bool {
        &&& self.positions is Some ==> (forall|i: int|
            0 <= i < self.positions->Some_0@.len() ==> (#[trigger] self.positions->Some_0@[i]).in_bounds(
                COORD_LIMIT as int,
            ))
        &&& self.uvs is Some ==> (forall|i: int|
            0 <= i < self.uvs->Some_0@.len() ==> (#[trigger] self.uvs->Some_0@[i]).in_bounds(
                COORD_LIMIT as int,
            ))
    }

    /// All three attributes are present.
    pub open spec fn complete(self) -> bool {
        self.positions is Some && self.uvs is Some && self.indices is Some
    }
}

} // verus!
