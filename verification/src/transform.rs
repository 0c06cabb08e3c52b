//! Position and orientation of an entity.
//!
//! A `Transform` holds a position and an Euler rotation (fixed-point
//! degrees).  Orientation-dependent operations take the rotation's
//! sine/cosine triple, which the host computes for arbitrary angles and
//! [`EulerTrig::for_right_angles`](crate::matrix::EulerTrig::for_right_angles)
//! computes exactly for quarter turns.

use vstd::prelude::*;

use crate::fixed::fits64;
use crate::matrix::{rotate_spec, trig_wf, EulerTrig};
use crate::vector::{v3_abs_le, v3_add, V3};
use crate::vertex::Vertex;

verus! {

/// The basis vector that rotates into an entity's forward direction.
pub open spec fn fwd_base() -> V3 {
    V3 { x: crate::fixed::SCALE, y: 0i64, z: 0i64 }
}

/// The basis vector that rotates into an entity's right direction.
pub open spec fn right_base() -> V3 {
    V3 { x: 0i64, y: (-crate::fixed::SCALE) as i64, z: 0i64 }
}

/// The basis vector that rotates into an entity's up direction.
pub open spec fn up_base() -> V3 {
    V3 { x: 0i64, y: 0i64, z: crate::fixed::SCALE }
}

/// Position and Euler rotation of an entity.
#[derive(Clone, Copy, Debug, PartialEq, Eq, Structural)]
pub struct Transform {
    pub position: V3,
    /// Euler angles in fixed-point degrees, applied intrinsically z→y→x.
    pub rotation: V3,
}

impl Default for Transform {
    /// The identity placement.
    fn default() -> (r: Transform)
        ensures
            r.position == (V3 { x: 0i64, y: 0i64, z: 0i64 }),
            r.rotation == (V3 { x: 0i64, y: 0i64, z: 0i64 }),
    {
        Transform {
            position: V3 { x: 0, y: 0, z: 0 },
            rotation: V3 { x: 0, y: 0, z: 0 },
        }
    }
}

impl Transform {
    pub fn new(position: V3, rotation: V3) -> (r: Transform)
        ensures
            r == (Transform { position, rotation }),
    {
        Transform { position, rotation }
    }

    /// The forward direction under the given trig triple of `rotation`.
    pub fn fwd(&self, t: &EulerTrig) -> (r: V3)
        requires
            trig_wf(*t),
        ensures
            r == rotate_spec(fwd_base(), *t),
    {
        let base = V3 { x: crate::fixed::SCALE, y: 0, z: 0 };
        base.rotate(t)
    }

    /// The right direction under the given trig triple of `rotation`.
    pub fn right(&self, t: &EulerTrig) -> (r: V3)
        requires
            trig_wf(*t),
        ensures
            r == rotate_spec(right_base(), *t),
    {
        let base = V3 { x: 0, y: -crate::fixed::SCALE, z: 0 };
        base.rotate(t)
    }

    /// The up direction under the given trig triple of `rotation`.
    pub fn up(&self, t: &EulerTrig) -> (r: V3)
        requires
            trig_wf(*t),
        ensures
            r == rotate_spec(up_base(), *t),
    {
        let base = V3 { x: 0, y: 0, z: crate::fixed::SCALE };
        base.rotate(t)
    }

    /// All three orientation vectors at once.
    pub fn get_orientations_in_bulk(&self, t: &EulerTrig) -> (r: (V3, V3, V3))
        requires
            trig_wf(*t),
        ensures
            r.0 == rotate_spec(fwd_base(), *t),
            r.1 == rotate_spec(right_base(), *t),
            r.2 == rotate_spec(up_base(), *t),
    {
        (self.fwd(t), self.right(t), self.up(t))
    }

    /// Rotates a vertex's position by this transform's rotation (given its
    /// trig triple) and then translates it by the position.  The normal and
    /// color are left alone.
    pub fn apply_to_vertex(&self, t: &EulerTrig, vertex: &mut Vertex)
        requires
            trig_wf(*t),
            v3_abs_le(old(vertex).position, 0x0010_0000_0000_0000),
            fits64(rotate_spec(old(vertex).position, *t).x + self.position.x),
            fits64(rotate_spec(old(vertex).position, *t).y + self.position.y),
            fits64(rotate_spec(old(vertex).position, *t).z + self.position.z),
        ensures
            final(vertex).position == v3_add(rotate_spec(old(vertex).position, *t),
                self.position),
            final(vertex).normal == old(vertex).normal,
            final(vertex).color == old(vertex).color,
    {
        let rotated = vertex.position.rotate(t);
        vertex.position = rotated.add(&self.position);
    }
}

} // verus!
