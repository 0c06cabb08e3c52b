//! Convenience builders for common entities, each pinned to exactly what it
//! builds.

use vstd::prelude::*;

use crate::camera::{stock_camera, Camera};
use crate::mesh::{plane_mesh_shape, MeshRenderable};
use crate::object::{Component, Object};
use crate::transform::Transform;
use crate::vector::V3;

verus! {

/// The identity placement every builder starts its entity at.
pub open spec fn origin_transform() -> Transform {
    Transform {
        position: V3 { x: 0i64, y: 0i64, z: 0i64 },
        rotation: V3 { x: 0i64, y: 0i64, z: 0i64 },
    }
}

/// An unregistered camera entity at the origin with the stock configuration.
pub fn camera(perspective: bool) -> (r: Object)
    ensures
        r.camera == Some(stock_camera(perspective)),
        r.transform == Some(origin_transform()),
        r.mesh_renderable is None,
        r.mesh_collider is None,
        r.sphere_collider is None,
        r.rigidbody is None,
{
    let mut obj = Object::new();
    obj.add_component(Component::Transform(Transform::default()));
    obj.add_component(Component::Camera(Camera::new(perspective)));
    obj
}

/// An unregistered unit-plane entity at the origin.
pub fn plane() -> (r: Object)
    ensures
        r.mesh_renderable is Some,
        plane_mesh_shape(r.mesh_renderable->0, crate::fixed::SCALE as int,
            V3 { x: 0i64, y: crate::fixed::SCALE, z: 0i64 }),
        r.transform == Some(origin_transform()),
        r.camera is None,
        r.mesh_collider is None,
        r.sphere_collider is None,
        r.rigidbody is None,
{
    let mut obj = Object::new();
    obj.add_component(Component::MeshRenderable(MeshRenderable::plane()));
    obj.add_component(Component::Transform(Transform::default()));
    obj
}

/// An unregistered small-plane entity at the origin.
pub fn small_plane() -> (r: Object)
    ensures
        r.mesh_renderable is Some,
        plane_mesh_shape(r.mesh_renderable->0, 200, V3 { x: 0i64, y: 0i64, z: 0i64 }),
        r.transform == Some(origin_transform()),
        r.camera is None,
        r.mesh_collider is None,
        r.sphere_collider is None,
        r.rigidbody is None,
{
    let mut obj = Object::new();
    obj.add_component(Component::MeshRenderable(MeshRenderable::small_plane()));
    obj.add_component(Component::Transform(Transform::default()));
    obj
}

} // verus!
