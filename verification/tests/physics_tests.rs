use rndr::collider::{IntersectionPoint, MeshCollider, SphereCollider};
use rndr::collision::{CollisionError, CollisionInfo, CollisionManager};
use rndr::matrix::EulerTrig;
use rndr::mesh::MeshRenderable;
use rndr::shader::{DefaultShader, Shader};
use rndr::vertex::Vertex;
use rndr::object::{Component, Object, ObjectManager};
use rndr::physics_manager::PhysicsManager;
use rndr::rigidbody::Rigidbody;
use rndr::transform::Transform;
use rndr::vector::V3;

// A body under gravity only, dt = 0.02 and gravity = -5.0: one tick adds
// exactly -0.1 to the z velocity, and the displacement already uses the
// updated velocity: gravity and locks act before the body moves.
#[test]
fn gravity_tick_is_exact() {
    let mut rb = Rigidbody::new_with_gravity(1000);
    let (pos_delta, rot_delta) = rb.tick(20, -5000);
    assert_eq!(rb.linear_velocity.z, -100);
    // -0.1 * 0.02 == -0.002
    assert_eq!((pos_delta.x, pos_delta.y, pos_delta.z), (0, 0, -2));
    assert_eq!((rot_delta.x, rot_delta.y, rot_delta.z), (0, 0, 0));
}

// A movement-locked body is not displaced, whatever velocity it stored.
#[test]
fn locked_bodies_do_not_move() {
    let mut rb = Rigidbody::new(1000);
    rb.linear_velocity = V3::new(5000, 0, 0);
    rb.lock_movement = true;
    let (pos_delta, _) = rb.tick(20, -5000);
    assert_eq!((pos_delta.x, pos_delta.y, pos_delta.z), (0, 0, 0));
}

// After N ticks the velocity is exactly gravity * dt * N: no damping, no
// rounding drift.
#[test]
fn gravity_accumulates_exactly_over_many_ticks() {
    let mut rb = Rigidbody::new_with_gravity(1000);
    for _ in 0..50 {
        rb.tick(20, -5000);
    }
    // -5.0 * 0.02 * 50 == -5.0
    assert_eq!(rb.linear_velocity.z, -5000);
    assert_eq!(rb.linear_velocity.x, 0);
    assert_eq!(rb.linear_velocity.y, 0);
}

#[test]
fn locked_axes_zero_their_velocities() {
    let mut rb = Rigidbody::new(1000);
    rb.linear_velocity = V3::new(100, 200, 300);
    rb.angular_velocity = V3::new(10, 20, 30);
    rb.lock_movement = true;
    rb.lock_rotation = true;
    rb.tick(20, -5000);
    assert_eq!((rb.linear_velocity.x, rb.linear_velocity.y, rb.linear_velocity.z), (0, 0, 0));
    assert_eq!((rb.angular_velocity.x, rb.angular_velocity.y, rb.angular_velocity.z), (0, 0, 0));
}

fn sphere_entity(x: i64, radius: i64) -> Object {
    let mut obj = Object::new();
    obj.add_component(Component::Transform(Transform::new(
        V3::new(x, 0, 0),
        V3::new(0, 0, 0),
    )));
    obj.add_component(Component::SphereCollider(SphereCollider::new(radius)));
    obj
}

// Two unit spheres with centers 1.5 apart intersect; 3 apart do not.
#[test]
fn unit_spheres_intersect_iff_close_enough() {
    let mut om = ObjectManager::new();
    om.register_object(sphere_entity(0, 1000));
    om.register_object(sphere_entity(1500, 1000));
    om.register_object(sphere_entity(3000 + 1500, 1000));
    let s0 = om.get_object(0).sphere_collider.unwrap();
    let s1 = om.get_object(1).sphere_collider.unwrap();
    let s2 = om.get_object(2).sphere_collider.unwrap();
    let hit = s0.intersects_sphere(&s1, &om).expect("spheres 1.5 apart intersect");
    // contact point is the midpoint, normal points from body 1 to body 2
    assert_eq!((hit.position.x, hit.position.y, hit.position.z), (750, 0, 0));
    assert_eq!((hit.normal.x, hit.normal.y, hit.normal.z), (1000, 0, 0));
    // centers 3.0 apart: no contact
    assert!(s1.intersects_sphere(&s2, &om).is_none());
}

// The contact is symmetric in the probe order even when the center gap is
// an odd number of fixed-point steps: both orders give the same midpoint and
// exactly negated normals.
#[test]
fn sphere_contact_is_symmetric_in_probe_order() {
    let mut om = ObjectManager::new();
    om.register_object(sphere_entity(0, 1000));
    om.register_object(sphere_entity(1501, 1000));
    let s0 = om.get_object(0).sphere_collider.unwrap();
    let s1 = om.get_object(1).sphere_collider.unwrap();
    let c01 = s0.intersects_sphere(&s1, &om).expect("contact one way");
    let c10 = s1.intersects_sphere(&s0, &om).expect("contact the other way");
    assert_eq!((c01.position.x, c01.position.y, c01.position.z),
        (c10.position.x, c10.position.y, c10.position.z));
    assert_eq!(c01.position.x, 750);
    assert_eq!((c01.normal.x, c01.normal.y, c01.normal.z),
        (-c10.normal.x, -c10.normal.y, -c10.normal.z));
}

#[test]
fn collision_scan_reports_each_pair_once() {
    let mut om = ObjectManager::new();
    om.register_object(sphere_entity(0, 1000));
    om.register_object(sphere_entity(1500, 1000));
    let trigs = vec![EulerTrig::identity(), EulerTrig::identity()];
    let hits = CollisionManager.calculate(&om, &trigs).expect("no unsupported pairs");
    assert_eq!(hits.len(), 1);
    assert_eq!(hits[0].obj_1, 0);
    assert_eq!(hits[0].obj_2, 1);
    assert_eq!(hits[0].intersection_point.position.x, 750);
}

#[test]
fn mesh_sphere_pairs_fail_loudly() {
    let mut om = ObjectManager::new();
    let mut mesh_obj = Object::new();
    mesh_obj.add_component(Component::Transform(Transform::default()));
    mesh_obj.add_component(Component::MeshRenderable(MeshRenderable::plane()));
    mesh_obj.add_component(Component::MeshCollider(MeshCollider::new()));
    om.register_object(mesh_obj);
    om.register_object(sphere_entity(500, 1000));
    let trigs = vec![EulerTrig::identity(), EulerTrig::identity()];
    let r = CollisionManager.calculate(&om, &trigs);
    assert_eq!(r, Err(CollisionError::UnsupportedPair));
}


fn mesh_collider_entity(mesh: MeshRenderable) -> Object {
    let mut obj = Object::new();
    obj.add_component(Component::Transform(Transform::default()));
    obj.add_component(Component::MeshRenderable(mesh));
    obj.add_component(Component::MeshCollider(MeshCollider::new()));
    obj
}

// Two meshes crossing at the origin: the first centroid-to-vertex probe ray
// starts on the other mesh's surface, so the contact sits exactly at the
// origin with the other surface's normal flipped toward the probing body.
#[test]
fn crossing_meshes_make_contact_at_the_origin() {
    // a plane in the x-z plane (the stock plane)
    let a = MeshRenderable::plane();
    // a plane in the x-y plane, built directly
    let n = V3::new(0, 0, 1000);
    let vertices = vec![
        Vertex::new(V3::new(-1000, 1000, 0), [255, 255, 255], n),
        Vertex::new(V3::new(-1000, -1000, 0), [255, 255, 255], n),
        Vertex::new(V3::new(1000, -1000, 0), [255, 255, 255], n),
        Vertex::new(V3::new(1000, 1000, 0), [255, 255, 255], n),
    ];
    let triangles = vec![[0usize, 1, 2], [0usize, 2, 3]];
    let b = MeshRenderable::from_parts(vertices, triangles, Shader::Default(DefaultShader))
        .expect("indices in range");

    let mut om = ObjectManager::new();
    om.register_object(mesh_collider_entity(a));
    om.register_object(mesh_collider_entity(b));
    let mca = om.get_object(0).mesh_collider.unwrap();
    let mcb = om.get_object(1).mesh_collider.unwrap();
    let t = EulerTrig::identity();
    let contact = mca.intersects_mesh(&mcb, &om, &t, &t).expect("the meshes cross");
    assert_eq!((contact.position.x, contact.position.y, contact.position.z), (0, 0, 0));
    assert_eq!((contact.normal.x, contact.normal.y, contact.normal.z), (0, 0, -1000));

    // the pair scan reports the same contact once
    let trigs = vec![t, t];
    let hits = CollisionManager.calculate(&om, &trigs).expect("mesh pairs are supported");
    assert_eq!(hits.len(), 1);
    assert_eq!((hits[0].obj_1, hits[0].obj_2), (0, 1));
    assert_eq!(hits[0].intersection_point.normal.z, -1000);
}

fn body_entity(x: i64, vx: i64) -> Object {
    let mut obj = Object::new();
    obj.add_component(Component::Transform(Transform::new(
        V3::new(x, 0, 0),
        V3::new(0, 0, 0),
    )));
    obj.add_component(Component::MeshRenderable(MeshRenderable::plane()));
    let mut rb = Rigidbody::new(1000);
    rb.linear_velocity = V3::new(vx, 0, 0);
    obj.add_component(Component::Rigidbody(rb));
    obj
}

// A head-on contact between two equal unit-mass bodies swaps their
// velocities: the full normal momentum is exchanged.
#[test]
fn head_on_impulse_swaps_velocities() {
    let mut om = ObjectManager::new();
    om.register_object(body_entity(0, 1000));
    om.register_object(body_entity(1500, -1000));
    let contact = CollisionInfo {
        intersection_point: IntersectionPoint {
            position: V3::new(750, 0, 0),
            normal: V3::new(1000, 0, 0),
        },
        obj_1: 0,
        obj_2: 1,
    };
    let pm = PhysicsManager::new(-5000);
    let trigs = vec![EulerTrig::identity(), EulerTrig::identity()];
    pm.react_to_collisions(&vec![contact], &mut om, &trigs);
    let rb0 = om.get_object(0).rigidbody.unwrap();
    let rb1 = om.get_object(1).rigidbody.unwrap();
    assert_eq!((rb0.linear_velocity.x, rb0.linear_velocity.y, rb0.linear_velocity.z),
        (-1000, 0, 0));
    assert_eq!((rb1.linear_velocity.x, rb1.linear_velocity.y, rb1.linear_velocity.z),
        (1000, 0, 0));
    // the head-on exchange leaves no torque
    assert_eq!(rb0.angular_velocity.x, 0);
    assert_eq!(rb0.angular_velocity.y, 0);
    assert_eq!(rb0.angular_velocity.z, 0);
}

// A contact whose quantities fall outside the window the exact arithmetic
// accepts is skipped rather than resolved with wrapped values.
#[test]
fn out_of_window_contacts_are_skipped() {
    let mut om = ObjectManager::new();
    om.register_object(body_entity(0, 1000));
    om.register_object(body_entity(1500, -1000));
    let contact = CollisionInfo {
        intersection_point: IntersectionPoint {
            position: V3::new(750, 0, 0),
            // far beyond any normalized surface normal
            normal: V3::new(100_000_000, 0, 0),
        },
        obj_1: 0,
        obj_2: 1,
    };
    let pm = PhysicsManager::new(-5000);
    let trigs = vec![EulerTrig::identity(), EulerTrig::identity()];
    pm.react_to_collisions(&vec![contact], &mut om, &trigs);
    assert_eq!(om.get_object(0).rigidbody.unwrap().linear_velocity.x, 1000);
    assert_eq!(om.get_object(1).rigidbody.unwrap().linear_velocity.x, -1000);
}

// One full physics tick: gravity reaches the velocity before the body is
// displaced, so the first tick already moves it.
#[test]
fn full_tick_integrates_position_and_velocity() {
    let mut om = ObjectManager::new();
    let mut obj = Object::new();
    obj.add_component(Component::Transform(Transform::default()));
    obj.add_component(Component::Rigidbody(Rigidbody::new_with_gravity(1000)));
    om.register_object(obj);
    let trigs = vec![EulerTrig::identity()];
    let pm = PhysicsManager::new(-5000);
    pm.tick(&mut om, &trigs, 20).expect("no collisions");
    assert_eq!(om.get_object(0).rigidbody.unwrap().linear_velocity.z, -100);
    // the first displacement uses the post-gravity velocity: -0.1 * 0.02
    assert_eq!(om.get_object(0).transform.unwrap().position.z, -2);
    pm.tick(&mut om, &trigs, 20).expect("no collisions");
    assert_eq!(om.get_object(0).rigidbody.unwrap().linear_velocity.z, -200);
    // the second tick moves by -0.2 * 0.02 == -0.004
    assert_eq!(om.get_object(0).transform.unwrap().position.z, -6);
}
