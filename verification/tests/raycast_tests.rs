use rndr::collider::SphereCollider;
use rndr::matrix::EulerTrig;
use rndr::object::{Component, Object, ObjectManager};
use rndr::ray::{ObjectIntersectionRay, Ray};
use rndr::raycast::{ray_sphere_intersections, ray_triangle_intersect};
use rndr::transform::Transform;
use rndr::vector::V3;
use rndr::vertex::Vertex;

fn tri() -> (Vertex, Vertex, Vertex) {
    let n = V3::new(0, 0, -1000);
    (
        Vertex::new(V3::new(0, 0, 0), [255, 0, 0], n),
        Vertex::new(V3::new(1000, 0, 0), [0, 255, 0], n),
        Vertex::new(V3::new(0, 1000, 0), [0, 0, 255], n),
    )
}

#[test]
fn ray_hits_triangle_interior() {
    let (a, b, c) = tri();
    let start = V3::new(250, 250, -1000);
    let dir = V3::new(0, 0, 1000);
    let hit = ray_triangle_intersect(&a, &b, &c, start, dir, None).expect("interior hit");
    assert_eq!(hit.distance, 1000);
    assert_eq!((hit.position.x, hit.position.y, hit.position.z), (250, 250, 0));
}

#[test]
fn ray_misses_behind_and_outside() {
    let (a, b, c) = tri();
    // pointing away: t < 0
    assert!(ray_triangle_intersect(&a, &b, &c, V3::new(250, 250, -1000), V3::new(0, 0, -1000),
        None).is_none());
    // outside the barycentric range: v + w > 1
    assert!(ray_triangle_intersect(&a, &b, &c, V3::new(900, 900, -1000), V3::new(0, 0, 1000),
        None).is_none());
    // beyond the maximum distance
    assert!(ray_triangle_intersect(&a, &b, &c, V3::new(250, 250, -1000), V3::new(0, 0, 1000),
        Some(999)).is_none());
}

// Re-ordering the triangle's vertices changes neither whether the ray hits
// nor the parameter or position of the hit.
#[test]
fn vertex_order_does_not_change_the_hit() {
    let (a, b, c) = tri();
    let start = V3::new(250, 250, -1000);
    let dir = V3::new(0, 0, 1000);
    let h1 = ray_triangle_intersect(&a, &b, &c, start, dir, None).unwrap();
    let h2 = ray_triangle_intersect(&a, &c, &b, start, dir, None).unwrap();
    assert_eq!(h1.distance, h2.distance);
    assert_eq!((h1.position.x, h1.position.y, h1.position.z),
        (h2.position.x, h2.position.y, h2.position.z));
    assert_eq!((h1.normal.x, h1.normal.y, h1.normal.z), (h2.normal.x, h2.normal.y, h2.normal.z));
    // the other transposition: swapping the first two vertices
    let h3 = ray_triangle_intersect(&b, &a, &c, start, dir, None).unwrap();
    assert_eq!(h1.distance, h3.distance);
    assert_eq!((h1.position.x, h1.position.y, h1.position.z),
        (h3.position.x, h3.position.y, h3.position.z));
    assert_eq!((h1.normal.x, h1.normal.y, h1.normal.z), (h3.normal.x, h3.normal.y, h3.normal.z));
}

#[test]
fn ray_sphere_has_two_ordered_roots() {
    let center = V3::new(0, 0, 0);
    let start = V3::new(-3000, 0, 0);
    let dir = V3::new(1000, 0, 0);
    let hits = ray_sphere_intersections(center, 1000, start, dir, None);
    assert_eq!(hits.len(), 2);
    // the larger root comes first
    assert_eq!(hits[0].distance, 4000);
    assert_eq!((hits[0].position.x, hits[0].normal.x), (1000, 1000));
    assert_eq!(hits[1].distance, 2000);
    assert_eq!((hits[1].position.x, hits[1].normal.x), (-1000, -1000));
}

#[test]
fn ray_sphere_rejects_misses_and_negative_roots() {
    let center = V3::new(0, 0, 0);
    // passing beside the sphere
    assert_eq!(ray_sphere_intersections(center, 1000, V3::new(-3000, 5000, 0),
        V3::new(1000, 0, 0), None).len(), 0);
    // both roots behind the start
    assert_eq!(ray_sphere_intersections(center, 1000, V3::new(3000, 0, 0), V3::new(1000, 0, 0),
        None).len(), 0);
    // a maximum distance cuts the far root
    assert_eq!(ray_sphere_intersections(center, 1000, V3::new(-3000, 0, 0), V3::new(1000, 0, 0),
        Some(2500)).len(), 1);
}

fn sphere_entity(x: i64, radius: i64) -> Object {
    let mut obj = Object::new();
    obj.add_component(Component::Transform(Transform::new(
        V3::new(x, 0, 0),
        V3::new(0, 0, 0),
    )));
    obj.add_component(Component::SphereCollider(SphereCollider::new(radius)));
    obj
}

#[test]
fn scene_cast_returns_the_closest_hit() {
    let mut om = ObjectManager::new();
    om.register_object(sphere_entity(5000, 1000));
    om.register_object(sphere_entity(10_000, 1000));
    let trigs = vec![EulerTrig::identity(), EulerTrig::identity()];
    let ray = Ray {
        start: V3::new(0, 0, 0),
        dir: V3::new(1000, 0, 0),
        max_distance: None,
        objects: &om,
    };
    let hit = ray.cast(&trigs).expect("both spheres are in front");
    assert_eq!(hit.distance, 4000);
    assert_eq!(hit.position.x, 4000);
}

#[test]
fn scene_cast_misses_cleanly() {
    let mut om = ObjectManager::new();
    om.register_object(sphere_entity(5000, 1000));
    let trigs = vec![EulerTrig::identity()];
    let ray = Ray {
        start: V3::new(0, 0, 0),
        dir: V3::new(-1000, 0, 0),
        max_distance: None,
        objects: &om,
    };
    assert!(ray.cast(&trigs).is_none());
}

#[test]
fn object_ray_returns_every_hit() {
    let mut om = ObjectManager::new();
    om.register_object(sphere_entity(5000, 1000));
    let trigs = vec![EulerTrig::identity()];
    let obj = om.get_object(0);
    let ray = ObjectIntersectionRay {
        start: V3::new(0, 0, 0),
        dir: V3::new(1000, 0, 0),
        max_distance: None,
        object: obj,
    };
    let hits = ray.cast(&om, &trigs[0]);
    assert_eq!(hits.len(), 2);
    assert_eq!(hits[0].distance, 6000);
    assert_eq!(hits[1].distance, 4000);
}
