use rndr::collider::{MeshCollider, SphereCollider};
use rndr::object::{Component, ComponentKind, Object, ObjectManager};
use rndr::rigidbody::Rigidbody;
use rndr::transform::Transform;
use rndr::vector::V3;

#[test]
fn ids_are_strictly_increasing_from_zero() {
    let mut om = ObjectManager::new();
    let a = om.register_object(Object::new());
    let b = om.register_object(Object::new());
    let c = om.register_object(Object::new());
    assert_eq!((a, b, c), (0, 1, 2));
    assert_eq!(om.len(), 3);
    assert_eq!(om.get_object(1).id(), 1);
}

#[test]
fn attachment_notifies_components_of_their_owner() {
    let mut om = ObjectManager::new();
    om.register_object(Object::new());
    let mut obj = Object::new();
    obj.add_component(Component::Transform(Transform::default()));
    obj.add_component(Component::SphereCollider(SphereCollider::new(1000)));
    obj.add_component(Component::MeshCollider(MeshCollider::new()));
    obj.add_component(Component::Rigidbody(Rigidbody::new(1000)));
    let id = om.register_object(obj);
    assert_eq!(id, 1);
    let stored = om.get_object(id);
    assert_eq!(stored.sphere_collider.unwrap().owner, Some(1));
    assert_eq!(stored.mesh_collider.unwrap().object, Some(1));
    assert_eq!(stored.rigidbody.unwrap().owner, Some(1));
}

#[test]
fn at_most_one_component_per_kind() {
    let mut obj = Object::new();
    obj.add_component(Component::Transform(Transform::new(
        V3::new(1, 2, 3),
        V3::new(0, 0, 0),
    )));
    obj.add_component(Component::Transform(Transform::new(
        V3::new(9, 9, 9),
        V3::new(0, 0, 0),
    )));
    // the second attachment replaced the first
    assert_eq!(obj.transform.unwrap().position.x, 9);
    assert!(obj.has_component(ComponentKind::Transform));
    assert!(!obj.has_component(ComponentKind::Camera));
}

#[test]
fn component_kind_tags() {
    let c = Component::Rigidbody(Rigidbody::new(500));
    assert_eq!(c.get_type(), ComponentKind::Rigidbody);
    let t = Component::Transform(Transform::default());
    assert_eq!(t.get_type(), ComponentKind::Transform);
}

#[test]
fn unknown_ids_are_an_explicit_absence() {
    let mut om = ObjectManager::new();
    om.register_object(Object::new());
    assert!(om.try_get_object(0).is_some());
    assert!(om.try_get_object(1).is_none());
    assert!(om.try_get_object(999).is_none());
}
