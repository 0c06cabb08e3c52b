//! The entity/component registry.
//!
//! An entity (`Object`) owns at most one component of each kind; the
//! `ObjectManager` owns all entities and hands out strictly increasing ids
//! starting at zero.  Component kinds form a closed set, so dispatch is a
//! plain match rather than runtime type identity.

use vstd::prelude::*;

use crate::camera::Camera;
use crate::collider::{MeshCollider, SphereCollider};
use crate::mesh::MeshRenderable;
use crate::rigidbody::Rigidbody;
use crate::transform::Transform;

verus! {

/// The closed set of component kinds an entity can carry.
#[derive(Clone, Copy, Debug, PartialEq, Eq, Structural)]
pub enum ComponentKind {
    Transform,
    Camera,
    MeshRenderable,
    MeshCollider,
    SphereCollider,
    Rigidbody,
}

/// One component instance, tagged with its kind.
#[derive(Clone, Debug)]
pub enum Component {
    Transform(Transform),
    Camera(Camera),
    MeshRenderable(MeshRenderable),
    MeshCollider(MeshCollider),
    SphereCollider(SphereCollider),
    Rigidbody(Rigidbody),
}

impl Component {
    /// The kind tag of this component.
    pub open spec fn kind_spec(&self) -> ComponentKind {
        match self {
            Component::Transform(_) => ComponentKind::Transform,
            Component::Camera(_) => ComponentKind::Camera,
            Component::MeshRenderable(_) => ComponentKind::MeshRenderable,
            Component::MeshCollider(_) => ComponentKind::MeshCollider,
            Component::SphereCollider(_) => ComponentKind::SphereCollider,
            Component::Rigidbody(_) => ComponentKind::Rigidbody,
        }
    }

    /// The kind tag of this component.
    pub fn get_type(&self) -> (r: ComponentKind)
        ensures
            r == self.kind_spec(),
    {
        match self {
            Component::Transform(_) => ComponentKind::Transform,
            Component::Camera(_) => ComponentKind::Camera,
            Component::MeshRenderable(_) => ComponentKind::MeshRenderable,
            Component::MeshCollider(_) => ComponentKind::MeshCollider,
            Component::SphereCollider(_) => ComponentKind::SphereCollider,
            Component::Rigidbody(_) => ComponentKind::Rigidbody,
        }
    }
}

/// An entity: an id plus at most one component of each kind.
#[derive(Clone, Debug)]
pub struct Object {
    pub id: u64,
    pub transform: Option<Transform>,
    pub camera: Option<Camera>,
    pub mesh_renderable: Option<MeshRenderable>,
    pub mesh_collider: Option<MeshCollider>,
    pub sphere_collider: Option<SphereCollider>,
    pub rigidbody: Option<Rigidbody>,
}

impl Object {
    /// The entity's id as a spec value.
    pub open spec fn id_spec(&self) -> u64 {
        self.id
    }

    /// An entity with no components and id 0; the real id is assigned at
    /// registration.
    pub fn new() -> (r: Object)
        ensures
            r.id_spec() == 0,
            r.transform is None,
            r.camera is None,
            r.mesh_renderable is None,
            r.mesh_collider is None,
            r.sphere_collider is None,
            r.rigidbody is None,
    {
        Object {
            id: 0,
            transform: None,
            camera: None,
            mesh_renderable: None,
            mesh_collider: None,
            sphere_collider: None,
            rigidbody: None,
        }
    }

    /// The id the entity was registered under.
    pub fn id(&self) -> (r: u64)
        ensures
            r == self.id_spec(),
    {
        self.id
    }

    /// The entity after attachment notification: every owner-tracking
    /// component holds `id`.
    pub open spec fn with_owner(self, id: u64) -> Object {
        Object {
            id,
            mesh_collider: match self.mesh_collider {
                Some(_) => Some(MeshCollider { object: Some(id) }),
                None => None,
            },
            sphere_collider: match self.sphere_collider {
                Some(c) => Some(SphereCollider { owner: Some(id), radius: c.radius }),
                None => None,
            },
            rigidbody: match self.rigidbody {
                Some(rb) => Some(Rigidbody { owner: Some(id), ..rb }),
                None => None,
            },
            ..self
        }
    }

    /// Sets the id and notifies every component of its owner.
    pub(crate) fn receive_id(&mut self, id: u64)
        ensures
            *final(self) == old(self).with_owner(id),
    {
        self.id = id;
        if let Some(c) = &mut self.mesh_collider {
            c.object = Some(id);
        }
        if let Some(c) = &mut self.sphere_collider {
            c.owner = Some(id);
        }
        if let Some(rb) = &mut self.rigidbody {
            rb.owner = Some(id);
        }
    }

    /// Whether the entity carries a component of the given kind.
    pub fn has_component(&self, kind: ComponentKind) -> (r: bool)
        ensures
            r == self.has_kind(kind),
    {
        match kind {
            ComponentKind::Transform => self.transform.is_some(),
            ComponentKind::Camera => self.camera.is_some(),
            ComponentKind::MeshRenderable => self.mesh_renderable.is_some(),
            ComponentKind::MeshCollider => self.mesh_collider.is_some(),
            ComponentKind::SphereCollider => self.sphere_collider.is_some(),
            ComponentKind::Rigidbody => self.rigidbody.is_some(),
        }
    }

    /// Whether the entity carries a component of the given kind.
    pub open spec fn has_kind(&self, kind: ComponentKind) -> bool {
        match kind {
            ComponentKind::Transform => self.transform is Some,
            ComponentKind::Camera => self.camera is Some,
            ComponentKind::MeshRenderable => self.mesh_renderable is Some,
            ComponentKind::MeshCollider => self.mesh_collider is Some,
            ComponentKind::SphereCollider => self.sphere_collider is Some,
            ComponentKind::Rigidbody => self.rigidbody is Some,
        }
    }

    /// Attaches a component, replacing any previous one of the same kind,
    /// and notifies it of its owner.
    pub fn add_component(&mut self, component: Component)
        ensures
            final(self).id_spec() == old(self).id_spec(),
            match component {
                Component::Transform(c) => *final(self) == Object {
                    transform: Some(c),
                    ..*old(self)
                },
                Component::Camera(c) => *final(self) == Object { camera: Some(c), ..*old(self) },
                Component::MeshRenderable(c) => *final(self) == Object {
                    mesh_renderable: Some(c),
                    ..*old(self)
                },
                Component::MeshCollider(_) => *final(self) == Object {
                    mesh_collider: Some(MeshCollider { object: Some(old(self).id_spec()) }),
                    ..*old(self)
                },
                Component::SphereCollider(c) => *final(self) == Object {
                    sphere_collider: Some(
                        SphereCollider { owner: Some(old(self).id_spec()), radius: c.radius },
                    ),
                    ..*old(self)
                },
                Component::Rigidbody(c) => *final(self) == Object {
                    rigidbody: Some(Rigidbody { owner: Some(old(self).id_spec()), ..c }),
                    ..*old(self)
                },
            },
    {
        let id = self.id;
        match component {
            Component::Transform(c) => {
                self.transform = Some(c);
            },
            Component::Camera(c) => {
                self.camera = Some(c);
            },
            Component::MeshRenderable(c) => {
                self.mesh_renderable = Some(c);
            },
            Component::MeshCollider(_) => {
                self.mesh_collider = Some(MeshCollider { object: Some(id) });
            },
            Component::SphereCollider(mut c) => {
                c.owner = Some(id);
                self.sphere_collider = Some(c);
            },
            Component::Rigidbody(mut c) => {
                c.owner = Some(id);
                self.rigidbody = Some(c);
            },
        }
    }
}

/// All entities of a scene, owned under strictly increasing ids from zero:
/// an entity's id is its index.
pub struct ObjectManager {
    pub objects: Vec<Object>,
}

/// Every entity's id equals its index.
pub open spec fn om_wf(om: ObjectManager) -> bool {
    forall|k: int| 0 <= k < om.objects_seq().len() ==> (#[trigger] om.objects_seq()[k]).id_spec()
        == k
}

impl ObjectManager {
    /// The entities as a sequence, for contracts.
    pub open spec fn objects_seq(&self) -> Seq<Object> {
        self.objects@
    }

    /// An empty scene.
    pub fn new() -> (r: ObjectManager)
        ensures
            r.objects_seq().len() == 0,
            om_wf(r),
    {
        ObjectManager { objects: Vec::new() }
    }

    /// The number of registered entities (also the next id handed out).
    pub fn len(&self) -> (r: usize)
        ensures
            r == self.objects_seq().len(),
    {
        self.objects.len()
    }

    /// Takes ownership of an entity, assigns it the next id, notifies its
    /// components of their owner, and returns the id.
    pub fn register_object(&mut self, object: Object) -> (id: u64)
        requires
            om_wf(*old(self)),
            old(self).objects_seq().len() < 0x1000_0000,
        ensures
            om_wf(*final(self)),
            id == old(self).objects_seq().len(),
            final(self).objects_seq() == old(self).objects_seq().push(
                object.with_owner(id),
            ),
    {
        let idx: u64 = self.objects.len() as u64;
        let mut object = object;
        object.receive_id(idx);
        self.objects.push(object);
        proof {
            assert forall|k: int|
                0 <= k < self.objects_seq().len() implies (#[trigger] self.objects_seq()[k]).id_spec()
                == k by {
                if k < old(self).objects_seq().len() {
                    assert(self.objects_seq()[k] == old(self).objects_seq()[k]);
                }
            }
        }
        idx
    }

    /// The entity registered under `index`; callers must know it exists.
    pub fn get_object(&self, index: u64) -> (r: &Object)
        requires
            index < self.objects_seq().len(),
        ensures
            *r == self.objects_seq()[index as int],
    {
        let n = self.objects.len();
        &self.objects[index as usize]
    }

    /// Mutable access to the entity registered under `index`.
    pub fn get_object_mut(&mut self, index: u64) -> (r: &mut Object)
        requires
            index < old(self).objects_seq().len(),
        ensures
            *r == old(self).objects_seq()[index as int],
            final(self).objects_seq() == old(self).objects_seq().update(index as int, *final(r)),
    {
        let n = self.objects.len();
        &mut self.objects[index as usize]
    }

    /// The entity registered under `index`, or `None` when the id is
    /// unknown.
    pub fn try_get_object(&self, index: u64) -> (r: Option<&Object>)
        ensures
            match r {
                Some(obj) => index < self.objects_seq().len() && *obj == self.objects_seq()[
                    index as int
                ],
                None => index >= self.objects_seq().len(),
            },
    {
        if index < self.objects.len() as u64 {
            Some(&self.objects[index as usize])
        } else {
            None
        }
    }

    /// Mutable access to the entity registered under `index`, or `None`
    /// when the id is unknown.
    pub fn try_get_object_mut(&mut self, index: u64) -> (r: Option<&mut Object>)
        ensures
            match r {
                Some(obj) => index < old(self).objects_seq().len() && *obj == old(
                    self,
                ).objects_seq()[index as int] && final(self).objects_seq() == old(
                    self,
                ).objects_seq().update(index as int, *final(obj)),
                None => index >= old(self).objects_seq().len() && *final(self) == *old(self),
            },
    {
        let n = self.objects.len();
        if index < n as u64 {
            Some(&mut self.objects[index as usize])
        } else {
            None
        }
    }

    /// All live entities, in id order.
    pub fn objects(&self) -> (r: &Vec<Object>)
        ensures
            r@ == self.objects_seq(),
    {
        &self.objects
    }
}

} // verus!
