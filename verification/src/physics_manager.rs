//! The physics pass: per-entity velocity integration, collision detection,
//! and single-pass impulse resolution with Coulomb friction.

use vstd::prelude::*;

use crate::collider::IntersectionPoint;
use crate::collision::{scan_rows, scene_collision_ok, CollisionError, CollisionInfo,
    CollisionManager};
use crate::fixed::{fxdiv, fxmul, iabs, is_isqrt, lemma_mul_bound, lemma_tdiv_cancel,
    lemma_tdiv_le, lemma_tdiv_mono, SCALE};
use crate::matrix::EulerTrig;
use crate::object::{Object, ObjectManager};
use crate::rigidbody::{rb_velocities_ok, tick_angular_velocity, tick_args_ok,
    tick_linear_velocity, Rigidbody};
use crate::transform::Transform;
use crate::vector::{v3_abs_le, v3_add, v3_cross, v3_divs, v3_dot, v3_hadamard, v3_inverse,
    v3_mag, v3_neg, v3_norm, v3_scale, v3_sq_sum, v3_sub, V3};

verus! {

/// One entity after an integration tick: gravity and locks applied to the
/// body, the transform displaced by the updated velocities times `dt`.
pub open spec fn integrate_object(obj: Object, dt: int, gravity: int) -> Object {
    if obj.rigidbody is Some && obj.transform is Some {
        let rb = obj.rigidbody->0;
        let tr = obj.transform->0;
        Object {
            rigidbody: Some(
                Rigidbody {
                    linear_velocity: tick_linear_velocity(rb, dt, gravity),
                    angular_velocity: tick_angular_velocity(rb),
                    ..rb
                },
            ),
            transform: Some(
                Transform {
                    position: v3_add(tr.position, v3_scale(tick_linear_velocity(rb, dt, gravity),
                        dt)),
                    rotation: v3_add(tr.rotation, v3_scale(tick_angular_velocity(rb), dt)),
                },
            ),
            ..obj
        }
    } else {
        obj
    }
}

/// The whole scene after an integration tick.
pub open spec fn integrated_objects(objs: Seq<Object>, dt: int, gravity: int) -> Seq<Object> {
    Seq::new(objs.len(), |k: int| integrate_object(objs[k], dt, gravity))
}

/// The scene is ready for an integration tick: every body's velocities and
/// its transform are within range.
pub open spec fn phys_tick_ok(objs: Seq<Object>, dt: int, gravity: int) -> bool {
    &&& tick_args_ok(dt, gravity)
    &&& forall|k: int|
        0 <= k < objs.len() && (#[trigger] objs[k]).rigidbody is Some ==> {
            &&& objs[k].transform is Some
            &&& rb_velocities_ok(objs[k].rigidbody->0)
            &&& v3_abs_le(objs[k].transform->0.position, 0x100_0000_0000)
            &&& v3_abs_le(objs[k].transform->0.rotation, 0x100_0000_0000)
        }
}

/// The centroid a body's momentum is measured around: the mesh's vertex
/// average taken through the entity's rotation (trig triple `t`) and
/// displaced by its position.
pub open spec fn obj_center(obj: Object, t: EulerTrig) -> V3 {
    v3_add(crate::matrix::rotate_spec(obj.mesh_renderable->0.vertices_center, t),
        obj.transform->0.position)
}

/// Both contact entities carry the components resolution reads: a rigid
/// body, a transform and a mesh.  A contact on an entity without them is a
/// scene-construction error, excluded by precondition rather than resolved
/// wrongly or skipped in silence.
pub open spec fn reaction_components_ok(o1: Object, o2: Object) -> bool {
    &&& o1.rigidbody is Some && o2.rigidbody is Some
    &&& o1.transform is Some && o2.transform is Some
    &&& o1.mesh_renderable is Some && o2.mesh_renderable is Some
}

/// The contact names two distinct live entities that carry the components
/// resolution reads.
pub open spec fn contact_entities_ok(objs: Seq<Object>, ci: CollisionInfo) -> bool {
    &&& ci.obj_1 < objs.len()
    &&& ci.obj_2 < objs.len()
    &&& ci.obj_1 != ci.obj_2
    &&& reaction_components_ok(objs[ci.obj_1 as int], objs[ci.obj_2 as int])
}

/// The body's state is within the window the impulse arithmetic accepts.
pub open spec fn rb_react_ok(rb: Rigidbody) -> bool {
    &&& v3_abs_le(rb.linear_velocity, 0x10_0000)
    &&& v3_abs_le(rb.angular_velocity, 0x1_0000)
    &&& SCALE <= rb.mass <= 0x10_0000
    &&& 0 <= rb.static_friction <= 2 * SCALE
    &&& 0 <= rb.dynamic_friction <= 2 * SCALE
    &&& SCALE <= rb.inertia_tensor.x <= 0x100_0000_0000
    &&& SCALE <= rb.inertia_tensor.y <= 0x100_0000_0000
    &&& SCALE <= rb.inertia_tensor.z <= 0x100_0000_0000
}

/// Every quantity of the contact is within the window the exact impulse
/// arithmetic accepts.  A contact outside the window is skipped rather than
/// resolved with wrapped values: a numeric-degeneracy guard in the same
/// spirit as the projection's zero threshold.
pub open spec fn reaction_in_window(
    o1: Object,
    o2: Object,
    ip: IntersectionPoint,
    t1: EulerTrig,
    t2: EulerTrig,
) -> bool {
    &&& crate::matrix::trig_wf(t1) && crate::matrix::trig_wf(t2)
    &&& v3_abs_le(ip.position, 0x200_0000)
    &&& v3_abs_le(ip.normal, 0x1000)
    &&& rb_react_ok(o1.rigidbody->0) && rb_react_ok(o2.rigidbody->0)
    &&& v3_abs_le(o1.mesh_renderable->0.vertices_center, 0x100_0000)
    &&& v3_abs_le(o1.transform->0.position, 0x100_0000)
    &&& v3_abs_le(o2.mesh_renderable->0.vertices_center, 0x100_0000)
    &&& v3_abs_le(o2.transform->0.position, 0x100_0000)
    &&& v3_abs_le(v3_sub(ip.position, obj_center(o1, t1)), 0x10_0000)
    &&& v3_abs_le(v3_sub(ip.position, obj_center(o2, t2)), 0x10_0000)
}

/// The momentum of a body at a contact offset: linear velocity plus the
/// angular contribution, scaled by the mass.
pub open spec fn momentum_at(rb: Rigidbody, offset: V3) -> V3 {
    v3_scale(v3_add(rb.linear_velocity, v3_cross(rb.angular_velocity, offset)), rb.mass as int)
}

/// The friction impulse for one body: the full tangential momentum while it
/// is within the static-friction budget, else a dynamic-friction impulse
/// opposing the tangential motion.
pub open spec fn friction_impulse(tang: V3, mag_n: int, sf: int, df: int) -> V3 {
    if v3_mag(tang) <= fxmul(mag_n, sf) {
        v3_neg(tang)
    } else {
        v3_scale(v3_neg(v3_norm(tang)), fxmul(mag_n, df))
    }
}

/// The two bodies after resolving one contact: normal momentum exchanged and
/// friction applied, through the masses and inverse inertia tensors, with
/// locked axes left alone.
pub open spec fn reaction_result(
    o1: Object,
    o2: Object,
    ip: IntersectionPoint,
    t1: EulerTrig,
    t2: EulerTrig,
) -> (Rigidbody, Rigidbody) {
    let rb1 = o1.rigidbody->0;
    let rb2 = o2.rigidbody->0;
    let off1 = v3_sub(ip.position, obj_center(o1, t1));
    let off2 = v3_sub(ip.position, obj_center(o2, t2));
    let p1 = momentum_at(rb1, off1);
    let p2 = momentum_at(rb2, off2);
    let n1 = v3_scale(ip.normal, v3_dot(p1, ip.normal));
    let n2 = v3_scale(ip.normal, v3_dot(p2, ip.normal));
    let n_total = v3_sub(n1, n2);
    let mag_n = v3_mag(n_total);
    let tang1 = v3_sub(p1, n1);
    let tang2 = v3_sub(p2, n2);
    let f1 = friction_impulse(tang1, mag_n, rb1.static_friction as int,
        rb1.dynamic_friction as int);
    let f2 = friction_impulse(tang2, mag_n, rb2.static_friction as int,
        rb2.dynamic_friction as int);
    let impulse1 = v3_sub(v3_add(v3_add(v3_neg(n1), n2), f1), f2);
    let impulse2 = v3_sub(v3_add(v3_add(v3_neg(n2), n1), f2), f1);
    (apply_impulse(rb1, off1, impulse1), apply_impulse(rb2, off2, impulse2))
}

/// One body after taking an impulse at an offset.
pub open spec fn apply_impulse(rb: Rigidbody, offset: V3, impulse: V3) -> Rigidbody {
    Rigidbody {
        linear_velocity: if rb.lock_movement {
            rb.linear_velocity
        } else {
            v3_add(rb.linear_velocity, v3_divs(impulse, rb.mass as int))
        },
        angular_velocity: if rb.lock_rotation {
            rb.angular_velocity
        } else {
            v3_add(
                rb.angular_velocity,
                v3_hadamard(v3_cross(offset, impulse), v3_inverse(rb.inertia_tensor)),
            )
        },
        ..rb
    }
}

/// The entity with its rigid body replaced.
pub open spec fn with_rigidbody(obj: Object, rb: Rigidbody) -> Object {
    Object { rigidbody: Some(rb), ..obj }
}

/// The scene after resolving one contact; `trigs` holds each entity's
/// rotation trig triple, in id order.
pub open spec fn react_one(objs: Seq<Object>, trigs: Seq<EulerTrig>, ci: CollisionInfo) -> Seq<
    Object,
> {
    let i1 = ci.obj_1 as int;
    let i2 = ci.obj_2 as int;
    if contact_entities_ok(objs, ci) && reaction_in_window(objs[i1], objs[i2],
        ci.intersection_point, trigs[i1], trigs[i2]) {
        let rbs = reaction_result(objs[i1], objs[i2], ci.intersection_point, trigs[i1],
            trigs[i2]);
        objs.update(i1, with_rigidbody(objs[i1], rbs.0)).update(i2, with_rigidbody(objs[i2],
            rbs.1))
    } else {
        objs
    }
}

/// The scene after resolving the first `k` contacts in order.
pub open spec fn react_all(
    objs: Seq<Object>,
    trigs: Seq<EulerTrig>,
    collisions: Seq<CollisionInfo>,
    k: int,
) -> Seq<Object>
    decreases k,
{
    if k <= 0 {
        objs
    } else {
        react_one(react_all(objs, trigs, collisions, k - 1), trigs, collisions[k - 1])
    }
}

/// Resolving a contact changes only rigid-body payloads: the scene keeps its
/// length, and every entity keeps its transform, mesh and the presence of
/// its rigid body.
pub proof fn lemma_react_one_shape(objs: Seq<Object>, trigs: Seq<EulerTrig>, ci: CollisionInfo)
    ensures
        react_one(objs, trigs, ci).len() == objs.len(),
        forall|j: int|
            0 <= j < objs.len() ==> (#[trigger] react_one(objs, trigs, ci)[j]).transform
                == objs[j].transform && react_one(objs, trigs, ci)[j].mesh_renderable
                == objs[j].mesh_renderable && (react_one(objs, trigs, ci)[j].rigidbody is Some
                <==> objs[j].rigidbody is Some),
{
}

/// Every entity taking part in collision detection carries the components
/// resolution reads: without them a detected contact would be a
/// scene-construction error.
pub open spec fn collidable_bodies_ok(objs: Seq<Object>) -> bool {
    forall|k: int|
        0 <= k < objs.len() && crate::collision::is_collidable(#[trigger] objs[k])
            ==> objs[k].rigidbody is Some && objs[k].transform is Some
            && objs[k].mesh_renderable is Some
}

/// The physics system: integrates bodies, detects collisions and resolves
/// them with impulses, with gravity configured at construction.
pub struct PhysicsManager {
    pub collision_manager: CollisionManager,
    /// Gravitational acceleration along z, fixed point (negative is down).
    pub gravity: i64,
}

impl Default for PhysicsManager {
    /// A manager with the stock gravity of -5 units per second squared.
    fn default() -> (r: PhysicsManager)
        ensures
            r.gravity == -5 * SCALE,
    {
        PhysicsManager { collision_manager: CollisionManager, gravity: -5 * SCALE }
    }
}

impl PhysicsManager {
    pub fn new(gravity: i64) -> (r: PhysicsManager)
        ensures
            r.gravity == gravity,
    {
        PhysicsManager { collision_manager: CollisionManager, gravity }
    }

    /// One full physics tick: every unlocked body is integrated over `dt`,
    /// then collisions are detected on the integrated scene and resolved in
    /// order.  A mixed mesh/sphere pair aborts with an error after the
    /// integration.
    pub fn tick(
        &self,
        object_manager: &mut ObjectManager,
        trigs: &Vec<EulerTrig>,
        dt: i64,
    ) -> (r: Result<(), CollisionError>)
        requires
            phys_tick_ok(old(object_manager).objects_seq(), dt as int, self.gravity as int),
            scene_collision_ok(integrated_objects(old(object_manager).objects_seq(), dt as int,
                self.gravity as int), trigs@),
            collidable_bodies_ok(integrated_objects(old(object_manager).objects_seq(), dt as int,
                self.gravity as int)),
        ensures
            ({
                let mid = integrated_objects(old(object_manager).objects_seq(), dt as int,
                    self.gravity as int);
                match r {
                    Ok(_) => final(object_manager).objects_seq() == react_all(mid, trigs@,
                        scan_rows(mid, trigs@, 0), scan_rows(mid, trigs@, 0).len() as int)
                        && (forall|
                        a: int,
                        b: int,
                    |
                        0 <= a < mid.len() && 0 <= b < mid.len() && a != b ==> !crate::collision::mixed_pair(
                            #[trigger] mid[a],
                            #[trigger] mid[b],
                        )),
                    Err(e) => e == CollisionError::UnsupportedPair
                        && final(object_manager).objects_seq() == mid && (exists|a: int, b: int|
                        0 <= a < mid.len() && 0 <= b < mid.len() && a != b
                            && crate::collision::mixed_pair(mid[a], mid[b])),
                }
            }),
    {
        let ghost mid = integrated_objects(old(object_manager).objects_seq(), dt as int,
            self.gravity as int);
        self.integrate(object_manager, dt);
        let collisions = match self.collision_manager.calculate(object_manager, trigs) {
            Ok(c) => c,
            Err(e) => {
                return Err(e);
            },
        };
        let nn = object_manager.len();
        proof {
            crate::collision::lemma_scan_rows_collidable(object_manager.objects_seq(), trigs@, 0);
            assert forall|k: int|
                0 <= k < collisions@.len() implies contact_entities_ok(
                object_manager.objects_seq(),
                #[trigger] collisions@[k],
            ) by {
                assert(crate::collision::contact_ids_collidable(object_manager.objects_seq(),
                    collisions@[k]));
            }
        }
        self.react_to_collisions(&collisions, object_manager, trigs);
        Ok(())
    }

    /// The integration pass: applies each body's tick and displaces its
    /// transform by the updated velocities times `dt`.
    fn integrate(&self, object_manager: &mut ObjectManager, dt: i64)
        requires
            phys_tick_ok(old(object_manager).objects_seq(), dt as int, self.gravity as int),
        ensures
            final(object_manager).objects_seq() == integrated_objects(
                old(object_manager).objects_seq(),
                dt as int,
                self.gravity as int,
            ),
    {
        let n = object_manager.len();
        let mut k: usize = 0;
        while k < n
            invariant
                phys_tick_ok(old(object_manager).objects_seq(), dt as int, self.gravity as int),
                k <= n,
                n == old(object_manager).objects_seq().len(),
                object_manager.objects_seq().len() == n,
                forall|j: int|
                    0 <= j < k ==> object_manager.objects_seq()[j] == integrate_object(
                        #[trigger] old(object_manager).objects_seq()[j],
                        dt as int,
                        self.gravity as int,
                    ),
                forall|j: int|
                    k <= j < n ==> object_manager.objects_seq()[j] == old(
                        object_manager,
                    ).objects_seq()[j],
            decreases n - k,
        {
            let ghost pre = object_manager.objects_seq();
            let obj = object_manager.get_object_mut(k as u64);
            if obj.rigidbody.is_some() && obj.transform.is_some() {
                let ghost rb0 = obj.rigidbody->0;
                let deltas = match &mut obj.rigidbody {
                    Some(rb) => rb.tick(dt, self.gravity),
                    None => unreached(),
                };
                proof {
                    crate::rigidbody::lemma_tick_products(rb0, dt as int, self.gravity as int);
                }
                match &mut obj.transform {
                    Some(tr) => {
                        tr.position = tr.position.add(&deltas.0);
                        tr.rotation = tr.rotation.add(&deltas.1);
                    },
                    None => unreached(),
                }
            }
            proof {
                assert(object_manager.objects_seq() =~= pre.update(k as int, integrate_object(
                    old(object_manager).objects_seq()[k as int], dt as int,
                    self.gravity as int)));
            }
            k += 1;
        }
        proof {
            assert(object_manager.objects_seq() =~= integrated_objects(
                old(object_manager).objects_seq(), dt as int, self.gravity as int));
        }
    }

    /// The resolution pass: each contact is resolved in order through the
    /// impulse solver.  Contacts must name distinct live entities carrying a
    /// rigid body, transform and mesh — a missing sibling component is a
    /// scene-construction error excluded by precondition.  A contact whose
    /// quantities fall outside the window the exact arithmetic accepts is
    /// skipped, a numeric-degeneracy guard like the projection's zero
    /// threshold.
    pub fn react_to_collisions(
        &self,
        collisions: &Vec<CollisionInfo>,
        object_manager: &mut ObjectManager,
        trigs: &Vec<EulerTrig>,
    )
        requires
            trigs@.len() == old(object_manager).objects_seq().len(),
            forall|k: int|
                0 <= k < collisions@.len() ==> contact_entities_ok(
                    old(object_manager).objects_seq(),
                    #[trigger] collisions@[k],
                ),
        ensures
            final(object_manager).objects_seq() == react_all(old(object_manager).objects_seq(),
                trigs@, collisions@, collisions@.len() as int),
    {
        let n = collisions.len();
        let mut k: usize = 0;
        while k < n
            invariant
                k <= n,
                n == collisions@.len(),
                trigs@.len() == old(object_manager).objects_seq().len(),
                object_manager.objects_seq() == react_all(old(object_manager).objects_seq(),
                    trigs@, collisions@, k as int),
                forall|j: int|
                    0 <= j < collisions@.len() ==> contact_entities_ok(
                        old(object_manager).objects_seq(),
                        #[trigger] collisions@[j],
                    ),
                object_manager.objects_seq().len() == old(object_manager).objects_seq().len(),
                forall|j: int|
                    0 <= j < collisions@.len() ==> contact_entities_ok(
                        object_manager.objects_seq(),
                        #[trigger] collisions@[j],
                    ),
            decreases n - k,
        {
            let ci = collisions[k];
            let ghost pre = object_manager.objects_seq();
            self.react_one_exec(&ci, object_manager, trigs);
            proof {
                lemma_react_one_shape(pre, trigs@, ci);
            }
            k += 1;
        }
    }

    /// Resolves a single contact.
    fn react_one_exec(
        &self,
        ci: &CollisionInfo,
        object_manager: &mut ObjectManager,
        trigs: &Vec<EulerTrig>,
    )
        requires
            trigs@.len() == old(object_manager).objects_seq().len(),
            contact_entities_ok(old(object_manager).objects_seq(), *ci),
        ensures
            final(object_manager).objects_seq() == react_one(old(object_manager).objects_seq(),
                trigs@, *ci),
    {
        let o1 = object_manager.get_object(ci.obj_1);
        let o2 = object_manager.get_object(ci.obj_2);
        let tl = trigs.len();
        let t1 = trigs[ci.obj_1 as usize];
        let t2 = trigs[ci.obj_2 as usize];
        if !check_window(o1, o2, &ci.intersection_point, &t1, &t2) {
            return ;
        }
        let (off1, off2, impulse1, impulse2) = compute_reaction(o1, o2, &ci.intersection_point,
            &t1, &t2);
        let ghost mid = old(object_manager).objects_seq();
        let ghost rbs = reaction_result(mid[ci.obj_1 as int], mid[ci.obj_2 as int],
            ci.intersection_point, trigs@[ci.obj_1 as int], trigs@[ci.obj_2 as int]);
        let w1 = object_manager.get_object_mut(ci.obj_1);
        apply_impulse_exec(
            match &mut w1.rigidbody {
                Some(rb) => rb,
                None => unreached(),
            },
            &off1,
            &impulse1,
        );
        proof {
            assert(*w1 == with_rigidbody(mid[ci.obj_1 as int], rbs.0));
        }
        let w2 = object_manager.get_object_mut(ci.obj_2);
        apply_impulse_exec(
            match &mut w2.rigidbody {
                Some(rb) => rb,
                None => unreached(),
            },
            &off2,
            &impulse2,
        );
        proof {
            assert(*w2 == with_rigidbody(mid[ci.obj_2 as int], rbs.1));
            assert(object_manager.objects_seq() =~= react_one(mid, trigs@, *ci));
        }
    }
}

/// Computes the contact offsets and the two impulses of a resolvable
/// contact.
#[verifier::rlimit(100)]
fn compute_reaction(
    o1: &Object,
    o2: &Object,
    ip: &IntersectionPoint,
    t1: &EulerTrig,
    t2: &EulerTrig,
) -> (r: (V3, V3, V3, V3))
    requires
        reaction_components_ok(*o1, *o2),
        reaction_in_window(*o1, *o2, *ip, *t1, *t2),
    ensures
        r.0 == v3_sub(ip.position, obj_center(*o1, *t1)),
        r.1 == v3_sub(ip.position, obj_center(*o2, *t2)),
        v3_abs_le(r.0, 0x10_0000),
        v3_abs_le(r.1, 0x10_0000),
        v3_abs_le(r.2, 0x8_0000_0000_0000),
        v3_abs_le(r.3, 0x8_0000_0000_0000),
        reaction_result(*o1, *o2, *ip, *t1, *t2) == (
            apply_impulse(o1.rigidbody->0, r.0, r.2),
            apply_impulse(o2.rigidbody->0, r.1, r.3),
        ),
{
    let rb1 = match &o1.rigidbody {
        Some(rb) => *rb,
        None => unreached(),
    };
    let rb2 = match &o2.rigidbody {
        Some(rb) => *rb,
        None => unreached(),
    };
    proof {
        lemma_center_bounds(*o1, *t1);
        lemma_center_bounds(*o2, *t2);
    }
    let c1 = match (&o1.mesh_renderable, &o1.transform) {
        (Some(m), Some(tr)) => m.calculate_center(tr, t1),
        _ => unreached(),
    };
    let c2 = match (&o2.mesh_renderable, &o2.transform) {
        (Some(m), Some(tr)) => m.calculate_center(tr, t2),
        _ => unreached(),
    };
    let off1 = ip.position.sub(&c1);
    let off2 = ip.position.sub(&c2);
    proof {
        lemma_reaction_bounds(rb1, off1, ip.normal);
        lemma_reaction_bounds(rb2, off2, ip.normal);
    }
    let p1 = rb1.linear_velocity.add(&rb1.angular_velocity.cross(&off1)).scale(rb1.mass);
    let p2 = rb2.linear_velocity.add(&rb2.angular_velocity.cross(&off2)).scale(rb2.mass);
    let d1 = p1.dot(&ip.normal);
    let d2 = p2.dot(&ip.normal);
    let n1 = ip.normal.scale(d1);
    let n2 = ip.normal.scale(d2);
    let n_total = n1.sub(&n2);
    let tang1 = p1.sub(&n1);
    let tang2 = p2.sub(&n2);
    let mag_n = n_total.mag();
    proof {
        lemma_mag_bound(n_total, mag_n as int, 0x6000_0000_0000);
    }
    let f1 = friction_exec(&tang1, mag_n, rb1.static_friction, rb1.dynamic_friction);
    let f2 = friction_exec(&tang2, mag_n, rb2.static_friction, rb2.dynamic_friction);
    let impulse1 = n1.neg().add(&n2).add(&f1).sub(&f2);
    let impulse2 = n2.neg().add(&n1).add(&f2).sub(&f1);
    (off1, off2, impulse1, impulse2)
}

/// Whether a contact's quantities are within the accepted window: mirrors
/// `reaction_in_window`.
fn check_window(
    o1: &Object,
    o2: &Object,
    ip: &IntersectionPoint,
    t1: &EulerTrig,
    t2: &EulerTrig,
) -> (r: bool)
    requires
        reaction_components_ok(*o1, *o2),
    ensures
        r == reaction_in_window(*o1, *o2, *ip, *t1, *t2),
{
    if !(trig_wf_exec(t1) && trig_wf_exec(t2)) {
        return false;
    }
    if !(abs_le(ip.position.x, 0x200_0000) && abs_le(ip.position.y, 0x200_0000) && abs_le(
        ip.position.z,
        0x200_0000,
    ) && abs_le(ip.normal.x, 0x1000) && abs_le(ip.normal.y, 0x1000) && abs_le(
        ip.normal.z,
        0x1000,
    )) {
        return false;
    }
    let rb1 = match &o1.rigidbody {
        Some(rb) => rb,
        None => unreached(),
    };
    let rb2 = match &o2.rigidbody {
        Some(rb) => rb,
        None => unreached(),
    };
    if !(rb_ok_exec(rb1) && rb_ok_exec(rb2)) {
        return false;
    }
    let (m1, tr1) = match (&o1.mesh_renderable, &o1.transform) {
        (Some(m), Some(t)) => (m, t),
        _ => unreached(),
    };
    let (m2, tr2) = match (&o2.mesh_renderable, &o2.transform) {
        (Some(m), Some(t)) => (m, t),
        _ => unreached(),
    };
    if !(v3_abs_le_exec(&m1.vertices_center, 0x100_0000) && v3_abs_le_exec(&tr1.position,
        0x100_0000) && v3_abs_le_exec(&m2.vertices_center, 0x100_0000) && v3_abs_le_exec(
        &tr2.position,
        0x100_0000,
    )) {
        return false;
    }
    proof {
        lemma_center_bounds(*o1, *t1);
        lemma_center_bounds(*o2, *t2);
    }
    let c1 = m1.calculate_center(tr1, t1);
    let c2 = m2.calculate_center(tr2, t2);
    let off1 = ip.position.sub(&c1);
    let off2 = ip.position.sub(&c2);
    v3_abs_le_exec(&off1, 0x10_0000) && v3_abs_le_exec(&off2, 0x10_0000)
}

/// The trig triple is well formed: every sine and cosine within one.
fn trig_wf_exec(t: &EulerTrig) -> (r: bool)
    ensures
        r == crate::matrix::trig_wf(*t),
{
    v3_abs_le_exec(&t.sin, SCALE) && v3_abs_le_exec(&t.cos, SCALE)
}

/// A bounded vertex average, rotated by a well-formed trig triple and
/// displaced by a bounded position, stays within a quarter of the world
/// bound; the sums and products along the way are in range.
proof fn lemma_center_bounds(obj: Object, t: EulerTrig)
    requires
        crate::matrix::trig_wf(t),
        obj.mesh_renderable is Some,
        obj.transform is Some,
        v3_abs_le(obj.mesh_renderable->0.vertices_center, 0x100_0000),
        v3_abs_le(obj.transform->0.position, 0x100_0000),
    ensures
        v3_abs_le(crate::matrix::rotate_spec(obj.mesh_renderable->0.vertices_center, t),
            0x600_0000),
        v3_abs_le(obj_center(obj, t), 0x700_0000),
{
    crate::matrix::lemma_trig_bound(t);
    crate::matrix::lemma_mul_v3_bound(crate::matrix::rotation_matrix_spec(t),
        obj.mesh_renderable->0.vertices_center, 2 * SCALE as int, 0x100_0000);
    assert(3 * (2 * SCALE as int) * 0x100_0000 == (6 * 0x100_0000int) * SCALE as int)
        by (nonlinear_arith);
    lemma_tdiv_cancel(6 * 0x100_0000int, SCALE as int);
}

/// |x| <= b for fixed-point scalars.
fn abs_le(x: i64, b: i64) -> (r: bool)
    requires
        0 <= b,
    ensures
        r == (iabs(x as int) <= b),
{
    -b <= x && x <= b
}

/// Component-wise |v| <= b.
fn v3_abs_le_exec(v: &V3, b: i64) -> (r: bool)
    requires
        0 <= b,
    ensures
        r == v3_abs_le(*v, b as int),
{
    abs_le(v.x, b) && abs_le(v.y, b) && abs_le(v.z, b)
}

/// The body's state is within the accepted window: mirrors `rb_react_ok`.
fn rb_ok_exec(rb: &Rigidbody) -> (r: bool)
    ensures
        r == rb_react_ok(*rb),
{
    v3_abs_le_exec(&rb.linear_velocity, 0x10_0000) && v3_abs_le_exec(&rb.angular_velocity,
        0x1_0000) && SCALE <= rb.mass && rb.mass <= 0x10_0000 && 0 <= rb.static_friction
        && rb.static_friction <= 2 * SCALE && 0 <= rb.dynamic_friction && rb.dynamic_friction <= 2
        * SCALE && SCALE <= rb.inertia_tensor.x && rb.inertia_tensor.x <= 0x100_0000_0000 && SCALE
        <= rb.inertia_tensor.y && rb.inertia_tensor.y <= 0x100_0000_0000 && SCALE
        <= rb.inertia_tensor.z && rb.inertia_tensor.z <= 0x100_0000_0000
}

/// The friction impulse for one body: mirrors `friction_impulse`.
fn friction_exec(tang: &V3, mag_n: i64, sf: i64, df: i64) -> (r: V3)
    requires
        v3_abs_le(*tang, 0x6000_0000_0000),
        0 <= mag_n <= 0x1_0000_0000_0000,
        0 <= sf <= 2 * SCALE,
        0 <= df <= 2 * SCALE,
    ensures
        r == friction_impulse(*tang, mag_n as int, sf as int, df as int),
        v3_abs_le(r, 0x2_0000_0000_0000),
{
    proof {
        lemma_mul_bound(mag_n as int, sf as int, 0x1_0000_0000_0000, 2 * SCALE as int);
        lemma_mul_bound(mag_n as int, df as int, 0x1_0000_0000_0000, 2 * SCALE as int);
        lemma_tdiv_mono(mag_n * sf, SCALE as int, 0x1_0000_0000_0000int * (2 * SCALE as int));
        lemma_tdiv_mono(mag_n * df, SCALE as int, 0x1_0000_0000_0000int * (2 * SCALE as int));
    }
    let fs = crate::fixed::mul_fx(mag_n, sf);
    let fd = crate::fixed::mul_fx(mag_n, df);
    let mt = tang.mag();
    if mt <= fs {
        tang.neg()
    } else {
        proof {
            assert(v3_sq_sum(*tang) >= 1) by (nonlinear_arith)
                requires
                    is_isqrt(mt as int, v3_sq_sum(*tang)),
                    mt >= 1,
            ;
        }
        let nt = tang.norm();
        let ntn = nt.neg();
        proof {
            lemma_mul_bound(ntn.x as int, fd as int, SCALE as int, 0x2_0000_0000_0000);
            lemma_mul_bound(ntn.y as int, fd as int, SCALE as int, 0x2_0000_0000_0000);
            lemma_mul_bound(ntn.z as int, fd as int, SCALE as int, 0x2_0000_0000_0000);
            lemma_tdiv_mono(ntn.x * fd, SCALE as int, SCALE as int * 0x2_0000_0000_0000);
            lemma_tdiv_mono(ntn.y * fd, SCALE as int, SCALE as int * 0x2_0000_0000_0000);
            lemma_tdiv_mono(ntn.z * fd, SCALE as int, SCALE as int * 0x2_0000_0000_0000);
        }
        ntn.scale(fd)
    }
}

/// Applies an impulse to one body through its mass and inverse inertia.
fn apply_impulse_exec(rb: &mut Rigidbody, offset: &V3, impulse: &V3)
    requires
        rb_react_ok(*old(rb)),
        v3_abs_le(*offset, 0x10_0000),
        v3_abs_le(*impulse, 0x8_0000_0000_0000),
    ensures
        *final(rb) == apply_impulse(*old(rb), *offset, *impulse),
{
    proof {
        lemma_apply_impulse_bounds(*rb, *offset, *impulse);
    }
    if !rb.lock_movement {
        let dv = impulse.div_scale(rb.mass);
        rb.linear_velocity = rb.linear_velocity.add(&dv);
    }
    if !rb.lock_rotation {
        let torque = offset.cross(impulse);
        let inv = rb.inertia_tensor.inverse();
        let da = torque.hadamard_product(&inv);
        rb.angular_velocity = rb.angular_velocity.add(&da);
    }
}

/// Every product of the impulse application is in range.
proof fn lemma_apply_impulse_bounds(rb: Rigidbody, offset: V3, impulse: V3)
    requires
        rb_react_ok(rb),
        v3_abs_le(offset, 0x10_0000),
        v3_abs_le(impulse, 0x8_0000_0000_0000),
    ensures
        v3_abs_le(v3_divs(impulse, rb.mass as int), 0x8_0000_0000_0000),
        v3_abs_le(v3_cross(offset, impulse), 0x4800_0000_0000_0000),
        v3_abs_le(v3_inverse(rb.inertia_tensor), SCALE as int),
        v3_abs_le(
            v3_hadamard(v3_cross(offset, impulse), v3_inverse(rb.inertia_tensor)),
            0x4800_0000_0000_0000,
        ),
        iabs(fxdiv(impulse.x as int, rb.mass as int)) <= 0x8_0000_0000_0000,
        iabs(fxdiv(impulse.y as int, rb.mass as int)) <= 0x8_0000_0000_0000,
        iabs(fxdiv(impulse.z as int, rb.mass as int)) <= 0x8_0000_0000_0000,
        iabs(fxmul(v3_cross(offset, impulse).x as int, v3_inverse(rb.inertia_tensor).x as int))
            <= 0x4800_0000_0000_0000,
        iabs(fxmul(v3_cross(offset, impulse).y as int, v3_inverse(rb.inertia_tensor).y as int))
            <= 0x4800_0000_0000_0000,
        iabs(fxmul(v3_cross(offset, impulse).z as int, v3_inverse(rb.inertia_tensor).z as int))
            <= 0x4800_0000_0000_0000,
{
    lemma_fxdiv_shrinks(impulse.x as int, rb.mass as int, 0x8_0000_0000_0000);
    lemma_fxdiv_shrinks(impulse.y as int, rb.mass as int, 0x8_0000_0000_0000);
    lemma_fxdiv_shrinks(impulse.z as int, rb.mass as int, 0x8_0000_0000_0000);
    lemma_cross_bound(offset, impulse, 0x10_0000, 0x8_0000_0000_0000);
    assert((2 * (0x10_0000int * 0x8_0000_0000_0000)) / SCALE as int <= 0x4800_0000_0000_0000);
    lemma_fxdiv_shrinks(SCALE as int, rb.inertia_tensor.x as int, SCALE as int);
    lemma_fxdiv_shrinks(SCALE as int, rb.inertia_tensor.y as int, SCALE as int);
    lemma_fxdiv_shrinks(SCALE as int, rb.inertia_tensor.z as int, SCALE as int);
    let tq = v3_cross(offset, impulse);
    let inv = v3_inverse(rb.inertia_tensor);
    lemma_mul_bound(tq.x as int, inv.x as int, 0x4800_0000_0000_0000, SCALE as int);
    lemma_mul_bound(tq.y as int, inv.y as int, 0x4800_0000_0000_0000, SCALE as int);
    lemma_mul_bound(tq.z as int, inv.z as int, 0x4800_0000_0000_0000, SCALE as int);
    lemma_tdiv_mono(tq.x * inv.x, SCALE as int, 0x4800_0000_0000_0000int * SCALE as int);
    lemma_tdiv_mono(tq.y * inv.y, SCALE as int, 0x4800_0000_0000_0000int * SCALE as int);
    lemma_tdiv_mono(tq.z * inv.z, SCALE as int, 0x4800_0000_0000_0000int * SCALE as int);
    assert((0x4800_0000_0000_0000int * SCALE as int) / SCALE as int == 0x4800_0000_0000_0000int)
        by {
        lemma_tdiv_cancel(0x4800_0000_0000_0000int, SCALE as int);
    }
}

/// A fixed-point quotient by a divisor of at least one never grows.
proof fn lemma_fxdiv_shrinks(a: int, b: int, ba: int)
    requires
        b >= SCALE,
        iabs(a) <= ba,
    ensures
        iabs(fxdiv(a, b)) <= ba,
{
    lemma_tdiv_le(a * SCALE, b);
    assert(iabs(a * SCALE) == iabs(a) * SCALE) by (nonlinear_arith);
    vstd::arithmetic::div_mod::lemma_div_is_ordered_by_denominator(iabs(a) * SCALE, SCALE as int,
        b);
    vstd::arithmetic::div_mod::lemma_div_is_ordered(iabs(a) * SCALE, ba * SCALE, SCALE as int);
    assert(iabs(a) * SCALE <= ba * SCALE) by (nonlinear_arith)
        requires
            iabs(a) <= ba,
    ;
    lemma_tdiv_cancel(ba, SCALE as int);
}

/// Component bound on a fixed-point cross product.
proof fn lemma_cross_bound(a: V3, b: V3, ba: int, bb: int)
    requires
        0 <= ba,
        0 <= bb,
        v3_abs_le(a, ba),
        v3_abs_le(b, bb),
    ensures
        v3_abs_le(v3_cross(a, b), (2 * (ba * bb)) / SCALE as int),
{
    lemma_mul_bound(a.y as int, b.z as int, ba, bb);
    lemma_mul_bound(a.z as int, b.y as int, ba, bb);
    lemma_mul_bound(a.z as int, b.x as int, ba, bb);
    lemma_mul_bound(a.x as int, b.z as int, ba, bb);
    lemma_mul_bound(a.x as int, b.y as int, ba, bb);
    lemma_mul_bound(a.y as int, b.x as int, ba, bb);
    lemma_tdiv_mono(a.y * b.z - a.z * b.y, SCALE as int, 2 * (ba * bb));
    lemma_tdiv_mono(a.z * b.x - a.x * b.z, SCALE as int, 2 * (ba * bb));
    lemma_tdiv_mono(a.x * b.y - a.y * b.x, SCALE as int, 2 * (ba * bb));
}

/// Every product of the momentum and impulse computation is in range.
proof fn lemma_reaction_bounds(rb: Rigidbody, off: V3, normal: V3)
    requires
        rb_react_ok(rb),
        v3_abs_le(off, 0x10_0000),
        v3_abs_le(normal, 0x1000),
    ensures
        v3_abs_le(v3_cross(rb.angular_velocity, off), 0x900_0000),
        v3_abs_le(v3_add(rb.linear_velocity, v3_cross(rb.angular_velocity, off)), 0x1000_0000),
        v3_abs_le(momentum_at(rb, off), 0x80_0000_0000),
        iabs(v3_dot(momentum_at(rb, off), normal)) <= 0x800_0000_0000,
        v3_abs_le(v3_scale(normal, v3_dot(momentum_at(rb, off), normal)), 0x2800_0000_0000),
        iabs(fxmul(v3_add(rb.linear_velocity, v3_cross(rb.angular_velocity, off)).x as int,
            rb.mass as int)) <= 0x80_0000_0000,
        iabs(fxmul(v3_add(rb.linear_velocity, v3_cross(rb.angular_velocity, off)).y as int,
            rb.mass as int)) <= 0x80_0000_0000,
        iabs(fxmul(v3_add(rb.linear_velocity, v3_cross(rb.angular_velocity, off)).z as int,
            rb.mass as int)) <= 0x80_0000_0000,
        iabs(fxmul(normal.x as int, v3_dot(momentum_at(rb, off), normal))) <= 0x2800_0000_0000,
        iabs(fxmul(normal.y as int, v3_dot(momentum_at(rb, off), normal))) <= 0x2800_0000_0000,
        iabs(fxmul(normal.z as int, v3_dot(momentum_at(rb, off), normal))) <= 0x2800_0000_0000,
    {
    lemma_cross_bound(rb.angular_velocity, off, 0x1_0000, 0x10_0000);
    assert((2 * (0x1_0000int * 0x10_0000)) / SCALE as int <= 0x900_0000);
    let s = v3_add(rb.linear_velocity, v3_cross(rb.angular_velocity, off));
    lemma_mul_bound(s.x as int, rb.mass as int, 0x1000_0000, 0x10_0000);
    lemma_mul_bound(s.y as int, rb.mass as int, 0x1000_0000, 0x10_0000);
    lemma_mul_bound(s.z as int, rb.mass as int, 0x1000_0000, 0x10_0000);
    lemma_tdiv_mono(s.x * rb.mass, SCALE as int, 0x1000_0000int * 0x10_0000);
    lemma_tdiv_mono(s.y * rb.mass, SCALE as int, 0x1000_0000int * 0x10_0000);
    lemma_tdiv_mono(s.z * rb.mass, SCALE as int, 0x1000_0000int * 0x10_0000);
    let p = momentum_at(rb, off);
    lemma_mul_bound(p.x as int, normal.x as int, 0x80_0000_0000, 0x1000);
    lemma_mul_bound(p.y as int, normal.y as int, 0x80_0000_0000, 0x1000);
    lemma_mul_bound(p.z as int, normal.z as int, 0x80_0000_0000, 0x1000);
    lemma_tdiv_mono(p.x * normal.x + p.y * normal.y + p.z * normal.z, SCALE as int, 3
        * (0x80_0000_0000int * 0x1000));
    let d = v3_dot(p, normal);
    lemma_mul_bound(normal.x as int, d, 0x1000, 0x800_0000_0000);
    lemma_mul_bound(normal.y as int, d, 0x1000, 0x800_0000_0000);
    lemma_mul_bound(normal.z as int, d, 0x1000, 0x800_0000_0000);
    lemma_tdiv_mono(normal.x * d, SCALE as int, 0x1000int * 0x800_0000_0000);
    lemma_tdiv_mono(normal.y * d, SCALE as int, 0x1000int * 0x800_0000_0000);
    lemma_tdiv_mono(normal.z * d, SCALE as int, 0x1000int * 0x800_0000_0000);
}

/// An integer square root of a bounded squared sum is bounded.
proof fn lemma_mag_bound(v: V3, m: int, bv: int)
    requires
        v3_abs_le(v, bv),
        0 <= bv <= 0x4000_0000_0000_0000,
        is_isqrt(m, v3_sq_sum(v)),
    ensures
        0 <= m <= 2 * bv,
{
    lemma_mul_bound(v.x as int, v.x as int, bv, bv);
    lemma_mul_bound(v.y as int, v.y as int, bv, bv);
    lemma_mul_bound(v.z as int, v.z as int, bv, bv);
    assert(m <= 2 * bv) by (nonlinear_arith)
        requires
            is_isqrt(m, v3_sq_sum(v)),
            v3_sq_sum(v) <= 3 * (bv * bv),
            bv >= 0,
    ;
}

} // verus!
