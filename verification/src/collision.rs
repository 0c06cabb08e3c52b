//! Pairwise collision detection: a brute-force scan over every entity pair
//! carrying a collider, producing at most one contact per unordered pair.

use vstd::prelude::*;

use crate::collider::{sphere_sphere_contact, world_vertex, IntersectionPoint, MeshCollider};
use crate::matrix::{trig_wf, EulerTrig};
use crate::object::{Object, ObjectManager};
use crate::ray::{obj_raycast_ok, object_hits, raycast_object, scene_raycast_ok};
use crate::raycast::HitInfo;
use crate::vector::{v3_abs_le, v3_add, v3_mag, v3_neg, v3_norm, v3_sq_sum, v3_sub, V3};
use crate::vertex::Vertex;

verus! {

/// One detected contact between two entities.
#[derive(Clone, Copy, Debug, PartialEq, Eq, Structural)]
pub struct CollisionInfo {
    pub intersection_point: IntersectionPoint,
    pub obj_1: u64,
    pub obj_2: u64,
}

/// A pair of colliders the detector has no test for.
#[derive(Clone, Copy, Debug, PartialEq, Eq, Structural)]
pub enum CollisionError {
    /// A mesh collider was paired with a sphere collider: that combination
    /// is not implemented, and the detector fails loudly rather than
    /// reporting no collision.
    UnsupportedPair,
}

/// The entity resolves collisions through its mesh collider.
pub open spec fn is_mesh_collidable(obj: Object) -> bool {
    obj.mesh_collider is Some
}

/// The entity resolves collisions through its sphere collider.
pub open spec fn is_sphere_collidable(obj: Object) -> bool {
    obj.sphere_collider is Some && obj.mesh_collider is None
}

/// The entity takes part in collision detection at all.
pub open spec fn is_collidable(obj: Object) -> bool {
    is_mesh_collidable(obj) || is_sphere_collidable(obj)
}

/// The two entities pair a mesh collider with a sphere collider.
pub open spec fn mixed_pair(oa: Object, ob: Object) -> bool {
    (is_mesh_collidable(oa) && is_sphere_collidable(ob)) || (is_sphere_collidable(oa)
        && is_mesh_collidable(ob))
}

/// The hits of the probe ray for vertex `k` of a mesh: from the placed
/// mesh's centroid (the vertex average, rotated and translated) through the
/// placed vertex, no farther than the vertex itself; no probe when the
/// vertex sits on the centroid.
pub open spec fn mesh_probe(
    vertices: Seq<Vertex>,
    k: int,
    st: EulerTrig,
    sp: V3,
    center: V3,
    other: Object,
    ot: EulerTrig,
) -> Seq<HitInfo> {
    let world = world_vertex(vertices[k], st, sp).position;
    let diff = v3_sub(world, center);
    if v3_sq_sum(diff) < 1 {
        Seq::empty()
    } else {
        object_hits(other, ot, center, v3_norm(diff), Some(v3_mag(diff) as i64))
    }
}

/// The mesh–mesh contact found from vertex `k` on: the first vertex whose
/// probe hits the other entity yields the hit's position with the normal
/// flipped toward this body.
pub open spec fn mesh_mesh_contact_from(
    vertices: Seq<Vertex>,
    k: int,
    st: EulerTrig,
    sp: V3,
    center: V3,
    other: Object,
    ot: EulerTrig,
) -> Option<IntersectionPoint>
    decreases vertices.len() - k,
{
    if k < 0 || k >= vertices.len() {
        None
    } else {
        let hits = mesh_probe(vertices, k, st, sp, center, other, ot);
        if hits.len() > 0 {
            Some(
                IntersectionPoint { position: hits[0].position, normal: v3_neg(hits[0].normal) },
            )
        } else {
            mesh_mesh_contact_from(vertices, k + 1, st, sp, center, other, ot)
        }
    }
}

/// Negation that mirrors the spec-level `v3_neg` for every value.
fn neg_wrap(v: &V3) -> (r: V3)
    ensures
        r == v3_neg(*v),
{
    #[verifier::truncate]
    let x = (-(v.x as i128)) as i64;
    #[verifier::truncate]
    let y = (-(v.y as i128)) as i64;
    #[verifier::truncate]
    let z = (-(v.z as i128)) as i64;
    V3 { x, y, z }
}

impl MeshCollider {
    /// Mesh–mesh contact: for each vertex of this mesh in order, a ray is
    /// cast from the mesh's centroid through the vertex, no farther than the
    /// vertex; the first vertex whose ray hits the other entity yields the
    /// contact, with the normal flipped to point from this body.
    pub fn intersects_mesh(
        &self,
        other: &MeshCollider,
        object_manager: &ObjectManager,
        self_trig: &EulerTrig,
        other_trig: &EulerTrig,
    ) -> (r: Option<IntersectionPoint>)
        requires
            crate::object::om_wf(*object_manager),
            trig_wf(*self_trig),
            trig_wf(*other_trig),
            self.object is Some,
            other.object is Some,
            self.object->0 < object_manager.objects_seq().len(),
            other.object->0 < object_manager.objects_seq().len(),
            ({
                let oa = object_manager.objects_seq()[self.object->0 as int];
                &&& oa.transform is Some
                &&& oa.mesh_renderable is Some
                &&& crate::collider::collision_mesh_ok(oa.mesh_renderable->0.vertices@,
                    oa.transform->0.position)
                &&& v3_abs_le(oa.mesh_renderable->0.vertices_center, 0x800_0000)
            }),
            obj_raycast_ok(object_manager.objects_seq()[other.object->0 as int],
                other.object->0 as int),
        ensures
            ({
                let oa = object_manager.objects_seq()[self.object->0 as int];
                let ob = object_manager.objects_seq()[other.object->0 as int];
                r == mesh_mesh_contact_from(oa.mesh_renderable->0.vertices@, 0, *self_trig,
                    oa.transform->0.position, v3_add(crate::matrix::rotate_spec(
                    oa.mesh_renderable->0.vertices_center, *self_trig),
                    oa.transform->0.position), ob, *other_trig)
            }),
    {
        let oa = self.get_object(object_manager);
        let ob = match other.object {
            Some(id) => object_manager.get_object(id),
            None => unreached(),
        };
        let (mesh, transform) = match (&oa.mesh_renderable, &oa.transform) {
            (Some(m), Some(tr)) => (m, tr),
            _ => {
                proof {
                    assert(false);
                }
                return None;
            },
        };
        proof {
            crate::matrix::lemma_trig_bound(*self_trig);
            crate::matrix::lemma_mul_v3_bound(crate::matrix::rotation_matrix_spec(*self_trig),
                mesh.vertices_center, 2 * crate::fixed::SCALE as int, 0x800_0000);
            assert(3 * (2 * crate::fixed::SCALE as int) * 0x800_0000 == (6 * 0x800_0000int)
                * crate::fixed::SCALE as int) by (nonlinear_arith);
            crate::fixed::lemma_tdiv_cancel(6 * 0x800_0000int, crate::fixed::SCALE as int);
        }
        let center = mesh.calculate_center(transform, self_trig);
        let ghost vs = mesh.vertices@;
        let n = mesh.vertices.len();
        let mut k: usize = 0;
        while k < n
            invariant
                trig_wf(*self_trig),
                trig_wf(*other_trig),
                k <= n,
                n == vs.len(),
                vs == mesh.vertices@,
                self.object is Some,
                self.object->0 < object_manager.objects_seq().len(),
                object_manager.objects_seq()[self.object->0 as int].mesh_renderable == Some(
                    *mesh),
                object_manager.objects_seq()[self.object->0 as int].transform == Some(
                    *transform),
                other.object is Some,
                ob.id_spec() == other.object->0,
                crate::collider::collision_mesh_ok(vs, transform.position),
                v3_abs_le(center, 0x3800_0000),
                center == v3_add(crate::matrix::rotate_spec(mesh.vertices_center, *self_trig),
                    transform.position),
                obj_raycast_ok(*ob, ob.id_spec() as int),
                ob.id_spec() < object_manager.objects_seq().len(),
                object_manager.objects_seq()[ob.id_spec() as int] == *ob,
                mesh_mesh_contact_from(vs, 0, *self_trig, transform.position, center, *ob,
                    *other_trig) == mesh_mesh_contact_from(vs, k as int, *self_trig,
                    transform.position, center, *ob, *other_trig),
            decreases n - k,
        {
            let wv = crate::collider::world_vertex_exec(&mesh.vertices[k], self_trig,
                &transform.position);
            let diff = wv.position.sub(&center);
            if diff.x == 0 && diff.y == 0 && diff.z == 0 {
                proof {
                    assert(v3_sq_sum(diff) == 0) by (nonlinear_arith)
                        requires
                            diff.x == 0,
                            diff.y == 0,
                            diff.z == 0,
                    ;
                }
            } else {
                proof {
                    crate::raycast::lemma_nonzero_sq_sum(diff);
                }
                let dist = diff.mag();
                let dir = diff.norm();
                let hits = raycast_object(object_manager, ob, other_trig, center, dir,
                    Some(dist));
                proof {
                    assert(hits@ == mesh_probe(vs, k as int, *self_trig, transform.position,
                        center, *ob, *other_trig));
                }
                if hits.len() > 0 {
                    let h = hits[0];
                    let contact = IntersectionPoint { position: h.position, normal: neg_wrap(
                        &h.normal) };
                    proof {
                        assert(mesh_mesh_contact_from(vs, k as int, *self_trig,
                            transform.position, center, *ob, *other_trig) == Some(contact));
                    }
                    return Some(contact);
                }
            }
            k += 1;
        }
        proof {
            assert(mesh_mesh_contact_from(vs, n as int, *self_trig, transform.position, center,
                *ob, *other_trig) is None);
        }
        None
    }
}

/// The contact of the ordered pair (a, b), dispatched by collider kind; no
/// contact when the kinds are mixed or one is missing.
pub open spec fn pair_contact(
    objs: Seq<Object>,
    trigs: Seq<EulerTrig>,
    a: int,
    b: int,
) -> Option<IntersectionPoint> {
    let oa = objs[a];
    let ob = objs[b];
    if is_mesh_collidable(oa) && is_mesh_collidable(ob) {
        mesh_mesh_contact_from(oa.mesh_renderable->0.vertices@, 0, trigs[a],
            oa.transform->0.position, v3_add(crate::matrix::rotate_spec(
            oa.mesh_renderable->0.vertices_center, trigs[a]), oa.transform->0.position), ob,
            trigs[b])
    } else if is_sphere_collidable(oa) && is_sphere_collidable(ob) {
        sphere_sphere_contact(oa.transform->0.position, oa.sphere_collider->0.radius as int,
            ob.transform->0.position, ob.sphere_collider->0.radius as int)
    } else {
        None
    }
}

/// The recorded entries for the unordered pair {a, b} (a < b): the ordered
/// contact (a, b) when it exists, else the ordered contact (b, a) when that
/// exists, else nothing.
pub open spec fn pair_entry(objs: Seq<Object>, trigs: Seq<EulerTrig>, a: int, b: int) -> Seq<
    CollisionInfo,
> {
    match pair_contact(objs, trigs, a, b) {
        Some(p) => seq![CollisionInfo { intersection_point: p, obj_1: a as u64, obj_2: b as u64 }],
        None => match pair_contact(objs, trigs, b, a) {
            Some(p) => seq![
                CollisionInfo { intersection_point: p, obj_1: b as u64, obj_2: a as u64 },
            ],
            None => Seq::empty(),
        },
    }
}

/// Entries of row `a`: unordered pairs {a, b} for b in [b0, n).
pub open spec fn scan_row(objs: Seq<Object>, trigs: Seq<EulerTrig>, a: int, b0: int) -> Seq<
    CollisionInfo,
>
    decreases objs.len() - b0,
{
    if b0 < 0 || b0 >= objs.len() {
        Seq::empty()
    } else {
        pair_entry(objs, trigs, a, b0) + scan_row(objs, trigs, a, b0 + 1)
    }
}

/// Entries of all rows from `a0` on.
pub open spec fn scan_rows(objs: Seq<Object>, trigs: Seq<EulerTrig>, a0: int) -> Seq<
    CollisionInfo,
>
    decreases objs.len() - a0,
{
    if a0 < 0 || a0 >= objs.len() {
        Seq::empty()
    } else {
        scan_row(objs, trigs, a0, a0 + 1) + scan_rows(objs, trigs, a0 + 1)
    }
}

/// A contact names two distinct live entities that both take part in
/// collision detection.
pub open spec fn contact_ids_collidable(objs: Seq<Object>, ci: CollisionInfo) -> bool {
    &&& ci.obj_1 < objs.len()
    &&& ci.obj_2 < objs.len()
    &&& ci.obj_1 != ci.obj_2
    &&& is_collidable(objs[ci.obj_1 as int])
    &&& is_collidable(objs[ci.obj_2 as int])
}

/// Each entry recorded for one unordered pair names that pair, in one order
/// or the other, and both entities are collidable.
proof fn lemma_pair_entry_collidable(objs: Seq<Object>, trigs: Seq<EulerTrig>, a: int, b: int)
    requires
        objs.len() <= 0xffff_ffff_ffff_ffff,
        0 <= a < objs.len(),
        0 <= b < objs.len(),
        a != b,
    ensures
        forall|i: int|
            0 <= i < pair_entry(objs, trigs, a, b).len() ==> contact_ids_collidable(objs,
                #[trigger] pair_entry(objs, trigs, a, b)[i]),
{
    let e = pair_entry(objs, trigs, a, b);
    if pair_contact(objs, trigs, a, b) is Some {
        assert(is_collidable(objs[a]) && is_collidable(objs[b])) by {
            if !(is_mesh_collidable(objs[a]) && is_mesh_collidable(objs[b])) && !(
            is_sphere_collidable(objs[a]) && is_sphere_collidable(objs[b])) {
                assert(pair_contact(objs, trigs, a, b) is None);
            }
        }
        assert(e.len() == 1 && e[0].obj_1 == a as u64 && e[0].obj_2 == b as u64);
        assert(e[0].obj_1 as int == a && e[0].obj_2 as int == b);
    } else if pair_contact(objs, trigs, b, a) is Some {
        assert(is_collidable(objs[b]) && is_collidable(objs[a])) by {
            if !(is_mesh_collidable(objs[b]) && is_mesh_collidable(objs[a])) && !(
            is_sphere_collidable(objs[b]) && is_sphere_collidable(objs[a])) {
                assert(pair_contact(objs, trigs, b, a) is None);
            }
        }
        assert(e.len() == 1 && e[0].obj_1 == b as u64 && e[0].obj_2 == a as u64);
        assert(e[0].obj_1 as int == b && e[0].obj_2 as int == a);
    } else {
        assert(e.len() == 0);
    }
}

/// Every entry of one scan row names a collidable pair.
proof fn lemma_scan_row_collidable(objs: Seq<Object>, trigs: Seq<EulerTrig>, a: int, b0: int)
    requires
        objs.len() <= 0xffff_ffff_ffff_ffff,
        0 <= a < objs.len(),
        a < b0,
    ensures
        forall|i: int|
            0 <= i < scan_row(objs, trigs, a, b0).len() ==> contact_ids_collidable(objs,
                #[trigger] scan_row(objs, trigs, a, b0)[i]),
    decreases objs.len() - b0,
{
    if !(b0 < 0 || b0 >= objs.len()) {
        lemma_pair_entry_collidable(objs, trigs, a, b0);
        lemma_scan_row_collidable(objs, trigs, a, b0 + 1);
        let head = pair_entry(objs, trigs, a, b0);
        let tail = scan_row(objs, trigs, a, b0 + 1);
        assert forall|i: int|
            0 <= i < scan_row(objs, trigs, a, b0).len() implies contact_ids_collidable(objs,
            scan_row(objs, trigs, a, b0)[i]) by {
            if i < head.len() {
                assert(scan_row(objs, trigs, a, b0)[i] == head[i]);
            } else {
                assert(scan_row(objs, trigs, a, b0)[i] == tail[i - head.len()]);
            }
        }
    }
}

/// Every entry of the whole scan names a collidable pair of distinct live
/// entities.
pub proof fn lemma_scan_rows_collidable(objs: Seq<Object>, trigs: Seq<EulerTrig>, a0: int)
    requires
        objs.len() <= 0xffff_ffff_ffff_ffff,
    ensures
        forall|i: int|
            0 <= i < scan_rows(objs, trigs, a0).len() ==> contact_ids_collidable(objs,
                #[trigger] scan_rows(objs, trigs, a0)[i]),
    decreases objs.len() - a0,
{
    if !(a0 < 0 || a0 >= objs.len()) {
        lemma_scan_row_collidable(objs, trigs, a0, a0 + 1);
        lemma_scan_rows_collidable(objs, trigs, a0 + 1);
        let head = scan_row(objs, trigs, a0, a0 + 1);
        let tail = scan_rows(objs, trigs, a0 + 1);
        assert forall|i: int|
            0 <= i < scan_rows(objs, trigs, a0).len() implies contact_ids_collidable(objs,
            scan_rows(objs, trigs, a0)[i]) by {
            if i < head.len() {
                assert(scan_rows(objs, trigs, a0)[i] == head[i]);
            } else {
                assert(scan_rows(objs, trigs, a0)[i] == tail[i - head.len()]);
            }
        }
    }
}

/// The scene is ready for collision detection: ray queries are possible and
/// every mesh collider's cached centroid is in range.
pub open spec fn scene_collision_ok(objs: Seq<Object>, trigs: Seq<EulerTrig>) -> bool {
    &&& scene_raycast_ok(objs, trigs)
    &&& forall|k: int|
        0 <= k < objs.len() && is_mesh_collidable(#[trigger] objs[k]) ==> v3_abs_le(
            objs[k].mesh_renderable->0.vertices_center,
            0x800_0000,
        )
}

/// The brute-force pairwise collision detector.
#[derive(Clone, Copy, Debug, Default)]
pub struct CollisionManager;

impl CollisionManager {
    /// Scans every unordered pair of collidable entities and collects at
    /// most one contact per pair: the pair is probed in id order first and
    /// in reverse order when the first probe finds nothing.  A pair mixing a
    /// mesh collider with a sphere collider has no detector and fails
    /// loudly.
    pub fn calculate(
        &self,
        object_manager: &ObjectManager,
        trigs: &Vec<EulerTrig>,
    ) -> (r: Result<Vec<CollisionInfo>, CollisionError>)
        requires
            scene_collision_ok(object_manager.objects_seq(), trigs@),
        ensures
            match r {
                Ok(hits) => hits@ == scan_rows(object_manager.objects_seq(), trigs@, 0) && (forall|
                    a: int,
                    b: int,
                |
                    0 <= a < object_manager.objects_seq().len() && 0 <= b
                        < object_manager.objects_seq().len() && a != b ==> !mixed_pair(
                        #[trigger] object_manager.objects_seq()[a],
                        #[trigger] object_manager.objects_seq()[b],
                    )),
                Err(e) => e == CollisionError::UnsupportedPair && exists|a: int, b: int|
                    0 <= a < object_manager.objects_seq().len() && 0 <= b
                        < object_manager.objects_seq().len() && a != b && mixed_pair(
                        object_manager.objects_seq()[a],
                        object_manager.objects_seq()[b],
                    ),
            },
    {
        let n = object_manager.len();
        let mut all_hits: Vec<CollisionInfo> = Vec::new();
        let mut a: usize = 0;
        while a < n
            invariant
                scene_collision_ok(object_manager.objects_seq(), trigs@),
                a <= n,
                n == object_manager.objects_seq().len(),
                all_hits@ + scan_rows(object_manager.objects_seq(), trigs@, a as int) =~= scan_rows(
                    object_manager.objects_seq(),
                    trigs@,
                    0,
                ),
                forall|x: int, y: int|
                    0 <= x < a && 0 <= y < n && x != y ==> !mixed_pair(
                        #[trigger] object_manager.objects_seq()[x],
                        #[trigger] object_manager.objects_seq()[y],
                    ),
            decreases n - a,
        {
            let mut b: usize = a + 1;
            while b < n
                invariant
                    scene_collision_ok(object_manager.objects_seq(), trigs@),
                    a < b <= n,
                    a < n,
                    n == object_manager.objects_seq().len(),
                    all_hits@ + scan_row(object_manager.objects_seq(), trigs@, a as int, b as int)
                        + scan_rows(object_manager.objects_seq(), trigs@, a + 1) =~= scan_rows(
                        object_manager.objects_seq(),
                        trigs@,
                        0,
                    ),
                    forall|x: int, y: int|
                        0 <= x < a && 0 <= y < n && x != y ==> !mixed_pair(
                            #[trigger] object_manager.objects_seq()[x],
                            #[trigger] object_manager.objects_seq()[y],
                        ),
                    forall|y: int|
                        a < y < b ==> !mixed_pair(
                            object_manager.objects_seq()[a as int],
                            #[trigger] object_manager.objects_seq()[y],
                        ),
                decreases n - b,
            {
                let ghost pre_hits = all_hits@;
                match self.try_pair(object_manager, trigs, a, b) {
                    Ok(Some(ci)) => {
                        all_hits.push(ci);
                        proof {
                            assert(all_hits@ =~= pre_hits + pair_entry(object_manager.objects_seq(), trigs@,
                                a as int, b as int));
                        }
                    },
                    Ok(None) => {
                        proof {
                            assert(all_hits@ =~= pre_hits + pair_entry(object_manager.objects_seq(), trigs@,
                                a as int, b as int));
                        }
                    },
                    Err(e) => {
                        return Err(e);
                    },
                }
                proof {
                    assert(scan_row(object_manager.objects_seq(), trigs@, a as int, b as int) =~= pair_entry(
                        object_manager.objects_seq(), trigs@, a as int, b as int) + scan_row(object_manager.objects_seq(),
                        trigs@, a as int, b + 1));
                    assert(all_hits@ + scan_row(object_manager.objects_seq(), trigs@, a as int, b + 1)
                        + scan_rows(object_manager.objects_seq(), trigs@, a + 1) =~= scan_rows(object_manager.objects_seq(),
                        trigs@, 0));
                }
                b += 1;
            }
            proof {
                lemma_mixed_row_done(*object_manager, a as int);
                assert(scan_row(object_manager.objects_seq(), trigs@, a as int, n as int)
                    =~= Seq::<CollisionInfo>::empty());
                assert(all_hits@ + scan_rows(object_manager.objects_seq(), trigs@, a + 1) =~= scan_rows(
                    object_manager.objects_seq(), trigs@, 0));
            }
            a += 1;
        }
        proof {
            assert(all_hits@ =~= scan_rows(object_manager.objects_seq(), trigs@, 0));
        }
        Ok(all_hits)
    }

    /// Tries the unordered pair {a, b}: first (a, b), then (b, a).
    fn try_pair(
        &self,
        object_manager: &ObjectManager,
        trigs: &Vec<EulerTrig>,
        a: usize,
        b: usize,
    ) -> (r: Result<Option<CollisionInfo>, CollisionError>)
        requires
            scene_collision_ok(object_manager.objects_seq(), trigs@),
            a < object_manager.objects_seq().len(),
            b < object_manager.objects_seq().len(),
            a != b,
        ensures
            match r {
                Ok(c) => !mixed_pair(object_manager.objects_seq()[a as int],
                    object_manager.objects_seq()[b as int]) && (match c {
                    Some(ci) => seq![ci] == pair_entry(object_manager.objects_seq(), trigs@, a as int,
                        b as int),
                    None => pair_entry(object_manager.objects_seq(), trigs@, a as int, b as int)
                        == Seq::<CollisionInfo>::empty(),
                }),
                Err(e) => e == CollisionError::UnsupportedPair && mixed_pair(
                    object_manager.objects_seq()[a as int],
                    object_manager.objects_seq()[b as int],
                ),
            },
    {
        match self.try_ordered(object_manager, trigs, a, b) {
            Err(e) => Err(e),
            Ok(Some(p)) => Ok(
                Some(
                    CollisionInfo { intersection_point: p, obj_1: a as u64, obj_2: b as u64 },
                ),
            ),
            Ok(None) => match self.try_ordered(object_manager, trigs, b, a) {
                Err(e) => Err(e),
                Ok(Some(p)) => Ok(
                    Some(
                        CollisionInfo { intersection_point: p, obj_1: b as u64, obj_2: a as u64 },
                    ),
                ),
                Ok(None) => Ok(None),
            },
        }
    }

    /// Tries the ordered pair (a, b) through the collider kinds.
    fn try_ordered(
        &self,
        object_manager: &ObjectManager,
        trigs: &Vec<EulerTrig>,
        a: usize,
        b: usize,
    ) -> (r: Result<Option<IntersectionPoint>, CollisionError>)
        requires
            scene_collision_ok(object_manager.objects_seq(), trigs@),
            a < object_manager.objects_seq().len(),
            b < object_manager.objects_seq().len(),
            a != b,
        ensures
            match r {
                Ok(c) => !mixed_pair(object_manager.objects_seq()[a as int],
                    object_manager.objects_seq()[b as int]) && c == pair_contact(object_manager.objects_seq(),
                    trigs@, a as int, b as int),
                Err(e) => e == CollisionError::UnsupportedPair && mixed_pair(
                    object_manager.objects_seq()[a as int],
                    object_manager.objects_seq()[b as int],
                ),
            },
    {
        let oa = object_manager.get_object(a as u64);
        let ob = object_manager.get_object(b as u64);
        match (&oa.mesh_collider, &ob.mesh_collider) {
            (Some(ma), Some(mb)) => Ok(
                ma.intersects_mesh(mb, object_manager, &trigs[a], &trigs[b]),
            ),
            (Some(_), None) => {
                if ob.sphere_collider.is_some() {
                    Err(CollisionError::UnsupportedPair)
                } else {
                    Ok(None)
                }
            },
            (None, Some(_)) => {
                if oa.sphere_collider.is_some() {
                    Err(CollisionError::UnsupportedPair)
                } else {
                    Ok(None)
                }
            },
            (None, None) => match (&oa.sphere_collider, &ob.sphere_collider) {
                (Some(sa), Some(sb)) => Ok(sa.intersects_sphere(sb, object_manager)),
                _ => Ok(None),
            },
        }
    }
}

/// After the inner loop finishes, nothing in row `a` was mixed in either
/// direction.
proof fn lemma_mixed_row_done(om: ObjectManager, a: int)
    requires
        0 <= a < om.objects_seq().len(),
        forall|x: int, y: int|
            0 <= x < a && 0 <= y < om.objects_seq().len() && x != y ==> !mixed_pair(
                #[trigger] om.objects_seq()[x],
                #[trigger] om.objects_seq()[y],
            ),
        forall|y: int|
            a < y < om.objects_seq().len() ==> !mixed_pair(
                om.objects_seq()[a],
                #[trigger] om.objects_seq()[y],
            ),
    ensures
        forall|x: int, y: int|
            0 <= x < a + 1 && 0 <= y < om.objects_seq().len() && x != y ==> !mixed_pair(
                #[trigger] om.objects_seq()[x],
                #[trigger] om.objects_seq()[y],
            ),
{
    assert forall|x: int, y: int|
        0 <= x < a + 1 && 0 <= y < om.objects_seq().len() && x != y implies !mixed_pair(
        om.objects_seq()[x],
        om.objects_seq()[y],
    ) by {
        if x == a {
            if y < a {
                assert(!mixed_pair(om.objects_seq()[y], om.objects_seq()[x]));
            }
        }
    }
}

} // verus!
