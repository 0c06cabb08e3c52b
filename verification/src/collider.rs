//! Collider components: adapters exposing an entity's geometry to the
//! raycasting and collision layers.
//!
//! A collider has no geometry of its own: it remembers its owning entity
//! (set when attached) and reads the sibling transform and mesh on demand.

use vstd::prelude::*;

use crate::fixed::SCALE;
use crate::matrix::{rotate_spec, trig_wf, EulerTrig};
use crate::mesh::{mesh_indices_ok, MeshRenderable};
use crate::object::{Object, ObjectManager};
use crate::transform::Transform;
use crate::raycast::{sphere_hits, tri_hit_normal, tri_hit_ok, tri_hit_position, tri_t_fx,
    HitInfo};
use crate::vector::{v3_abs_le, v3_add, v3_norm, v3_sub, V3};
use crate::vertex::Vertex;

verus! {

/// Coordinate bound for geometry that takes part in collision queries: small
/// enough that a rotated and translated vertex stays within the raycasting
/// range.
pub open spec fn collision_coord_ok(v: V3) -> bool {
    v3_abs_le(v, 0x800_0000)
}

/// A vertex moved into world space: position rotated then translated, normal
/// rotated, color kept.
pub open spec fn world_vertex(v: Vertex, t: EulerTrig, pos: V3) -> Vertex {
    Vertex {
        position: v3_add(rotate_spec(v.position, t), pos),
        normal: rotate_spec(v.normal, t),
        color: v.color,
    }
}

/// A mesh whose vertices and owning position are within the collision range.
pub open spec fn collision_mesh_ok(vertices: Seq<Vertex>, pos: V3) -> bool {
    &&& collision_coord_ok(pos)
    &&& forall|k: int|
        0 <= k < vertices.len() ==> collision_coord_ok((#[trigger] vertices[k]).position)
            && collision_coord_ok(vertices[k].normal)
}

/// The hits of one world-space triangle, in a sequence of zero or one.
pub open spec fn tri_hit_seq(av: Vertex, bv: Vertex, cv: Vertex, start: V3, dir: V3, max_distance: Option<i64>) -> Seq<HitInfo> {
    if tri_hit_ok(av.position, bv.position, cv.position, start, dir, max_distance) {
        seq![
            HitInfo {
                position: tri_hit_position(av, bv, cv, start, dir),
                normal: tri_hit_normal(av, bv, cv, start, dir),
                distance: tri_t_fx(av.position, bv.position, cv.position, start, dir) as i64,
            },
        ]
    } else {
        Seq::empty()
    }
}

/// All hits of a ray against the first `k` triangles of a mesh whose
/// vertices are placed by `t` and `pos`, in triangle order.
pub open spec fn mesh_hits_upto(
    vertices: Seq<Vertex>,
    triangles: Seq<[usize; 3]>,
    t: EulerTrig,
    pos: V3,
    start: V3,
    dir: V3,
    max_distance: Option<i64>,
    k: int,
) -> Seq<HitInfo>
    decreases k,
{
    if k <= 0 {
        Seq::empty()
    } else {
        mesh_hits_upto(vertices, triangles, t, pos, start, dir, max_distance, k - 1) + ({
            let tr = triangles[k - 1];
            tri_hit_seq(
                world_vertex(vertices[tr[0] as int], t, pos),
                world_vertex(vertices[tr[1] as int], t, pos),
                world_vertex(vertices[tr[2] as int], t, pos),
                start,
                dir,
                max_distance,
            )
        })
    }
}

/// All hits of a ray against a placed mesh, in triangle order.
pub open spec fn mesh_hits(
    vertices: Seq<Vertex>,
    triangles: Seq<[usize; 3]>,
    t: EulerTrig,
    pos: V3,
    start: V3,
    dir: V3,
    max_distance: Option<i64>,
) -> Seq<HitInfo> {
    mesh_hits_upto(vertices, triangles, t, pos, start, dir, max_distance, triangles.len() as int)
}

/// Places one vertex into world space.
pub fn world_vertex_exec(v: &Vertex, t: &EulerTrig, pos: &V3) -> (r: Vertex)
    requires
        trig_wf(*t),
        collision_coord_ok(v.position),
        collision_coord_ok(v.normal),
        collision_coord_ok(*pos),
    ensures
        r == world_vertex(*v, *t, *pos),
        v3_abs_le(r.position, 0x4000_0000),
        v3_abs_le(r.normal, 0x4000_0000),
{
    proof {
        crate::matrix::lemma_trig_bound(*t);
        crate::matrix::lemma_mul_v3_bound(crate::matrix::rotation_matrix_spec(*t), v.position,
            2 * SCALE as int, 0x800_0000);
        crate::matrix::lemma_mul_v3_bound(crate::matrix::rotation_matrix_spec(*t), v.normal,
            2 * SCALE as int, 0x800_0000);
        assert(3 * (2 * SCALE as int) * 0x800_0000 == (6 * 0x800_0000int) * SCALE as int)
            by (nonlinear_arith);
        crate::fixed::lemma_tdiv_cancel(6 * 0x800_0000int, SCALE as int);
    }
    let position = v.position.rotate(t).add(pos);
    let normal = v.normal.rotate(t);
    Vertex { position, normal, color: v.color }
}

/// A collider that reads the owning entity's mesh.
#[derive(Clone, Copy, Debug, PartialEq, Eq, Structural)]
pub struct MeshCollider {
    /// Id of the owning entity, set when attached.
    pub object: Option<u64>,
}

impl Default for MeshCollider {
    /// A collider not yet attached to an entity.
    fn default() -> (r: MeshCollider)
        ensures
            r.object is None,
    {
        MeshCollider { object: None }
    }
}

impl MeshCollider {
    pub fn new() -> (r: MeshCollider)
        ensures
            r.object is None,
    {
        MeshCollider { object: None }
    }

    /// The owning entity; callers must know the collider is attached and the
    /// id live.
    pub fn get_object<'a>(&self, object_manager: &'a ObjectManager) -> (r: &'a Object)
        requires
            self.object is Some,
            self.object->0 < object_manager.objects_seq().len(),
        ensures
            *r == object_manager.objects_seq()[self.object->0 as int],
    {
        match self.object {
            Some(id) => object_manager.get_object(id),
            None => unreached(),
        }
    }

    /// The owner's mesh; callers must know the owner carries one.
    pub fn get_mesh<'a>(&self, object_manager: &'a ObjectManager) -> (r: &'a MeshRenderable)
        requires
            self.object is Some,
            self.object->0 < object_manager.objects_seq().len(),
            object_manager.objects_seq()[self.object->0 as int].mesh_renderable is Some,
        ensures
            *r == object_manager.objects_seq()[self.object->0 as int].mesh_renderable->0,
    {
        match &self.get_object(object_manager).mesh_renderable {
            Some(m) => m,
            None => unreached(),
        }
    }

    /// The owner's transform; callers must know the owner carries one.
    pub fn get_transform<'a>(&self, object_manager: &'a ObjectManager) -> (r: &'a Transform)
        requires
            self.object is Some,
            self.object->0 < object_manager.objects_seq().len(),
            object_manager.objects_seq()[self.object->0 as int].transform is Some,
        ensures
            *r == object_manager.objects_seq()[self.object->0 as int].transform->0,
    {
        match &self.get_object(object_manager).transform {
            Some(t) => t,
            None => unreached(),
        }
    }

    /// All intersections of a ray with the owner's mesh, placed by the
    /// owner's transform; `t` is the sine/cosine triple of the owner's
    /// rotation.
    pub fn ray_intersects(
        &self,
        object_manager: &ObjectManager,
        t: &EulerTrig,
        start: V3,
        dir: V3,
        max_distance: Option<i64>,
    ) -> (r: Vec<HitInfo>)
        requires
            trig_wf(*t),
            self.object is Some,
            self.object->0 < object_manager.objects_seq().len(),
            ({
                let obj = object_manager.objects_seq()[self.object->0 as int];
                &&& obj.transform is Some
                &&& obj.mesh_renderable is Some
                &&& mesh_indices_ok(obj.mesh_renderable->0.vertices@,
                    obj.mesh_renderable->0.triangles@)
                &&& collision_mesh_ok(obj.mesh_renderable->0.vertices@,
                    obj.transform->0.position)
            }),
            v3_abs_le(start, 0x4000_0000),
            v3_abs_le(dir, 0x10_0000),
        ensures
            ({
                let obj = object_manager.objects_seq()[self.object->0 as int];
                r@ == mesh_hits(obj.mesh_renderable->0.vertices@,
                    obj.mesh_renderable->0.triangles@, *t, obj.transform->0.position, start, dir,
                    max_distance)
            }),
    {
        let obj = self.get_object(object_manager);
        let mut ret: Vec<HitInfo> = Vec::new();
        let (mesh, transform) = match (&obj.mesh_renderable, &obj.transform) {
            (Some(m), Some(tr)) => (m, tr),
            _ => {
                proof {
                    assert(false);
                }
                return ret;
            },
        };
        let ghost vs = mesh.vertices@;
        let ghost ts = mesh.triangles@;
        let n = mesh.triangles.len();
        let mut k: usize = 0;
        while k < n
            invariant
                trig_wf(*t),
                v3_abs_le(start, 0x4000_0000),
                v3_abs_le(dir, 0x10_0000),
                k <= n,
                n == ts.len(),
                vs == mesh.vertices@,
                ts == mesh.triangles@,
                mesh_indices_ok(vs, ts),
                collision_mesh_ok(vs, transform.position),
                ret@ == mesh_hits_upto(vs, ts, *t, transform.position, start, dir, max_distance,
                    k as int),
            decreases n - k,
        {
            let tr = mesh.triangles[k];
            let av = world_vertex_exec(&mesh.vertices[tr[0]], t, &transform.position);
            let bv = world_vertex_exec(&mesh.vertices[tr[1]], t, &transform.position);
            let cv = world_vertex_exec(&mesh.vertices[tr[2]], t, &transform.position);
            match crate::raycast::ray_triangle_intersect(&av, &bv, &cv, start, dir, max_distance) {
                Some(h) => {
                    ret.push(h);
                },
                None => {},
            }
            proof {
                assert(ret@ =~= mesh_hits_upto(vs, ts, *t, transform.position, start, dir,
                    max_distance, k + 1));
            }
            k += 1;
        }
        ret
    }
}

/// A spherical collider centered on the owning entity's position.
#[derive(Clone, Copy, Debug, PartialEq, Eq, Structural)]
pub struct SphereCollider {
    /// Id of the owning entity, set when attached.
    pub owner: Option<u64>,
    pub radius: i64,
}

impl SphereCollider {
    pub fn new(radius: i64) -> (r: SphereCollider)
        ensures
            r.owner is None,
            r.radius == radius,
    {
        SphereCollider { owner: None, radius }
    }

    /// All intersections of a ray with the owner's sphere, centered on the
    /// owner's position.
    pub fn get_all_ray_intersections(
        &self,
        object_manager: &ObjectManager,
        start: V3,
        dir: V3,
        max_distance: Option<i64>,
    ) -> (r: Vec<HitInfo>)
        requires
            self.owner is Some,
            self.owner->0 < object_manager.objects_seq().len(),
            object_manager.objects_seq()[self.owner->0 as int].transform is Some,
            v3_abs_le(object_manager.objects_seq()[self.owner->0 as int].transform->0.position,
                0x4000_0000),
            0 <= self.radius <= 0x4000_0000,
            v3_abs_le(start, 0x4000_0000),
            v3_abs_le(dir, 0x10_0000),
        ensures
            r@ == sphere_hits(
                object_manager.objects_seq()[self.owner->0 as int].transform->0.position,
                self.radius as int,
                start,
                dir,
                max_distance,
            ),
    {
        let obj = match self.owner {
            Some(id) => object_manager.get_object(id),
            None => unreached(),
        };
        let center = match &obj.transform {
            Some(tr) => tr.position,
            None => unreached(),
        };
        crate::raycast::ray_sphere_intersections(center, self.radius, start, dir, max_distance)
    }

    /// Sphere–sphere contact: the spheres intersect exactly when the
    /// distance between the centers is at most the sum of the radii; the
    /// contact point is the midpoint between the centers — computed
    /// symmetrically, so both probe orders agree on it — and the normal
    /// points from this body to the other.
    pub fn intersects_sphere(
        &self,
        other: &SphereCollider,
        object_manager: &ObjectManager,
    ) -> (r: Option<IntersectionPoint>)
        requires
            self.owner is Some,
            other.owner is Some,
            self.owner->0 < object_manager.objects_seq().len(),
            other.owner->0 < object_manager.objects_seq().len(),
            object_manager.objects_seq()[self.owner->0 as int].transform is Some,
            object_manager.objects_seq()[other.owner->0 as int].transform is Some,
            v3_abs_le(object_manager.objects_seq()[self.owner->0 as int].transform->0.position,
                0x4000_0000),
            v3_abs_le(object_manager.objects_seq()[other.owner->0 as int].transform->0.position,
                0x4000_0000),
            0 <= self.radius <= 0x4000_0000,
            0 <= other.radius <= 0x4000_0000,
        ensures
            r == sphere_sphere_contact(
                object_manager.objects_seq()[self.owner->0 as int].transform->0.position,
                self.radius as int,
                object_manager.objects_seq()[other.owner->0 as int].transform->0.position,
                other.radius as int,
            ),
    {
        let self_position = match self.owner {
            Some(id) => match &object_manager.get_object(id).transform {
                Some(tr) => tr.position,
                None => unreached(),
            },
            None => unreached(),
        };
        let other_position = match other.owner {
            Some(id) => match &object_manager.get_object(id).transform {
                Some(tr) => tr.position,
                None => unreached(),
            },
            None => unreached(),
        };
        let diff = other_position.sub(&self_position);
        let dist = diff.mag();
        if dist <= self.radius + other.radius {
            let normal: V3 = if diff.x == 0 && diff.y == 0 && diff.z == 0 {
                proof {
                    assert(crate::vector::v3_sq_sum(diff) == 0) by (nonlinear_arith)
                        requires
                            diff.x == 0,
                            diff.y == 0,
                            diff.z == 0,
                    ;
                }
                V3 { x: 0, y: 0, z: 0 }
            } else {
                proof {
                    crate::raycast::lemma_nonzero_sq_sum(diff);
                }
                diff.norm()
            };
            let sum = self_position.add(&other_position);
            proof {
                crate::fixed::lemma_tdiv_le(sum.x * SCALE, 2 * SCALE as int);
                crate::fixed::lemma_tdiv_le(sum.y * SCALE, 2 * SCALE as int);
                crate::fixed::lemma_tdiv_le(sum.z * SCALE, 2 * SCALE as int);
                crate::fixed::lemma_mul_bound(sum.x as int, SCALE as int, 0x1_0000_0000,
                    SCALE as int);
                crate::fixed::lemma_mul_bound(sum.y as int, SCALE as int, 0x1_0000_0000,
                    SCALE as int);
                crate::fixed::lemma_mul_bound(sum.z as int, SCALE as int, 0x1_0000_0000,
                    SCALE as int);
            }
            let position = sum.div_scale(2 * SCALE);
            Some(IntersectionPoint { position, normal })
        } else {
            None
        }
    }
}

/// A contact between two bodies: where, and the surface normal from the
/// first body to the second.
#[derive(Clone, Copy, Debug, PartialEq, Eq, Structural)]
pub struct IntersectionPoint {
    pub position: V3,
    /// Collision normal, exclusively from object 1 to object 2.
    pub normal: V3,
}

/// The sphere–sphere contact: present exactly when the center distance is at
/// most the sum of the radii.  The contact point is the midpoint between the
/// centers, computed symmetrically so both probe orders give the same point.
pub open spec fn sphere_sphere_contact(p1: V3, r1: int, p2: V3, r2: int) -> Option<
    IntersectionPoint,
> {
    let diff = v3_sub(p2, p1);
    if crate::vector::v3_mag(diff) <= r1 + r2 {
        Some(
            IntersectionPoint {
                position: crate::vector::v3_divs(v3_add(p1, p2), 2 * SCALE as int),
                normal: if crate::vector::v3_sq_sum(diff) >= 1 {
                    v3_norm(diff)
                } else {
                    V3 { x: 0i64, y: 0i64, z: 0i64 }
                },
            },
        )
    } else {
        None
    }
}

/// Sphere–sphere contact is symmetric in the probe order: both orders agree
/// on whether the spheres touch, and when they do the two contacts share the
/// same midpoint while the normals are exact negations of each other.
pub proof fn lemma_sphere_contact_symmetric(p1: V3, r1: int, p2: V3, r2: int)
    requires
        v3_abs_le(p1, 0x4000_0000),
        v3_abs_le(p2, 0x4000_0000),
    ensures
        (sphere_sphere_contact(p1, r1, p2, r2) is Some) == (sphere_sphere_contact(p2, r2, p1,
            r1) is Some),
        sphere_sphere_contact(p1, r1, p2, r2) is Some
            ==> sphere_sphere_contact(p1, r1, p2, r2)->0.position == sphere_sphere_contact(p2,
            r2, p1, r1)->0.position,
        sphere_sphere_contact(p1, r1, p2, r2) is Some
            ==> sphere_sphere_contact(p1, r1, p2, r2)->0.normal == crate::vector::v3_neg(
            sphere_sphere_contact(p2, r2, p1, r1)->0.normal),
{
    let d12 = v3_sub(p2, p1);
    let d21 = v3_sub(p1, p2);
    assert(d21.x == -d12.x && d21.y == -d12.y && d21.z == -d12.z);
    let n = crate::vector::v3_sq_sum(d12);
    assert(crate::vector::v3_sq_sum(d21) == n) by (nonlinear_arith)
        requires
            d21.x == -d12.x && d21.y == -d12.y && d21.z == -d12.z,
            n == crate::vector::v3_sq_sum(d12),
    ;
    assert(n >= 0) by (nonlinear_arith)
        requires
            n == crate::vector::v3_sq_sum(d12),
    ;
    // the magnitudes agree, so both orders take the same branch
    assert(crate::vector::v3_mag(d21) == crate::vector::v3_mag(d12));
    // the midpoint is symmetric outright
    assert(v3_add(p1, p2) == v3_add(p2, p1));
    if crate::vector::v3_mag(d12) <= r1 + r2 && n >= 1 {
        // the normals: each component of one blend is the negation of the
        // other's, because the shared magnitude is positive
        crate::fixed::lemma_isqrt_exists(n);
        let m = crate::vector::v3_mag(d12);
        assert(crate::fixed::is_isqrt(m, n));
        assert(m >= 1) by (nonlinear_arith)
            requires
                crate::fixed::is_isqrt(m, n),
                n >= 1,
        ;
        lemma_norm_negation(d12, d21, m);
    }
}

/// Normalizing a vector and its negation by the same positive magnitude
/// gives exact negations, component by component.
proof fn lemma_norm_negation(d12: V3, d21: V3, m: int)
    requires
        d21.x == -d12.x && d21.y == -d12.y && d21.z == -d12.z,
        v3_abs_le(d12, 0x1_0000_0000),
        m >= 1,
        m == crate::vector::v3_mag(d12),
        m == crate::vector::v3_mag(d21),
    ensures
        v3_norm(d12) == crate::vector::v3_neg(v3_norm(d21)),
{
    assert((-d12.x) * SCALE == -(d12.x * SCALE) && (-d12.y) * SCALE == -(d12.y * SCALE) && (
    -d12.z) * SCALE == -(d12.z * SCALE)) by (nonlinear_arith);
    crate::fixed::lemma_tdiv_neg_num(d12.x * SCALE, m);
    crate::fixed::lemma_tdiv_neg_num(d12.y * SCALE, m);
    crate::fixed::lemma_tdiv_neg_num(d12.z * SCALE, m);
    crate::fixed::lemma_tdiv_le(d12.x * SCALE, m);
    crate::fixed::lemma_tdiv_le(d12.y * SCALE, m);
    crate::fixed::lemma_tdiv_le(d12.z * SCALE, m);
    crate::fixed::lemma_mul_bound(d12.x as int, SCALE as int, 0x1_0000_0000, SCALE as int);
    crate::fixed::lemma_mul_bound(d12.y as int, SCALE as int, 0x1_0000_0000, SCALE as int);
    crate::fixed::lemma_mul_bound(d12.z as int, SCALE as int, 0x1_0000_0000, SCALE as int);
}

} // verus!
