//! Scene-wide ray casting: a ray against every collidable entity, keeping
//! the closest hit, and a ray against one known entity, keeping every hit.

use vstd::prelude::*;

use crate::collider::{collision_mesh_ok, mesh_hits};
use crate::matrix::{trig_wf, EulerTrig};
use crate::mesh::mesh_indices_ok;
use crate::object::{Object, ObjectManager};
use crate::raycast::{sphere_hits, HitInfo};
use crate::vector::{v3_abs_le, V3};

verus! {

/// The hits a ray scores against one entity: through the mesh collider when
/// it has one, else through the sphere collider, else none.
pub open spec fn object_hits(
    obj: Object,
    t: EulerTrig,
    start: V3,
    dir: V3,
    max_distance: Option<i64>,
) -> Seq<HitInfo> {
    if obj.mesh_collider is Some {
        mesh_hits(obj.mesh_renderable->0.vertices@, obj.mesh_renderable->0.triangles@, t,
            obj.transform->0.position, start, dir, max_distance)
    } else if obj.sphere_collider is Some {
        sphere_hits(obj.transform->0.position, obj.sphere_collider->0.radius as int, start, dir,
            max_distance)
    } else {
        Seq::empty()
    }
}

/// The entity at index `k` is ready for ray queries: its collider knows its
/// owner, the sibling components it reads exist, and the geometry is within
/// range.
pub open spec fn obj_raycast_ok(obj: Object, k: int) -> bool {
    &&& (obj.mesh_collider is Some ==> {
        &&& obj.mesh_collider->0.object == Some(k as u64)
        &&& obj.transform is Some
        &&& obj.mesh_renderable is Some
        &&& mesh_indices_ok(obj.mesh_renderable->0.vertices@, obj.mesh_renderable->0.triangles@)
        &&& collision_mesh_ok(obj.mesh_renderable->0.vertices@, obj.transform->0.position)
    })
    &&& (obj.sphere_collider is Some && obj.mesh_collider is None ==> {
        &&& obj.sphere_collider->0.owner == Some(k as u64)
        &&& obj.transform is Some
        &&& v3_abs_le(obj.transform->0.position, 0x4000_0000)
        &&& 0 <= obj.sphere_collider->0.radius <= 0x4000_0000
    })
}

/// The whole scene is ready for ray queries, with one trig triple per entity
/// (the sine/cosine of its rotation, in id order).
pub open spec fn scene_raycast_ok(objs: Seq<Object>, trigs: Seq<EulerTrig>) -> bool {
    &&& forall|k: int| 0 <= k < objs.len() ==> (#[trigger] objs[k]).id_spec() == k
    &&& trigs.len() == objs.len()
    &&& forall|k: int|
        0 <= k < objs.len() ==> trig_wf(#[trigger] trigs[k]) && obj_raycast_ok(objs[k], k)
}

/// The hits of the first `k` entities, in id order.
pub open spec fn scene_hits_upto(
    objs: Seq<Object>,
    trigs: Seq<EulerTrig>,
    start: V3,
    dir: V3,
    max_distance: Option<i64>,
    k: int,
) -> Seq<HitInfo>
    decreases k,
{
    if k <= 0 {
        Seq::empty()
    } else {
        scene_hits_upto(objs, trigs, start, dir, max_distance, k - 1) + object_hits(
            objs[k - 1],
            trigs[k - 1],
            start,
            dir,
            max_distance,
        )
    }
}

/// Every hit the ray scores in the scene, in entity order.
pub open spec fn scene_hits(
    objs: Seq<Object>,
    trigs: Seq<EulerTrig>,
    start: V3,
    dir: V3,
    max_distance: Option<i64>,
) -> Seq<HitInfo> {
    scene_hits_upto(objs, trigs, start, dir, max_distance, objs.len() as int)
}

/// The closest of a nonempty hit list: an earlier hit is kept only while it
/// is strictly closer, so ties go to the later hit.
pub open spec fn reduce_closest(hits: Seq<HitInfo>) -> HitInfo
    recommends
        hits.len() > 0,
    decreases hits.len(),
{
    if hits.len() <= 1 {
        hits[0]
    } else {
        let a = reduce_closest(hits.drop_last());
        if a.distance < hits.last().distance {
            a
        } else {
            hits.last()
        }
    }
}

/// Casts a ray against one entity, dispatching on which collider it carries.
pub fn raycast_object(
    object_manager: &ObjectManager,
    obj: &Object,
    t: &EulerTrig,
    start: V3,
    dir: V3,
    max_distance: Option<i64>,
) -> (r: Vec<HitInfo>)
    requires
        trig_wf(*t),
        obj_raycast_ok(*obj, obj.id_spec() as int),
        obj.id_spec() < object_manager.objects_seq().len(),
        object_manager.objects_seq()[obj.id_spec() as int] == *obj,
        v3_abs_le(start, 0x4000_0000),
        v3_abs_le(dir, 0x10_0000),
    ensures
        r@ == object_hits(*obj, *t, start, dir, max_distance),
{
    if let Some(mc) = &obj.mesh_collider {
        mc.ray_intersects(object_manager, t, start, dir, max_distance)
    } else if let Some(sc) = &obj.sphere_collider {
        sc.get_all_ray_intersections(object_manager, start, dir, max_distance)
    } else {
        Vec::new()
    }
}

/// A ray to be cast against every collidable entity of a scene.
pub struct Ray<'a> {
    pub start: V3,
    pub dir: V3,
    pub max_distance: Option<i64>,
    pub objects: &'a ObjectManager,
}

impl<'a> Ray<'a> {
    /// Collects the hits of every collidable entity and returns the closest
    /// (minimum distance), or `None` when nothing is hit; `trigs` holds each
    /// entity's rotation trig triple, in id order.
    pub fn cast(&self, trigs: &Vec<EulerTrig>) -> (r: Option<HitInfo>)
        requires
            scene_raycast_ok(self.objects.objects_seq(), trigs@),
            v3_abs_le(self.start, 0x4000_0000),
            v3_abs_le(self.dir, 0x10_0000),
        ensures
            ({
                let hits = scene_hits(self.objects.objects_seq(), trigs@, self.start, self.dir,
                    self.max_distance);
                match r {
                    Some(h) => hits.len() > 0 && h == reduce_closest(hits),
                    None => hits.len() == 0,
                }
            }),
    {
        let n = self.objects.len();
        let mut best: Option<HitInfo> = None;
        let mut i: usize = 0;
        while i < n
            invariant
                scene_raycast_ok(self.objects.objects_seq(), trigs@),
                v3_abs_le(self.start, 0x4000_0000),
                v3_abs_le(self.dir, 0x10_0000),
                i <= n,
                n == self.objects.objects_seq().len(),
                ({
                    let sofar = scene_hits_upto(self.objects.objects_seq(), trigs@, self.start,
                        self.dir, self.max_distance, i as int);
                    match best {
                        Some(b) => sofar.len() > 0 && b == reduce_closest(sofar),
                        None => sofar.len() == 0,
                    }
                }),
            decreases n - i,
        {
            let obj = self.objects.get_object(i as u64);
            let hits = raycast_object(self.objects, obj, &trigs[i], self.start, self.dir,
                self.max_distance);
            let ghost sofar = scene_hits_upto(self.objects.objects_seq(), trigs@, self.start,
                self.dir, self.max_distance, i as int);
            let m = hits.len();
            let mut j: usize = 0;
            while j < m
                invariant
                    j <= m,
                    m == hits@.len(),
                    ({
                        let cur = sofar + hits@.take(j as int);
                        match best {
                            Some(b) => cur.len() > 0 && b == reduce_closest(cur),
                            None => cur.len() == 0,
                        }
                    }),
                decreases m - j,
            {
                let h = hits[j];
                proof {
                    let cur = sofar + hits@.take(j as int);
                    assert(sofar + hits@.take(j + 1) =~= cur.push(h));
                    lemma_reduce_closest_push(cur, h);
                }
                best = match best {
                    Some(b) => {
                        if b.distance < h.distance {
                            Some(b)
                        } else {
                            Some(h)
                        }
                    },
                    None => Some(h),
                };
                j += 1;
            }
            proof {
                assert(sofar + hits@.take(m as int) =~= sofar + hits@);
                assert(scene_hits_upto(self.objects.objects_seq(), trigs@, self.start, self.dir,
                    self.max_distance, i + 1) =~= sofar + hits@);
            }
            i += 1;
        }
        best
    }
}

/// Folding one more hit into the closest-so-far is one comparison.
proof fn lemma_reduce_closest_push(hits: Seq<HitInfo>, h: HitInfo)
    ensures
        hits.len() == 0 ==> reduce_closest(hits.push(h)) == h,
        hits.len() > 0 ==> reduce_closest(hits.push(h)) == {
            let a = reduce_closest(hits);
            if a.distance < h.distance {
                a
            } else {
                h
            }
        },
{
    let s = hits.push(h);
    if hits.len() == 0 {
        assert(s.len() == 1);
        assert(s[0] == h);
    } else {
        assert(s.drop_last() =~= hits);
        assert(s.last() == h);
    }
}

/// A ray to be cast against one known entity, returning every hit.
pub struct ObjectIntersectionRay<'a> {
    pub start: V3,
    pub dir: V3,
    pub max_distance: Option<i64>,
    pub object: &'a Object,
}

impl<'a> ObjectIntersectionRay<'a> {
    /// All hits against the one entity, unfiltered, in triangle or root
    /// order; callers must know the entity carries a collider.
    pub fn cast(&self, object_manager: &ObjectManager, t: &EulerTrig) -> (r: Vec<HitInfo>)
        requires
            trig_wf(*t),
            obj_raycast_ok(*self.object, self.object.id_spec() as int),
            self.object.id_spec() < object_manager.objects_seq().len(),
            object_manager.objects_seq()[self.object.id_spec() as int] == *self.object,
            self.object.mesh_collider is Some || self.object.sphere_collider is Some,
            v3_abs_le(self.start, 0x4000_0000),
            v3_abs_le(self.dir, 0x10_0000),
        ensures
            r@ == object_hits(*self.object, *t, self.start, self.dir, self.max_distance),
    {
        raycast_object(object_manager, self.object, t, self.start, self.dir, self.max_distance)
    }
}

} // verus!
