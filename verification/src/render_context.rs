//! The per-frame render pass: finds the camera entity and draws every mesh
//! entity into the off-screen pixel grid.

use vstd::prelude::*;

use crate::camera::{cam_wf, world_ok, Camera};
use crate::matrix::{trig_wf, EulerTrig};
use crate::object::{Object, ObjectManager};
use crate::pixel::{folded_color_at, folded_depth_at, grid_wf, PixelGrid, PixelWrite};
use crate::renderer::{mesh_writes, render_mesh_ok, MeshRendererSystem};
use crate::vector::V3;

verus! {

/// A frame could not be rendered.
#[derive(Clone, Copy, Debug, PartialEq, Eq, Structural)]
pub enum RenderError {
    /// No entity carries a camera component.
    NoCamera,
}

/// The index of the first entity carrying a camera, from `k` on; the scene
/// length when there is none.
pub open spec fn first_camera_from(objs: Seq<Object>, k: int) -> int
    decreases objs.len() - k,
{
    if k < 0 || k >= objs.len() {
        objs.len() as int
    } else if objs[k].camera is Some {
        k
    } else {
        first_camera_from(objs, k + 1)
    }
}

/// The writes one entity contributes to a frame: none unless it carries a
/// mesh.
pub open spec fn object_render_writes(
    obj: Object,
    trig: EulerTrig,
    cam: Camera,
    cam_trig: EulerTrig,
    cam_pos: V3,
    width: u32,
    height: u32,
) -> Seq<PixelWrite> {
    if obj.mesh_renderable is Some {
        mesh_writes(cam, cam_trig, obj.mesh_renderable->0.vertices@,
            obj.mesh_renderable->0.triangles@, trig, obj.transform->0.position, cam_pos,
            obj.mesh_renderable->0.shader, width, height)
    } else {
        Seq::empty()
    }
}

/// The writes of the first `k` entities, in id order.
pub open spec fn scene_writes_upto(
    objs: Seq<Object>,
    trigs: Seq<EulerTrig>,
    cam: Camera,
    cam_trig: EulerTrig,
    cam_pos: V3,
    width: u32,
    height: u32,
    k: int,
) -> Seq<PixelWrite>
    decreases k,
{
    if k <= 0 {
        Seq::empty()
    } else {
        scene_writes_upto(objs, trigs, cam, cam_trig, cam_pos, width, height, k - 1)
            + object_render_writes(objs[k - 1], trigs[k - 1], cam, cam_trig, cam_pos, width,
            height)
    }
}

/// Every write of a frame, in entity order.
pub open spec fn scene_writes(
    objs: Seq<Object>,
    trigs: Seq<EulerTrig>,
    cam: Camera,
    cam_trig: EulerTrig,
    cam_pos: V3,
    width: u32,
    height: u32,
) -> Seq<PixelWrite> {
    scene_writes_upto(objs, trigs, cam, cam_trig, cam_pos, width, height, objs.len() as int)
}

/// The scene is ready to render: one trig triple per entity, every mesh
/// entity has a transform and bounded geometry, and every camera entity has
/// a transform and a digestible configuration.
pub open spec fn scene_render_ok(objs: Seq<Object>, trigs: Seq<EulerTrig>) -> bool {
    &&& trigs.len() == objs.len()
    &&& forall|k: int| 0 <= k < objs.len() ==> trig_wf(#[trigger] trigs[k])
    &&& forall|k: int|
        0 <= k < objs.len() && (#[trigger] objs[k]).mesh_renderable is Some ==> objs[k].transform
            is Some && render_mesh_ok(objs[k].mesh_renderable->0, objs[k].transform->0.position)
    &&& forall|k: int|
        0 <= k < objs.len() && (#[trigger] objs[k]).camera is Some ==> objs[k].transform is Some
            && cam_wf(objs[k].camera->0) && world_ok(objs[k].transform->0.position)
}

/// Owns the frame's pixel grid and the optional mesh-rendering system.
pub struct RenderContext {
    pub pixel_grid: PixelGrid,
    pub mesh_renderer: Option<MeshRendererSystem>,
}

impl RenderContext {
    /// A context with a cleared buffer and no rendering system configured.
    pub fn new(buff_width: u32, buff_height: u32) -> (r: RenderContext)
        requires
            buff_width <= 16384,
            buff_height <= 16384,
        ensures
            grid_wf(r.pixel_grid),
            r.pixel_grid.width == buff_width,
            r.pixel_grid.height == buff_height,
            r.mesh_renderer is None,
    {
        RenderContext { pixel_grid: PixelGrid::new(buff_width, buff_height), mesh_renderer: None }
    }

    /// Installs the mesh-rendering system.
    pub fn configure_mesh_renderer(&mut self)
        ensures
            final(self).pixel_grid == old(self).pixel_grid,
            final(self).mesh_renderer == Some(MeshRendererSystem),
    {
        self.mesh_renderer = Some(MeshRendererSystem);
    }

    /// Renders every mesh entity through the first camera entity: all pixel
    /// writes are collected in entity order and merged into the grid with
    /// nearest-wins depth testing.  Without a configured rendering system
    /// nothing happens; without a camera the frame fails.
    pub fn render_objects(
        &mut self,
        object_manager: &ObjectManager,
        trigs: &Vec<EulerTrig>,
    ) -> (r: Result<(), RenderError>)
        requires
            grid_wf(old(self).pixel_grid),
            scene_render_ok(object_manager.objects_seq(), trigs@),
        ensures
            final(self).mesh_renderer == old(self).mesh_renderer,
            old(self).mesh_renderer is None ==> r == Ok::<(), RenderError>(()) && *final(self)
                == *old(self),
            old(self).mesh_renderer is Some ==> {
                let objs = object_manager.objects_seq();
                let ci = first_camera_from(objs, 0);
                if ci == objs.len() {
                    r == Err::<(), RenderError>(RenderError::NoCamera) && *final(self) == *old(
                        self,
                    )
                } else {
                    {
                        let ws = scene_writes(objs, trigs@, objs[ci].camera->0, trigs@[ci],
                            objs[ci].transform->0.position, old(self).pixel_grid.width,
                            old(self).pixel_grid.height);
                        &&& r == Ok::<(), RenderError>(())
                        &&& grid_wf(final(self).pixel_grid)
                        &&& final(self).pixel_grid.width == old(self).pixel_grid.width
                        &&& final(self).pixel_grid.height == old(self).pixel_grid.height
                        &&& forall|x: int, y: int|
                            0 <= x < old(self).pixel_grid.width && 0 <= y < old(
                                self,
                            ).pixel_grid.height ==> #[trigger] folded_depth_at(ws,
                                old(self).pixel_grid, final(self).pixel_grid, x, y)
                                && folded_color_at(ws, old(self).pixel_grid,
                                final(self).pixel_grid, x, y)
                    }
                }
            },
    {
        let renderer = match self.mesh_renderer {
            Some(mr) => mr,
            None => {
                return Ok(());
            },
        };
        let n = object_manager.len();
        let ghost objs = object_manager.objects_seq();
        // Find the first entity carrying a camera.
        let mut ci: usize = 0;
        let mut found = false;
        while ci < n && !found
            invariant
                n == objs.len(),
                objs == object_manager.objects_seq(),
                ci <= n,
                found ==> ci < n && objs[ci as int].camera is Some && first_camera_from(objs, 0)
                    == ci,
                !found ==> first_camera_from(objs, 0) == first_camera_from(objs, ci as int),
            decreases n - ci + (if found {
                0int
            } else {
                1int
            }),
        {
            if object_manager.get_object(ci as u64).camera.is_some() {
                found = true;
            } else {
                ci += 1;
            }
        }
        if !found {
            proof {
                assert(first_camera_from(objs, n as int) == n);
            }
            return Err(RenderError::NoCamera);
        }
        let camera_object = object_manager.get_object(ci as u64);
        let camera: Camera = match &camera_object.camera {
            Some(c) => *c,
            None => unreached(),
        };
        let camera_transform = match &camera_object.transform {
            Some(t) => *t,
            None => unreached(),
        };
        let width = self.pixel_grid.width;
        let height = self.pixel_grid.height;
        let mut all_writes: Vec<PixelWrite> = Vec::new();
        let mut i: usize = 0;
        while i < n
            invariant
                n == objs.len(),
                objs == object_manager.objects_seq(),
                scene_render_ok(objs, trigs@),
                i <= n,
                ci < n,
                objs[ci as int].camera == Some(camera),
                objs[ci as int].transform == Some(camera_transform),
                cam_wf(camera),
                world_ok(camera_transform.position),
                width <= 16384,
                height <= 16384,
                all_writes@ == scene_writes_upto(objs, trigs@, camera, trigs@[ci as int],
                    camera_transform.position, width, height, i as int),
                forall|j: int|
                    0 <= j < all_writes@.len() ==> (#[trigger] all_writes@[j]).x < width
                        && all_writes@[j].y < height,
            decreases n - i,
        {
            let obj = object_manager.get_object(i as u64);
            let ghost pre = all_writes@;
            if obj.mesh_renderable.is_some() {
                let writes = renderer.collect_mesh_writes(width, height, obj, &trigs[i], &camera,
                    &camera_transform, &trigs[ci]);
                extend_writes(&mut all_writes, &writes);
            }
            proof {
                assert(all_writes@ =~= pre + object_render_writes(objs[i as int],
                    trigs@[i as int], camera, trigs@[ci as int], camera_transform.position,
                    width, height));
            }
            i += 1;
        }
        self.pixel_grid.apply_writes(&all_writes);
        Ok(())
    }
}

/// Appends every write of `src` to `dst`, in order.
fn extend_writes(dst: &mut Vec<PixelWrite>, src: &Vec<PixelWrite>)
    ensures
        final(dst)@ == old(dst)@ + src@,
{
    let m = src.len();
    let mut j: usize = 0;
    while j < m
        invariant
            j <= m,
            m == src@.len(),
            dst@ == old(dst)@ + src@.take(j as int),
        decreases m - j,
    {
        let w = src[j];
        dst.push(w);
        proof {
            assert(dst@ =~= old(dst)@ + src@.take(j + 1));
        }
        j += 1;
    }
    proof {
        assert(dst@ =~= old(dst)@ + src@);
    }
}

} // verus!
