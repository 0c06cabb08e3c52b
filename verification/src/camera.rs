//! The camera component: projection configuration, the projection matrix and
//! the point projection with its perspective divide.

use vstd::prelude::*;

use crate::fixed::{fxdiv, fxmul, lemma_mul_bound, lemma_tdiv_le, lemma_tdiv_mono, SCALE};
use crate::matrix::{m3_abs_le, m3_mul_v3, rotate_spec, trig_wf, EulerTrig, M3x3};
use crate::transform::{fwd_base, right_base, up_base, Transform};
use crate::vector::{v3_abs_le, v3_add, v3_sub, V3};
use crate::vertex::Vertex;

verus! {

/// Scene coordinate bound under which projection cannot overflow.
pub open spec fn world_ok(v: V3) -> bool {
    v3_abs_le(v, 0x4000_0000)
}

/// Projection configuration of a camera entity.
#[derive(Clone, Copy, Debug)]
pub struct Camera {
    /// Whether the camera uses perspective projection.
    pub perspective: bool,
    /// Displacement of the display surface relative to the camera pinhole;
    /// present exactly when using perspective.
    pub display_surface_offset: Option<V3>,
    /// Projected points with z at or below this value are culled by callers.
    pub near_plane: i64,
    /// The perspective divide is skipped when the projected z does not
    /// exceed this value, so a near-zero depth can never blow up the screen
    /// coordinates.
    pub zero_threshold: i64,
}

/// A camera whose configuration the projection arithmetic can digest.
pub open spec fn cam_wf(cam: Camera) -> bool {
    &&& cam.zero_threshold >= 1
    &&& match cam.display_surface_offset {
        Some(off) => cam.perspective && v3_abs_le(off, 0x10_0000),
        None => !cam.perspective,
    }
}

/// Camera-space coordinates of a vertex: the vertex is moved by its
/// entity's rotation and position, made relative to the camera position, and
/// taken through the projection matrix.
pub open spec fn camera_space_spec(
    m: M3x3,
    position: V3,
    obj_trig: EulerTrig,
    obj_pos: V3,
    cam_pos: V3,
) -> V3 {
    m3_mul_v3(m, v3_sub(v3_add(rotate_spec(position, obj_trig), obj_pos), cam_pos))
}

/// The projected point: camera space, with the pinhole projection applied to
/// x and y when perspective is on and the depth is safely positive.  The
/// depth (z) always passes through unchanged.
pub open spec fn project_point_spec(
    cam: Camera,
    m: M3x3,
    position: V3,
    obj_trig: EulerTrig,
    obj_pos: V3,
    cam_pos: V3,
) -> V3 {
    let px = camera_space_spec(m, position, obj_trig, obj_pos, cam_pos);
    match cam.display_surface_offset {
        Some(off) => {
            if cam.perspective && px.z > 0 && px.z > cam.zero_threshold {
                let q = fxdiv(off.z as int, px.z as int);
                V3 {
                    x: (fxmul(q, px.x as int) + off.x) as i64,
                    y: (fxmul(q, px.y as int) + off.y) as i64,
                    z: px.z,
                }
            } else {
                px
            }
        },
        None => px,
    }
}

/// The stock camera configuration: a display surface 100 units behind the
/// pinhole when perspective is on, a near plane of 0.1 and a zero threshold
/// of 0.01.
pub open spec fn stock_camera(perspective: bool) -> Camera {
    Camera {
        perspective,
        display_surface_offset: if perspective {
            Some(V3 { x: 0i64, y: 0i64, z: (-100 * SCALE) as i64 })
        } else {
            None
        },
        near_plane: 100i64,
        zero_threshold: 10i64,
    }
}

impl Camera {
    /// A camera with the stock configuration.
    pub fn new(perspective: bool) -> (r: Camera)
        ensures
            r == stock_camera(perspective),
            cam_wf(r),
    {
        Camera {
            perspective,
            display_surface_offset: if perspective {
                Some(V3 { x: 0, y: 0, z: -100 * SCALE })
            } else {
                None
            },
            near_plane: 100,
            zero_threshold: 10,
        }
    }

    /// The basis-change matrix from the camera's orientation: world right,
    /// up and forward map to screen x, y and depth.
    pub fn get_projection_matrix(&self, camera_transform: &Transform, t: &EulerTrig) -> (r: M3x3)
        requires
            trig_wf(*t),
        ensures
            r == projection_matrix_spec(*t),
            m3_abs_le(r, 6 * SCALE as int),
    {
        let (fwd, right, up) = camera_transform.get_orientations_in_bulk(t);
        proof {
            lemma_basis_bounds(*t);
        }
        M3x3 {
            columns: [
                V3 { x: right.x, y: up.x, z: fwd.x },
                V3 { x: right.y, y: up.y, z: fwd.y },
                V3 { x: right.z, y: up.z, z: fwd.z },
            ],
        }
    }

    /// Projects one vertex of an entity onto the screen plane.
    pub fn project_point(
        &self,
        projection_matrix: &M3x3,
        vertex: Vertex,
        object_transform: &Transform,
        obj_trig: &EulerTrig,
        camera_transform: &Transform,
    ) -> (r: V3)
        requires
            cam_wf(*self),
            trig_wf(*obj_trig),
            m3_abs_le(*projection_matrix, 8 * SCALE as int),
            world_ok(vertex.position),
            world_ok(object_transform.position),
            world_ok(camera_transform.position),
        ensures
            r == project_point_spec(*self, *projection_matrix, vertex.position, *obj_trig,
                object_transform.position, camera_transform.position),
            r.z == camera_space_spec(*projection_matrix, vertex.position, *obj_trig,
                object_transform.position, camera_transform.position).z,
            v3_abs_le(
                camera_space_spec(*projection_matrix, vertex.position, *obj_trig,
                    object_transform.position, camera_transform.position),
                0x200_0000_0000,
            ),
    {
        let mut vertex = vertex;
        proof {
            crate::matrix::lemma_trig_bound(*obj_trig);
            crate::matrix::lemma_mul_v3_bound(crate::matrix::rotation_matrix_spec(*obj_trig),
                vertex.position, 2 * SCALE as int, 0x4000_0000);
            assert(3 * (2 * SCALE as int) * 0x4000_0000 == (6 * 0x4000_0000int) * SCALE as int)
                by (nonlinear_arith);
            crate::fixed::lemma_tdiv_cancel(6 * 0x4000_0000int, SCALE as int);
        }
        object_transform.apply_to_vertex(obj_trig, &mut vertex);
        let rel = vertex.position.sub(&camera_transform.position);
        proof {
            assert(v3_abs_le(rel, 0x10_0000_0000));
            crate::matrix::lemma_mul_v3_bound(*projection_matrix, rel, 8 * SCALE as int,
                0x10_0000_0000);
            assert(3 * (8 * SCALE as int) * 0x10_0000_0000 == (24 * 0x10_0000_0000int)
                * SCALE as int) by (nonlinear_arith);
            crate::fixed::lemma_tdiv_cancel(24 * 0x10_0000_0000int, SCALE as int);
        }
        let px = projection_matrix.mul_v3(&rel);
        if self.perspective {
            match self.display_surface_offset {
                Some(off) => {
                    if px.z > 0 && px.z > self.zero_threshold {
                        proof {
                            lemma_mul_bound(off.z as int, SCALE as int, 0x10_0000, SCALE as int);
                            lemma_tdiv_le(off.z as int * SCALE as int, px.z as int);
                        }
                        let q = crate::fixed::div_fx(off.z, px.z);
                        proof {
                            lemma_mul_bound(q as int, px.x as int, 0x4000_0000,
                                0x200_0000_0000);
                            lemma_mul_bound(q as int, px.y as int, 0x4000_0000,
                                0x200_0000_0000);
                            lemma_tdiv_mono(q as int * px.x as int, SCALE as int,
                                0x4000_0000int * 0x200_0000_0000);
                            lemma_tdiv_mono(q as int * px.y as int, SCALE as int,
                                0x4000_0000int * 0x200_0000_0000);
                        }
                        let sx = crate::fixed::mul_fx(q, px.x) + off.x;
                        let sy = crate::fixed::mul_fx(q, px.y) + off.y;
                        return V3 { x: sx, y: sy, z: px.z };
                    }
                    px
                },
                None => px,
            }
        } else {
            px
        }
    }
}

/// The projection matrix built from a camera orientation's trig triple.
pub open spec fn projection_matrix_spec(t: EulerTrig) -> M3x3 {
    let fwd = rotate_spec(fwd_base(), t);
    let right = rotate_spec(right_base(), t);
    let up = rotate_spec(up_base(), t);
    M3x3 {
        columns: [
            V3 { x: right.x, y: up.x, z: fwd.x },
            V3 { x: right.y, y: up.y, z: fwd.y },
            V3 { x: right.z, y: up.z, z: fwd.z },
        ],
    }
}

/// The rotated basis vectors stay within six units.
pub proof fn lemma_basis_bounds(t: EulerTrig)
    requires
        trig_wf(t),
    ensures
        v3_abs_le(rotate_spec(fwd_base(), t), 6 * SCALE as int),
        v3_abs_le(rotate_spec(right_base(), t), 6 * SCALE as int),
        v3_abs_le(rotate_spec(up_base(), t), 6 * SCALE as int),
        m3_abs_le(projection_matrix_spec(t), 6 * SCALE as int),
{
    crate::matrix::lemma_trig_bound(t);
    crate::matrix::lemma_mul_v3_bound(crate::matrix::rotation_matrix_spec(t), fwd_base(),
        2 * SCALE as int, SCALE as int);
    crate::matrix::lemma_mul_v3_bound(crate::matrix::rotation_matrix_spec(t), right_base(),
        2 * SCALE as int, SCALE as int);
    crate::matrix::lemma_mul_v3_bound(crate::matrix::rotation_matrix_spec(t), up_base(),
        2 * SCALE as int, SCALE as int);
    crate::fixed::lemma_tdiv_cancel(6 * SCALE as int, SCALE as int);
    assert(3 * (2 * SCALE as int) * (SCALE as int) == (6 * SCALE as int) * SCALE as int)
        by (nonlinear_arith);
}

/// Projection never changes the depth component, so comparing two projected
/// depths is the same as comparing the camera-space depths.
pub proof fn lemma_projection_preserves_depth_order(
    cam: Camera,
    m: M3x3,
    p1: V3,
    p2: V3,
    obj_trig: EulerTrig,
    obj_pos: V3,
    cam_pos: V3,
)
    ensures
        project_point_spec(cam, m, p1, obj_trig, obj_pos, cam_pos).z == camera_space_spec(m, p1,
            obj_trig, obj_pos, cam_pos).z,
        (project_point_spec(cam, m, p1, obj_trig, obj_pos, cam_pos).z <= project_point_spec(cam,
            m, p2, obj_trig, obj_pos, cam_pos).z) <==> (camera_space_spec(m, p1, obj_trig,
            obj_pos, cam_pos).z <= camera_space_spec(m, p2, obj_trig, obj_pos, cam_pos).z),
{
}

} // verus!
