//! The triangle rasterizer: barycentric scan-conversion over a clamped
//! bounding box, attribute interpolation, the fragment-shader hook, and the
//! per-mesh render pass that merges pixel writes into the grid.

use vstd::prelude::*;

use crate::camera::{cam_wf, project_point_spec, world_ok, Camera};
use crate::fixed::{iabs, lemma_mul_bound, lemma_tdiv_cancel, lemma_tdiv_mono, tdiv, SCALE};
use crate::matrix::{m3_abs_le, trig_wf, EulerTrig, M3x3};
use crate::mesh::{mesh_indices_ok, MeshRenderable};
use crate::object::Object;
use crate::pixel::{folded_color_at, folded_depth_at, grid_wf, PixelGrid, PixelWrite};
use crate::shader::{FragData, Shader};
use crate::transform::Transform;
use crate::vector::{v3_abs_le, v3_add, v3_interp3, V3};
use crate::vertex::{interp_channel, Vertex};

verus! {

/// Twice the rasterizer's area epsilon, at doubled fixed-point scale: a
/// pixel belongs to a triangle when its three sub-triangle areas add up to
/// the whole area within 0.01 square units.
pub const EPS_AREA2: i64 = 20_000;

/// Projected coordinates beyond this window are not rasterized, so the scan
/// arithmetic stays exact.
pub const RASTER_WINDOW: i64 = 0x10_0000_0000;

/// Everything needed to rasterize one triangle: the three projected points
/// (screen x, y and depth z), the three source vertices, the owning entity's
/// position, the shader, and the viewport size.
#[derive(Clone, Copy, Debug)]
pub struct RasterJob {
    pub q1: V3,
    pub q2: V3,
    pub q3: V3,
    pub v1: Vertex,
    pub v2: Vertex,
    pub v3: Vertex,
    pub obj_pos: V3,
    pub shader: Shader,
    pub width: u32,
    pub height: u32,
}

/// Twice the unsigned area of a 2D triangle, on raw fixed-point coordinates.
pub open spec fn area2(ax: int, ay: int, bx: int, by: int, cx: int, cy: int) -> int {
    iabs(ax * (by - cy) + bx * (cy - ay) + cx * (ay - by))
}

/// The job's geometry is within the window the scan arithmetic accepts.
pub open spec fn job_wf(job: RasterJob) -> bool {
    &&& v3_abs_le(job.q1, RASTER_WINDOW as int)
    &&& v3_abs_le(job.q2, RASTER_WINDOW as int)
    &&& v3_abs_le(job.q3, RASTER_WINDOW as int)
    &&& world_ok(job.v1.position) && world_ok(job.v2.position) && world_ok(job.v3.position)
    &&& world_ok(job.obj_pos)
    &&& job.width <= 16384
    &&& job.height <= 16384
}

/// Twice the whole triangle's area.
pub open spec fn job_total(job: RasterJob) -> int {
    area2(job.q1.x as int, job.q1.y as int, job.q2.x as int, job.q2.y as int, job.q3.x as int,
        job.q3.y as int)
}

/// The first vertex's weight numerator at pixel (px, py).
pub open spec fn w1_at(job: RasterJob, px: int, py: int) -> int {
    area2(px * SCALE, py * SCALE, job.q3.x as int, job.q3.y as int, job.q2.x as int,
        job.q2.y as int)
}

/// The second vertex's weight numerator at pixel (px, py).
pub open spec fn w2_at(job: RasterJob, px: int, py: int) -> int {
    area2(px * SCALE, py * SCALE, job.q1.x as int, job.q1.y as int, job.q3.x as int,
        job.q3.y as int)
}

/// The third vertex's weight numerator at pixel (px, py).
pub open spec fn w3_at(job: RasterJob, px: int, py: int) -> int {
    area2(px * SCALE, py * SCALE, job.q1.x as int, job.q1.y as int, job.q2.x as int,
        job.q2.y as int)
}

/// The pixel belongs to the triangle: the three sub-triangle areas sum to
/// the whole area within the epsilon.  This is an inclusive, edge-tolerant
/// containment test, not a strict half-plane test.
pub open spec fn covered_at(job: RasterJob, px: int, py: int) -> bool {
    iabs(w1_at(job, px, py) + w2_at(job, px, py) + w3_at(job, px, py) - job_total(job))
        <= EPS_AREA2 as int
}

/// The interpolated fragment handed to the shader at a covered pixel.
pub open spec fn frag_data_at(job: RasterJob, px: int, py: int) -> FragData {
    let w1 = w1_at(job, px, py);
    let w2 = w2_at(job, px, py);
    let w3 = w3_at(job, px, py);
    let den = job_total(job);
    let pos = v3_interp3(job.v1.position, w1, job.v2.position, w2, job.v3.position, w3, den);
    let c0 = interp_channel(job.v1.color[0] as int, w1, job.v2.color[0] as int, w2,
        job.v3.color[0] as int, w3, den);
    let c1 = interp_channel(job.v1.color[1] as int, w1, job.v2.color[1] as int, w2,
        job.v3.color[1] as int, w3, den);
    let c2 = interp_channel(job.v1.color[2] as int, w1, job.v2.color[2] as int, w2,
        job.v3.color[2] as int, w3, den);
    let depth = tdiv(job.q1.z * w1 + job.q2.z * w2 + job.q3.z * w3, den);
    FragData {
        relative_position: pos,
        space_position: v3_add(pos, job.obj_pos),
        output_pixel: (depth as u64, [c0 as u8, c1 as u8, c2 as u8]),
    }
}

/// The pixel write emitted at a covered pixel, after the shader has run.
pub open spec fn write_at(job: RasterJob, px: int, py: int) -> PixelWrite {
    let out = job.shader.frag_spec(frag_data_at(job, px, py));
    PixelWrite {
        x: (px + job.width as int / 2) as u32,
        y: (job.height as int / 2 + py) as u32,
        depth: out.0,
        color: out.1,
    }
}

/// Zero or one writes for pixel (px, py).
pub open spec fn pixel_writes_at(job: RasterJob, px: int, py: int) -> Seq<PixelWrite> {
    if covered_at(job, px, py) {
        seq![write_at(job, px, py)]
    } else {
        Seq::empty()
    }
}

/// The writes of one pixel column slice: x fixed, y in [py, ye).
pub open spec fn raster_col(job: RasterJob, px: int, py: int, ye: int) -> Seq<PixelWrite>
    decreases ye - py,
{
    if py >= ye {
        Seq::empty()
    } else {
        pixel_writes_at(job, px, py) + raster_col(job, px, py + 1, ye)
    }
}

/// The writes of the box: x in [px, xe), each with y in [ys, ye).
pub open spec fn raster_box(job: RasterJob, px: int, xe: int, ys: int, ye: int) -> Seq<
    PixelWrite,
>
    decreases xe - px,
{
    if px >= xe {
        Seq::empty()
    } else {
        raster_col(job, px, ys, ye) + raster_box(job, px + 1, xe, ys, ye)
    }
}

/// Fixed-point rounding to the nearest integer, half away from zero.
pub open spec fn fxround(v: int) -> int {
    if v >= 0 {
        (v + SCALE / 2) / (SCALE as int)
    } else {
        -((-v + SCALE / 2) / (SCALE as int))
    }
}

pub open spec fn imin(a: int, b: int) -> int {
    if a < b {
        a
    } else {
        b
    }
}

pub open spec fn imax(a: int, b: int) -> int {
    if a > b {
        a
    } else {
        b
    }
}

/// First pixel column of the scan: the projected minimum clamped to the left
/// viewport edge, rounded.
pub open spec fn box_xs(job: RasterJob) -> int {
    fxround(imax(imin(imin(job.q1.x as int, job.q2.x as int), job.q3.x as int), -(job.width as int
        / 2) * SCALE))
}

/// One past the last pixel column of the scan.
pub open spec fn box_xe(job: RasterJob) -> int {
    fxround(imin(imax(imax(job.q1.x as int, job.q2.x as int), job.q3.x as int), (job.width as int
        / 2) * SCALE))
}

pub open spec fn box_ys(job: RasterJob) -> int {
    fxround(imax(imin(imin(job.q1.y as int, job.q2.y as int), job.q3.y as int), -(job.height as int
        / 2) * SCALE))
}

pub open spec fn box_ye(job: RasterJob) -> int {
    fxround(imin(imax(imax(job.q1.y as int, job.q2.y as int), job.q3.y as int), (job.height as int
        / 2) * SCALE))
}

/// Every write of one rasterized triangle, in scan order; a degenerate
/// triangle (zero area) is skipped rather than divided by.
pub open spec fn raster_writes(job: RasterJob) -> Seq<PixelWrite> {
    if job_total(job) == 0 {
        Seq::empty()
    } else {
        raster_box(job, box_xs(job), box_xe(job), box_ys(job), box_ye(job))
    }
}

/// Exact doubled area over 128-bit intermediates.
fn area2_exec(ax: i64, ay: i64, bx: i64, by: i64, cx: i64, cy: i64) -> (r: i128)
    requires
        iabs(ax as int) <= 0x20_0000_0000_0000,
        iabs(ay as int) <= 0x20_0000_0000_0000,
        iabs(bx as int) <= 0x20_0000_0000_0000,
        iabs(by as int) <= 0x20_0000_0000_0000,
        iabs(cx as int) <= 0x20_0000_0000_0000,
        iabs(cy as int) <= 0x20_0000_0000_0000,
    ensures
        r as int == area2(ax as int, ay as int, bx as int, by as int, cx as int, cy as int),
        0 <= r <= 0x18_0000_0000_0000_0000_0000_0000_0000,
{
    proof {
        lemma_mul_bound(ax as int, by - cy, 0x20_0000_0000_0000, 0x40_0000_0000_0000);
        lemma_mul_bound(bx as int, cy - ay, 0x20_0000_0000_0000, 0x40_0000_0000_0000);
        lemma_mul_bound(cx as int, ay - by, 0x20_0000_0000_0000, 0x40_0000_0000_0000);
    }
    let s: i128 = (ax as i128) * ((by as i128) - (cy as i128)) + (bx as i128) * ((cy as i128)
        - (ay as i128)) + (cx as i128) * ((ay as i128) - (by as i128));
    if s < 0 {
        -s
    } else {
        s
    }
}

/// Fixed-point rounding, computed over magnitudes.
fn fxround_exec(v: i64) -> (r: i64)
    requires
        iabs(v as int) <= 0x100_0000_0000_0000,
    ensures
        r as int == fxround(v as int),
        iabs(r as int) <= iabs(v as int) / SCALE as int + 1,
{
    let m: u64 = if v < 0 {
        (-(v as i128)) as u64
    } else {
        v as u64
    };
    let q: u64 = (m + 500) / 1000;
    proof {
        assert(q <= m / 1000 + 1) by {
            vstd::arithmetic::div_mod::lemma_div_is_ordered(m as int + 500, m as int + 1000,
                1000);
            vstd::arithmetic::div_mod::lemma_hoist_over_denominator(m as int, 1, 1000);
        }
    }
    if v < 0 {
        -(q as i64)
    } else {
        q as i64
    }
}

/// Rounding a value at most `b` units lands at most at pixel `b`.
proof fn lemma_fxround_ub(v: int, b: int)
    requires
        0 <= b,
        v <= b * SCALE,
    ensures
        fxround(v) <= b,
{
    if v >= 0 {
        assert((v + SCALE / 2) / (SCALE as int) <= b) by {
            vstd::arithmetic::div_mod::lemma_div_is_ordered(v + 500, b * SCALE + 500,
                SCALE as int);
            assert((b * SCALE + 500) / (SCALE as int) == b) by {
                vstd::arithmetic::div_mod::lemma_fundamental_div_mod_converse(b * SCALE + 500,
                    SCALE as int, b, 500);
            }
        }
    } else {
        assert((-v + SCALE / 2) / (SCALE as int) >= 0) by {
            vstd::arithmetic::div_mod::lemma_div_is_ordered(0, -v + 500, SCALE as int);
        }
    }
}

/// Rounding a value at least `-b` units lands at least at pixel `-b`.
proof fn lemma_fxround_lb(v: int, b: int)
    requires
        0 <= b,
        -(b * SCALE) <= v,
    ensures
        -b <= fxround(v),
{
    if v >= 0 {
        assert((v + SCALE / 2) / (SCALE as int) >= 0) by {
            vstd::arithmetic::div_mod::lemma_div_is_ordered(0, v + 500, SCALE as int);
        }
    } else {
        assert((-v + SCALE / 2) / (SCALE as int) <= b) by {
            vstd::arithmetic::div_mod::lemma_div_is_ordered(-v + 500, b * SCALE + 500,
                SCALE as int);
            assert((b * SCALE + 500) / (SCALE as int) == b) by {
                vstd::arithmetic::div_mod::lemma_fundamental_div_mod_converse(b * SCALE + 500,
                    SCALE as int, b, 500);
            }
        }
    }
}

/// Barycentric soundness of the containment test: for every pixel the
/// rasterizer covers, the three interpolation weight numerators are
/// nonnegative and sum to the triangle's doubled area within the epsilon —
/// so the barycentric weights themselves, divided by that area, sum to one
/// within 0.01.
pub proof fn lemma_covered_weights_sum_to_one(job: RasterJob, px: int, py: int)
    requires
        covered_at(job, px, py),
    ensures
        0 <= w1_at(job, px, py),
        0 <= w2_at(job, px, py),
        0 <= w3_at(job, px, py),
        iabs(w1_at(job, px, py) + w2_at(job, px, py) + w3_at(job, px, py) - job_total(job))
            <= EPS_AREA2 as int,
{
}

/// Accepted pixel weights are nonnegative and bounded by a small multiple of
/// the whole area.
proof fn lemma_covered_weights(job: RasterJob, px: int, py: int)
    requires
        covered_at(job, px, py),
        job_total(job) >= 1,
    ensures
        0 <= w1_at(job, px, py) <= 20001 * job_total(job),
        0 <= w2_at(job, px, py) <= 20001 * job_total(job),
        0 <= w3_at(job, px, py) <= 20001 * job_total(job),
    {
    let t = job_total(job);
    assert(EPS_AREA2 as int <= 20000 * t) by (nonlinear_arith)
        requires
            t >= 1,
    ;
}

/// At a covered pixel the interpolated values are small: positions stay
/// within a few times the world bound and color numerators within a few
/// times a byte.
proof fn lemma_raster_interp_fits(p1: V3, p2: V3, p3: V3, w1: int, w2: int, w3: int, den: int)
    requires
        den >= 1,
        0 <= w1 <= 20001 * den,
        0 <= w2 <= 20001 * den,
        0 <= w3 <= 20001 * den,
        v3_abs_le(p1, 0x4000_0000),
        v3_abs_le(p2, 0x4000_0000),
        v3_abs_le(p3, 0x4000_0000),
    ensures
        iabs(tdiv(p1.x * w1 + p2.x * w2 + p3.x * w3, den)) <= 0x4_0000_0000_0000,
        iabs(tdiv(p1.y * w1 + p2.y * w2 + p3.y * w3, den)) <= 0x4_0000_0000_0000,
        iabs(tdiv(p1.z * w1 + p2.z * w2 + p3.z * w3, den)) <= 0x4_0000_0000_0000,
        v3_abs_le(v3_interp3(p1, w1, p2, w2, p3, w3, den), 0x4_0000_0000_0000),
{
    lemma_channel_fits(p1.x as int, p2.x as int, p3.x as int, w1, w2, w3, den, 0x4000_0000);
    lemma_channel_fits(p1.y as int, p2.y as int, p3.y as int, w1, w2, w3, den, 0x4000_0000);
    lemma_channel_fits(p1.z as int, p2.z as int, p3.z as int, w1, w2, w3, den, 0x4000_0000);
    assert(3 * 0x4000_0000 * 20001 <= 0x4_0000_0000_0000);
}

/// One interpolated channel with weights bounded by `20001 * den` stays
/// within `3 * bp * 20001`.
proof fn lemma_channel_fits(c1: int, c2: int, c3: int, w1: int, w2: int, w3: int, den: int, bp: int)
    requires
        den >= 1,
        0 <= bp,
        0 <= w1 <= 20001 * den,
        0 <= w2 <= 20001 * den,
        0 <= w3 <= 20001 * den,
        iabs(c1) <= bp,
        iabs(c2) <= bp,
        iabs(c3) <= bp,
    ensures
        iabs(tdiv(c1 * w1 + c2 * w2 + c3 * w3, den)) <= 3 * bp * 20001,
{
    lemma_mul_bound(c1, w1, bp, 20001 * den);
    lemma_mul_bound(c2, w2, bp, 20001 * den);
    lemma_mul_bound(c3, w3, bp, 20001 * den);
    assert(3 * (bp * (20001 * den)) == (3 * bp * 20001) * den) by (nonlinear_arith);
    lemma_tdiv_mono(c1 * w1 + c2 * w2 + c3 * w3, den, (3 * bp * 20001) * den);
    lemma_tdiv_cancel(3 * bp * 20001, den);
}

/// Bound on a doubled area from a bound on all six coordinates.
proof fn lemma_area2_bound(ax: int, ay: int, bx: int, by: int, cx: int, cy: int, b: int)
    requires
        0 <= b,
        iabs(ax) <= b,
        iabs(ay) <= b,
        iabs(bx) <= b,
        iabs(by) <= b,
        iabs(cx) <= b,
        iabs(cy) <= b,
    ensures
        area2(ax, ay, bx, by, cx, cy) <= 6 * b * b,
{
    lemma_mul_bound(ax, by - cy, b, 2 * b);
    lemma_mul_bound(bx, cy - ay, b, 2 * b);
    lemma_mul_bound(cx, ay - by, b, 2 * b);
    assert(b * (2 * b) == 2 * b * b && 6 * b * b == 3 * (2 * b * b)) by (nonlinear_arith);
}

/// One interpolated, clamped color channel with 128-bit weights.
fn interp_channel_128(c1: u8, c2: u8, c3: u8, w1: i128, w2: i128, w3: i128, den: i128) -> (r: u8)
    requires
        den != 0,
        iabs(den as int) <= 0x20_0000_0000_0000_0000_0000,
        iabs(w1 as int) <= 0x20_0000_0000_0000_0000_0000,
        iabs(w2 as int) <= 0x20_0000_0000_0000_0000_0000,
        iabs(w3 as int) <= 0x20_0000_0000_0000_0000_0000,
    ensures
        r as int == interp_channel(c1 as int, w1 as int, c2 as int, w2 as int, c3 as int,
            w3 as int, den as int),
{
    proof {
        lemma_mul_bound(c1 as int, w1 as int, 255, 0x20_0000_0000_0000_0000_0000);
        lemma_mul_bound(c2 as int, w2 as int, 255, 0x20_0000_0000_0000_0000_0000);
        lemma_mul_bound(c3 as int, w3 as int, 255, 0x20_0000_0000_0000_0000_0000);
    }
    let s: i128 = (c1 as i128) * w1 + (c2 as i128) * w2 + (c3 as i128) * w3;
    let q: i128 = crate::fixed::div_trunc_128(s, den);
    if q < 0 {
        0
    } else if q > 255 {
        255
    } else {
        q as u8
    }
}

fn min_i64(a: i64, b: i64) -> (r: i64)
    ensures
        r as int == imin(a as int, b as int),
{
    if a < b {
        a
    } else {
        b
    }
}

fn max_i64(a: i64, b: i64) -> (r: i64)
    ensures
        r as int == imax(a as int, b as int),
{
    if a > b {
        a
    } else {
        b
    }
}

/// The triangle rasterization system: scan-converts each mesh triangle and
/// merges the writes into the pixel grid with depth testing.
#[derive(Clone, Copy, Debug, Default)]
pub struct MeshRendererSystem;

impl MeshRendererSystem {
    /// Scan-converts one triangle: every integer pixel of the clamped
    /// bounding box whose sub-triangle areas sum to the whole area within
    /// the epsilon gets an interpolated, shaded write.
    pub fn raster_triangle(&self, job: &RasterJob) -> (r: Vec<PixelWrite>)
        requires
            job_wf(*job),
        ensures
            r@ == raster_writes(*job),
            forall|k: int|
                0 <= k < r@.len() ==> (#[trigger] r@[k]).x < job.width && r@[k].y < job.height,
    {
        let mut ret: Vec<PixelWrite> = Vec::new();
        let total: i128 = area2_exec(job.q1.x, job.q1.y, job.q2.x, job.q2.y, job.q3.x, job.q3.y);
        if total == 0 {
            return ret;
        }
        proof {
            lemma_area2_bound(job.q1.x as int, job.q1.y as int, job.q2.x as int, job.q2.y as int,
                job.q3.x as int, job.q3.y as int, RASTER_WINDOW as int);
        }
        let w2i: i64 = (job.width / 2) as i64;
        let h2i: i64 = (job.height / 2) as i64;
        let xs = fxround_exec(max_i64(min_i64(min_i64(job.q1.x, job.q2.x), job.q3.x), -(w2i
            * SCALE)));
        let xe = fxround_exec(min_i64(max_i64(max_i64(job.q1.x, job.q2.x), job.q3.x), w2i
            * SCALE));
        let ys = fxround_exec(max_i64(min_i64(min_i64(job.q1.y, job.q2.y), job.q3.y), -(h2i
            * SCALE)));
        let ye = fxround_exec(min_i64(max_i64(max_i64(job.q1.y, job.q2.y), job.q3.y), h2i
            * SCALE));
        proof {
            lemma_bbox_in_viewport(*job);
        }
        let ghost full = raster_writes(*job);
        let mut x: i64 = xs;
        if x >= xe {
            proof {
                assert(full =~= Seq::<PixelWrite>::empty());
            }
            return ret;
        }
        while x < xe
            invariant
                job_wf(*job),
                total as int == job_total(*job),
                total >= 1,
                w2i == job.width as int / 2,
                h2i == job.height as int / 2,
                xs as int == box_xs(*job),
                xe as int == box_xe(*job),
                ys as int == box_ys(*job),
                ye as int == box_ye(*job),
                -w2i <= xs && xe <= w2i,
                -h2i <= ys && ye <= h2i,
                xs <= x <= xe,
                full == raster_writes(*job),
                ret@ + raster_box(*job, x as int, xe as int, ys as int, ye as int) =~= full,
                forall|k: int|
                    0 <= k < ret@.len() ==> (#[trigger] ret@[k]).x < job.width && ret@[k].y
                        < job.height,
            decreases xe - x,
        {
            let mut y: i64 = ys;
            while y < ye
                invariant
                    job_wf(*job),
                    total as int == job_total(*job),
                    total >= 1,
                    w2i == job.width as int / 2,
                    h2i == job.height as int / 2,
                    -w2i <= xs && xe <= w2i,
                    -h2i <= ys && ye <= h2i,
                    xs <= x < xe,
                    ys <= y,
                    y <= ye || y == ys,
                    full == raster_writes(*job),
                    ret@ + raster_col(*job, x as int, y as int, ye as int) + raster_box(*job, x
                        + 1, xe as int, ys as int, ye as int) =~= full,
                    forall|k: int|
                        0 <= k < ret@.len() ==> (#[trigger] ret@[k]).x < job.width && ret@[k].y
                            < job.height,
                decreases ye - y,
            {
                let ptx: i64 = x * SCALE;
                let pty: i64 = y * SCALE;
                let w1 = area2_exec(ptx, pty, job.q3.x, job.q3.y, job.q2.x, job.q2.y);
                let w2 = area2_exec(ptx, pty, job.q1.x, job.q1.y, job.q3.x, job.q3.y);
                let w3 = area2_exec(ptx, pty, job.q1.x, job.q1.y, job.q2.x, job.q2.y);
                let ghost pre = ret@;
                let off = w1 + w2 + w3 - total;
                if -(EPS_AREA2 as i128) <= off && off <= EPS_AREA2 as i128 {
                    proof {
                        assert(covered_at(*job, x as int, y as int));
                        lemma_covered_weights(*job, x as int, y as int);
                        lemma_area2_bound(ptx as int, pty as int, job.q3.x as int,
                            job.q3.y as int, job.q2.x as int, job.q2.y as int,
                            RASTER_WINDOW as int);
                        lemma_area2_bound(ptx as int, pty as int, job.q1.x as int,
                            job.q1.y as int, job.q3.x as int, job.q3.y as int,
                            RASTER_WINDOW as int);
                        lemma_area2_bound(ptx as int, pty as int, job.q1.x as int,
                            job.q1.y as int, job.q2.x as int, job.q2.y as int,
                            RASTER_WINDOW as int);
                        lemma_raster_interp_fits(job.v1.position, job.v2.position,
                            job.v3.position, w1 as int, w2 as int, w3 as int, total as int);
                        lemma_mul_bound(job.q1.z as int, w1 as int, RASTER_WINDOW as int, 6
                            * RASTER_WINDOW as int * RASTER_WINDOW as int);
                        lemma_mul_bound(job.q2.z as int, w2 as int, RASTER_WINDOW as int, 6
                            * RASTER_WINDOW as int * RASTER_WINDOW as int);
                        lemma_mul_bound(job.q3.z as int, w3 as int, RASTER_WINDOW as int, 6
                            * RASTER_WINDOW as int * RASTER_WINDOW as int);
                    }
                    let pos = crate::raycast::interp3_128(&job.v1.position, &job.v2.position,
                        &job.v3.position, w1, w2, w3, total);
                    let cc0 = interp_channel_128(job.v1.color[0], job.v2.color[0],
                        job.v3.color[0], w1, w2, w3, total);
                    let cc1 = interp_channel_128(job.v1.color[1], job.v2.color[1],
                        job.v3.color[1], w1, w2, w3, total);
                    let cc2 = interp_channel_128(job.v1.color[2], job.v2.color[2],
                        job.v3.color[2], w1, w2, w3, total);
                    let sd: i128 = (job.q1.z as i128) * w1 + (job.q2.z as i128) * w2
                        + (job.q3.z as i128) * w3;
                    let qd: i128 = crate::fixed::div_trunc_128(sd, total);
                    #[verifier::truncate]
                    let depth_u: u64 = qd as u64;
                    let mut data = FragData {
                        relative_position: pos,
                        space_position: pos.add(&job.obj_pos),
                        output_pixel: (depth_u, [cc0, cc1, cc2]),
                    };
                    proof {
                        assert(data == frag_data_at(*job, x as int, y as int));
                    }
                    job.shader.frag(&mut data);
                    let sx: u32 = (x + w2i) as u32;
                    let sy: u32 = (h2i + y) as u32;
                    ret.push(
                        PixelWrite {
                            x: sx,
                            y: sy,
                            depth: data.output_pixel.0,
                            color: data.output_pixel.1,
                        },
                    );
                    proof {
                        assert(ret@ =~= pre + pixel_writes_at(*job, x as int, y as int));
                    }
                } else {
                    proof {
                        assert(!covered_at(*job, x as int, y as int));
                        assert(ret@ =~= pre + pixel_writes_at(*job, x as int, y as int));
                    }
                }
                proof {
                    assert(raster_col(*job, x as int, y as int, ye as int) =~= pixel_writes_at(
                        *job, x as int, y as int) + raster_col(*job, x as int, y + 1,
                        ye as int));
                    assert(ret@ + raster_col(*job, x as int, y + 1, ye as int) + raster_box(
                        *job, x + 1, xe as int, ys as int, ye as int) =~= full);
                }
                y += 1;
            }
            proof {
                assert(raster_col(*job, x as int, ye as int, ye as int)
                    =~= Seq::<PixelWrite>::empty());
                assert(ret@ + raster_box(*job, x + 1, xe as int, ys as int, ye as int) =~= full);
            }
            x += 1;
        }
        proof {
            assert(raster_box(*job, xe as int, xe as int, ys as int, ye as int)
                =~= Seq::<PixelWrite>::empty());
            assert(ret@ =~= full);
        }
        ret
    }
}

/// The projected screen point is within the rasterizer's window.
pub open spec fn in_window(q: V3) -> bool {
    v3_abs_le(q, RASTER_WINDOW as int)
}

/// The writes of one mesh triangle: its three vertices are projected; the
/// triangle is dropped whole when any projected depth is at or below the
/// near plane, or any projected coordinate leaves the raster window;
/// otherwise it is scan-converted.  The window drop is a numeric guard in
/// the spirit of the near-zero-depth threshold: screen coordinates that far
/// out (beyond about sixty-eight million pixels) would otherwise corrupt the
/// scan arithmetic, so such a triangle is skipped rather than clamped.
pub open spec fn triangle_writes(
    cam: Camera,
    cam_trig: EulerTrig,
    vertices: Seq<Vertex>,
    tri: [usize; 3],
    obj_trig: EulerTrig,
    obj_pos: V3,
    cam_pos: V3,
    shader: Shader,
    width: u32,
    height: u32,
) -> Seq<PixelWrite> {
    let m = crate::camera::projection_matrix_spec(cam_trig);
    let q1 = project_point_spec(cam, m, vertices[tri[0] as int].position, obj_trig, obj_pos,
        cam_pos);
    let q2 = project_point_spec(cam, m, vertices[tri[1] as int].position, obj_trig, obj_pos,
        cam_pos);
    let q3 = project_point_spec(cam, m, vertices[tri[2] as int].position, obj_trig, obj_pos,
        cam_pos);
    if q1.z <= cam.near_plane || q2.z <= cam.near_plane || q3.z <= cam.near_plane {
        Seq::empty()
    } else if !(in_window(q1) && in_window(q2) && in_window(q3)) {
        Seq::empty()
    } else {
        raster_writes(
            RasterJob {
                q1,
                q2,
                q3,
                v1: vertices[tri[0] as int],
                v2: vertices[tri[1] as int],
                v3: vertices[tri[2] as int],
                obj_pos,
                shader,
                width,
                height,
            },
        )
    }
}

/// The writes of a mesh's first `k` triangles, in triangle order.
pub open spec fn mesh_writes_upto(
    cam: Camera,
    cam_trig: EulerTrig,
    vertices: Seq<Vertex>,
    triangles: Seq<[usize; 3]>,
    obj_trig: EulerTrig,
    obj_pos: V3,
    cam_pos: V3,
    shader: Shader,
    width: u32,
    height: u32,
    k: int,
) -> Seq<PixelWrite>
    decreases k,
{
    if k <= 0 {
        Seq::empty()
    } else {
        mesh_writes_upto(cam, cam_trig, vertices, triangles, obj_trig, obj_pos, cam_pos, shader,
            width, height, k - 1) + triangle_writes(cam, cam_trig, vertices, triangles[k - 1],
            obj_trig, obj_pos, cam_pos, shader, width, height)
    }
}

/// Every write of one mesh.
pub open spec fn mesh_writes(
    cam: Camera,
    cam_trig: EulerTrig,
    vertices: Seq<Vertex>,
    triangles: Seq<[usize; 3]>,
    obj_trig: EulerTrig,
    obj_pos: V3,
    cam_pos: V3,
    shader: Shader,
    width: u32,
    height: u32,
) -> Seq<PixelWrite> {
    mesh_writes_upto(cam, cam_trig, vertices, triangles, obj_trig, obj_pos, cam_pos, shader,
        width, height, triangles.len() as int)
}

/// A mesh ready to render: indices in range and geometry within the world
/// bound.
pub open spec fn render_mesh_ok(mesh: MeshRenderable, pos: V3) -> bool {
    &&& mesh_indices_ok(mesh.vertices@, mesh.triangles@)
    &&& world_ok(pos)
    &&& forall|k: int|
        0 <= k < mesh.vertices@.len() ==> world_ok((#[trigger] mesh.vertices@[k]).position)
}

impl MeshRendererSystem {
    /// Projects one triangle's vertices and scan-converts it; the triangle
    /// is dropped whole when any vertex fails the near-plane test or when
    /// any projected coordinate leaves the raster window — the latter is a
    /// numeric guard against unrepresentable screen coordinates, stated
    /// exactly in the contract rather than clamped.
    pub fn render_triangle(
        &self,
        width: u32,
        height: u32,
        mesh: &MeshRenderable,
        object_transform: &Transform,
        obj_trig: &EulerTrig,
        camera: &Camera,
        camera_transform: &Transform,
        cam_trig: &EulerTrig,
        projection_matrix: &M3x3,
        tri: [usize; 3],
    ) -> (r: Vec<PixelWrite>)
        requires
            cam_wf(*camera),
            trig_wf(*obj_trig),
            *projection_matrix == crate::camera::projection_matrix_spec(*cam_trig),
            m3_abs_le(*projection_matrix, 8 * SCALE as int),
            render_mesh_ok(*mesh, object_transform.position),
            world_ok(camera_transform.position),
            tri[0] < mesh.vertices@.len(),
            tri[1] < mesh.vertices@.len(),
            tri[2] < mesh.vertices@.len(),
            width <= 16384,
            height <= 16384,
        ensures
            r@ == triangle_writes(*camera, *cam_trig, mesh.vertices@, tri, *obj_trig,
                object_transform.position, camera_transform.position, mesh.shader, width, height),
            forall|k: int|
                0 <= k < r@.len() ==> (#[trigger] r@[k]).x < width && r@[k].y < height,
    {
        let v1 = mesh.vertices[tri[0]];
        let v2 = mesh.vertices[tri[1]];
        let v3 = mesh.vertices[tri[2]];
        let q1 = camera.project_point(projection_matrix, v1, object_transform, obj_trig,
            camera_transform);
        let q2 = camera.project_point(projection_matrix, v2, object_transform, obj_trig,
            camera_transform);
        let q3 = camera.project_point(projection_matrix, v3, object_transform, obj_trig,
            camera_transform);
        if q1.z <= camera.near_plane || q2.z <= camera.near_plane || q3.z <= camera.near_plane {
            return Vec::new();
        }
        if !(in_window_exec(&q1) && in_window_exec(&q2) && in_window_exec(&q3)) {
            return Vec::new();
        }
        let job = RasterJob {
            q1,
            q2,
            q3,
            v1,
            v2,
            v3,
            obj_pos: object_transform.position,
            shader: mesh.shader,
            width,
            height,
        };
        self.raster_triangle(&job)
    }

    /// Collects the writes of every triangle of one mesh, in triangle order.
    pub fn collect_mesh_writes(
        &self,
        width: u32,
        height: u32,
        object: &Object,
        obj_trig: &EulerTrig,
        camera: &Camera,
        camera_transform: &Transform,
        cam_trig: &EulerTrig,
    ) -> (r: Vec<PixelWrite>)
        requires
            cam_wf(*camera),
            trig_wf(*obj_trig),
            trig_wf(*cam_trig),
            object.mesh_renderable is Some,
            object.transform is Some,
            render_mesh_ok(object.mesh_renderable->0, object.transform->0.position),
            world_ok(camera_transform.position),
            width <= 16384,
            height <= 16384,
        ensures
            r@ == mesh_writes(*camera, *cam_trig, object.mesh_renderable->0.vertices@,
                object.mesh_renderable->0.triangles@, *obj_trig, object.transform->0.position,
                camera_transform.position, object.mesh_renderable->0.shader, width, height),
            forall|k: int|
                0 <= k < r@.len() ==> (#[trigger] r@[k]).x < width && r@[k].y < height,
    {
        let (mesh, transform) = match (&object.mesh_renderable, &object.transform) {
            (Some(m), Some(tr)) => (m, tr),
            _ => unreached(),
        };
        let projection_matrix = camera.get_projection_matrix(camera_transform, cam_trig);
        let mut ret: Vec<PixelWrite> = Vec::new();
        let n = mesh.triangles.len();
        let mut k: usize = 0;
        while k < n
            invariant
                cam_wf(*camera),
                trig_wf(*obj_trig),
                trig_wf(*cam_trig),
                k <= n,
                n == mesh.triangles@.len(),
                object.mesh_renderable == Some(*mesh),
                object.transform == Some(*transform),
                render_mesh_ok(*mesh, transform.position),
                world_ok(camera_transform.position),
                width <= 16384,
                height <= 16384,
                projection_matrix == crate::camera::projection_matrix_spec(*cam_trig),
                m3_abs_le(projection_matrix, 8 * SCALE as int),
                ret@ == mesh_writes_upto(*camera, *cam_trig, mesh.vertices@, mesh.triangles@,
                    *obj_trig, transform.position, camera_transform.position, mesh.shader, width,
                    height, k as int),
                forall|j: int|
                    0 <= j < ret@.len() ==> (#[trigger] ret@[j]).x < width && ret@[j].y < height,
            decreases n - k,
        {
            let tri = mesh.triangles[k];
            let mut writes = self.render_triangle(width, height, mesh, transform, obj_trig,
                camera, camera_transform, cam_trig, &projection_matrix, tri);
            let ghost pre = ret@;
            let ghost ws = writes@;
            let m = writes.len();
            let mut j: usize = 0;
            while j < m
                invariant
                    j <= m,
                    m == ws.len(),
                    writes@ == ws,
                    ret@ == pre + ws.take(j as int),
                decreases m - j,
            {
                let w = writes[j];
                ret.push(w);
                proof {
                    assert(ret@ =~= pre + ws.take(j + 1));
                }
                j += 1;
            }
            proof {
                assert(ws.take(m as int) =~= ws);
                assert(ret@ =~= mesh_writes_upto(*camera, *cam_trig, mesh.vertices@,
                    mesh.triangles@, *obj_trig, transform.position, camera_transform.position,
                    mesh.shader, width, height, k + 1));
            }
            k += 1;
        }
        ret
    }

    /// Renders one mesh entity: every triangle is scan-converted and the
    /// writes are merged into the grid with nearest-wins depth testing.
    pub fn render_mesh_object(
        &self,
        pixel_grid: &mut PixelGrid,
        width: u32,
        height: u32,
        object: &Object,
        obj_trig: &EulerTrig,
        camera: &Camera,
        camera_transform: &Transform,
        cam_trig: &EulerTrig,
    )
        requires
            grid_wf(*old(pixel_grid)),
            width == old(pixel_grid).width,
            height == old(pixel_grid).height,
            cam_wf(*camera),
            trig_wf(*obj_trig),
            trig_wf(*cam_trig),
            object.mesh_renderable is Some,
            object.transform is Some,
            render_mesh_ok(object.mesh_renderable->0, object.transform->0.position),
            world_ok(camera_transform.position),
        ensures
            grid_wf(*final(pixel_grid)),
            final(pixel_grid).width == old(pixel_grid).width,
            final(pixel_grid).height == old(pixel_grid).height,
            forall|x: int, y: int|
                0 <= x < old(pixel_grid).width && 0 <= y < old(pixel_grid).height
                    ==> #[trigger] folded_depth_at(
                    mesh_writes(*camera, *cam_trig, object.mesh_renderable->0.vertices@,
                        object.mesh_renderable->0.triangles@, *obj_trig,
                        object.transform->0.position, camera_transform.position,
                        object.mesh_renderable->0.shader, width, height),
                    *old(pixel_grid),
                    *final(pixel_grid),
                    x,
                    y,
                ) && folded_color_at(
                    mesh_writes(*camera, *cam_trig, object.mesh_renderable->0.vertices@,
                        object.mesh_renderable->0.triangles@, *obj_trig,
                        object.transform->0.position, camera_transform.position,
                        object.mesh_renderable->0.shader, width, height),
                    *old(pixel_grid),
                    *final(pixel_grid),
                    x,
                    y,
                ),
    {
        let writes = self.collect_mesh_writes(width, height, object, obj_trig, camera,
            camera_transform, cam_trig);
        pixel_grid.apply_writes(&writes);
    }
}

/// Checks the raster window bound.
fn in_window_exec(q: &V3) -> (r: bool)
    ensures
        r == in_window(*q),
{
    -RASTER_WINDOW <= q.x && q.x <= RASTER_WINDOW && -RASTER_WINDOW <= q.y && q.y <= RASTER_WINDOW
        && -RASTER_WINDOW <= q.z && q.z <= RASTER_WINDOW
}

/// The scan starts no further left or up than the viewport edge and ends no
/// further right or down.
proof fn lemma_bbox_in_viewport(job: RasterJob)
    requires
        job_wf(job),
    ensures
        -(job.width as int / 2) <= box_xs(job),
        box_xe(job) <= job.width as int / 2,
        -(job.height as int / 2) <= box_ys(job),
        box_ye(job) <= job.height as int / 2,
{
    let w2 = job.width as int / 2;
    let h2 = job.height as int / 2;
    lemma_fxround_lb(imax(imin(imin(job.q1.x as int, job.q2.x as int), job.q3.x as int), -(w2
        * SCALE)), w2);
    lemma_fxround_ub(imin(imax(imax(job.q1.x as int, job.q2.x as int), job.q3.x as int), w2
        * SCALE), w2);
    lemma_fxround_lb(imax(imin(imin(job.q1.y as int, job.q2.y as int), job.q3.y as int), -(h2
        * SCALE)), h2);
    lemma_fxround_ub(imin(imax(imax(job.q1.y as int, job.q2.y as int), job.q3.y as int), h2
        * SCALE), h2);
}

} // verus!
