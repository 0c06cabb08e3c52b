//! Ray intersections: ray–triangle and ray–sphere tests on plain geometry,
//! with exact determinant arithmetic in place of a floating-point matrix
//! inverse.

use vstd::prelude::*;

use crate::fixed::{fits64, fxmul, iabs, lemma_mul_bound, lemma_tdiv_cancel, lemma_tdiv_le,
    lemma_tdiv_mono, tdiv, SCALE};
use crate::vector::{v3_abs_le, v3_add, v3_interp3, v3_neg, v3_scale, v3_sub, V3};
use crate::vertex::Vertex;

verus! {

/// Hits farther than this along the ray are discarded, so positions never
/// leave the representable range.
pub const MAX_HIT_DISTANCE: i64 = 0x100_0000_0000;

/// One ray hit: where, the surface normal there, and how far along the ray.
#[derive(Clone, Copy, Debug)]
pub struct HitInfo {
    pub position: V3,
    /// The normal of the surface hit at the point where the ray hit.
    pub normal: V3,
    pub distance: i64,
}

/// Determinant of the 3×3 matrix with columns `a`, `b`, `c`, on raw
/// coordinates (no fixed-point rescale).
pub open spec fn det3(a: V3, b: V3, c: V3) -> int {
    a.x * (b.y * c.z - b.z * c.y) - b.x * (a.y * c.z - a.z * c.y) + c.x * (a.y * b.z - a.z * b.y)
}

/// The fraction `n / d` is negative (`d != 0`).
pub open spec fn frac_neg(n: int, d: int) -> bool {
    if d > 0 {
        n < 0
    } else {
        n > 0
    }
}

/// The fraction `n / d` is positive (`d != 0`).
pub open spec fn frac_pos(n: int, d: int) -> bool {
    if d > 0 {
        n > 0
    } else {
        n < 0
    }
}

/// Coordinate bound on the triangle, ray start and direction under which the
/// intersection arithmetic is exact.
pub open spec fn tri_ray_ok(a: V3, b: V3, c: V3, start: V3, dir: V3) -> bool {
    &&& v3_abs_le(a, 0x4000_0000)
    &&& v3_abs_le(b, 0x4000_0000)
    &&& v3_abs_le(c, 0x4000_0000)
    &&& v3_abs_le(start, 0x4000_0000)
    &&& v3_abs_le(dir, 0x10_0000)
}

/// The denominator of the barycentric solve: the matrix [b-a, c-a, -dir].
pub open spec fn tri_den(a: V3, b: V3, c: V3, dir: V3) -> int {
    det3(v3_sub(b, a), v3_sub(c, a), v3_neg(dir))
}

/// Numerator of the second-vertex weight `v`.
pub open spec fn tri_num_v(a: V3, b: V3, c: V3, start: V3, dir: V3) -> int {
    det3(v3_sub(start, a), v3_sub(c, a), v3_neg(dir))
}

/// Numerator of the third-vertex weight `w`.
pub open spec fn tri_num_w(a: V3, b: V3, c: V3, start: V3, dir: V3) -> int {
    det3(v3_sub(b, a), v3_sub(start, a), v3_neg(dir))
}

/// Numerator of the ray parameter `t`.
pub open spec fn tri_num_t(a: V3, b: V3, c: V3, start: V3, dir: V3) -> int {
    det3(v3_sub(b, a), v3_sub(c, a), v3_sub(start, a))
}

/// The fixed-point ray parameter of the triangle hit.
pub open spec fn tri_t_fx(a: V3, b: V3, c: V3, start: V3, dir: V3) -> int {
    tdiv(tri_num_t(a, b, c, start, dir) * SCALE, tri_den(a, b, c, dir))
}

/// The ray hits the triangle: the solve is regular, the barycentric weights
/// are nonnegative and sum to at most one, the parameter is nonnegative, not
/// beyond `max_distance` when one is given, and within the representable
/// range.
pub open spec fn tri_hit_ok(a: V3, b: V3, c: V3, start: V3, dir: V3, max_distance: Option<i64>) -> bool {
    let den = tri_den(a, b, c, dir);
    let nv = tri_num_v(a, b, c, start, dir);
    let nw = tri_num_w(a, b, c, start, dir);
    let nt = tri_num_t(a, b, c, start, dir);
    &&& den != 0
    &&& !frac_neg(nt, den)
    &&& !frac_neg(nv, den)
    &&& !frac_neg(nw, den)
    &&& !frac_pos(nv + nw - den, den)
    &&& tri_t_fx(a, b, c, start, dir) <= MAX_HIT_DISTANCE
    &&& match max_distance {
        Some(m) => tri_t_fx(a, b, c, start, dir) <= m,
        None => true,
    }
}

/// The interpolated hit position: barycentric blend of the three vertex
/// positions with weights (1-v-w, v, w) over the common denominator.
pub open spec fn tri_hit_position(av: Vertex, bv: Vertex, cv: Vertex, start: V3, dir: V3) -> V3 {
    let den = tri_den(av.position, bv.position, cv.position, dir);
    let nv = tri_num_v(av.position, bv.position, cv.position, start, dir);
    let nw = tri_num_w(av.position, bv.position, cv.position, start, dir);
    v3_interp3(av.position, den - nv - nw, bv.position, nv, cv.position, nw, den)
}

/// The interpolated hit normal: the same blend over the vertex normals.
pub open spec fn tri_hit_normal(av: Vertex, bv: Vertex, cv: Vertex, start: V3, dir: V3) -> V3 {
    let den = tri_den(av.position, bv.position, cv.position, dir);
    let nv = tri_num_v(av.position, bv.position, cv.position, start, dir);
    let nw = tri_num_w(av.position, bv.position, cv.position, start, dir);
    v3_interp3(av.normal, den - nv - nw, bv.normal, nv, cv.normal, nw, den)
}

/// Exact 3×3 determinant over 128-bit intermediates.
fn det3_exec(a: &V3, b: &V3, c: &V3) -> (r: i128)
    requires
        v3_abs_le(*a, 0x1_0000_0000),
        v3_abs_le(*b, 0x1_0000_0000),
        v3_abs_le(*c, 0x1_0000_0000),
    ensures
        r as int == det3(*a, *b, *c),
{
    proof {
        lemma_det3_bound(*a, *b, *c, 0x1_0000_0000);
    }
    let m1: i128 = (b.y as i128) * (c.z as i128) - (b.z as i128) * (c.y as i128);
    let m2: i128 = (a.y as i128) * (c.z as i128) - (a.z as i128) * (c.y as i128);
    let m3: i128 = (a.y as i128) * (b.z as i128) - (a.z as i128) * (b.y as i128);
    (a.x as i128) * m1 - (b.x as i128) * m2 + (c.x as i128) * m3
}

/// Bound on a determinant from per-coordinate bounds on its columns.
pub proof fn lemma_det3_bound(a: V3, b: V3, c: V3, bound: int)
    requires
        0 <= bound,
        v3_abs_le(a, bound),
        v3_abs_le(b, bound),
        v3_abs_le(c, bound),
    ensures
        iabs(det3(a, b, c)) <= 6 * bound * bound * bound,
        iabs(b.y * c.z) <= bound * bound,
        iabs(b.z * c.y) <= bound * bound,
        iabs(a.y * c.z) <= bound * bound,
        iabs(a.z * c.y) <= bound * bound,
        iabs(a.y * b.z) <= bound * bound,
        iabs(a.z * b.y) <= bound * bound,
        iabs(a.x * (b.y * c.z - b.z * c.y)) <= 2 * bound * bound * bound,
        iabs(b.x * (a.y * c.z - a.z * c.y)) <= 2 * bound * bound * bound,
        iabs(c.x * (a.y * b.z - a.z * b.y)) <= 2 * bound * bound * bound,
{
    lemma_mul_bound(b.y as int, c.z as int, bound, bound);
    lemma_mul_bound(b.z as int, c.y as int, bound, bound);
    lemma_mul_bound(a.y as int, c.z as int, bound, bound);
    lemma_mul_bound(a.z as int, c.y as int, bound, bound);
    lemma_mul_bound(a.y as int, b.z as int, bound, bound);
    lemma_mul_bound(a.z as int, b.y as int, bound, bound);
    lemma_mul_bound(a.x as int, b.y * c.z - b.z * c.y, bound, 2 * (bound * bound));
    lemma_mul_bound(b.x as int, a.y * c.z - a.z * c.y, bound, 2 * (bound * bound));
    lemma_mul_bound(c.x as int, a.y * b.z - a.z * b.y, bound, 2 * (bound * bound));
    assert(bound * (2 * (bound * bound)) == 2 * bound * bound * bound && 6 * bound * bound * bound
        == 3 * (bound * (2 * (bound * bound))) && 2 * bound * bound == 2 * (bound * bound))
        by (nonlinear_arith);
}

/// Bound on a determinant from one bound per column.
pub proof fn lemma_det3_bound3(a: V3, b: V3, c: V3, ba: int, bb: int, bc: int)
    requires
        0 <= ba,
        0 <= bb,
        0 <= bc,
        v3_abs_le(a, ba),
        v3_abs_le(b, bb),
        v3_abs_le(c, bc),
    ensures
        iabs(det3(a, b, c)) <= 6 * ba * bb * bc,
{
    lemma_mul_bound(b.y as int, c.z as int, bb, bc);
    lemma_mul_bound(b.z as int, c.y as int, bb, bc);
    lemma_mul_bound(a.y as int, c.z as int, ba, bc);
    lemma_mul_bound(a.z as int, c.y as int, ba, bc);
    lemma_mul_bound(a.y as int, b.z as int, ba, bb);
    lemma_mul_bound(a.z as int, b.y as int, ba, bb);
    lemma_mul_bound(a.x as int, b.y * c.z - b.z * c.y, ba, 2 * (bb * bc));
    lemma_mul_bound(b.x as int, a.y * c.z - a.z * c.y, bb, 2 * (ba * bc));
    lemma_mul_bound(c.x as int, a.y * b.z - a.z * b.y, bc, 2 * (ba * bb));
    assert(ba * (2 * (bb * bc)) == 2 * ba * bb * bc && bb * (2 * (ba * bc)) == 2 * ba * bb * bc
        && bc * (2 * (ba * bb)) == 2 * ba * bb * bc && 6 * ba * bb * bc == 3 * (2 * ba * bb * bc))
        by (nonlinear_arith);
}

/// Casts one ray against one triangle whose vertices are already in world
/// space: the exact barycentric solve, with a singular matrix or any failed
/// range check reported as a miss.
pub fn ray_triangle_intersect(
    av: &Vertex,
    bv: &Vertex,
    cv: &Vertex,
    start: V3,
    dir: V3,
    max_distance: Option<i64>,
) -> (r: Option<HitInfo>)
    requires
        tri_ray_ok(av.position, bv.position, cv.position, start, dir),
        v3_abs_le(av.normal, 0x4000_0000),
        v3_abs_le(bv.normal, 0x4000_0000),
        v3_abs_le(cv.normal, 0x4000_0000),
    ensures
        match r {
            Some(h) => {
                &&& tri_hit_ok(av.position, bv.position, cv.position, start, dir, max_distance)
                &&& h.distance as int == tri_t_fx(av.position, bv.position, cv.position, start,
                    dir)
                &&& h.position == tri_hit_position(*av, *bv, *cv, start, dir)
                &&& h.normal == tri_hit_normal(*av, *bv, *cv, start, dir)
            },
            None => !tri_hit_ok(av.position, bv.position, cv.position, start, dir, max_distance),
        },
{
    let a = av.position;
    let e1 = bv.position.sub(&a);
    let e2 = cv.position.sub(&a);
    let nd = dir.neg();
    let s = start.sub(&a);
    let den = det3_exec(&e1, &e2, &nd);
    proof {
        lemma_det3_bound3(v3_sub(bv.position, a), v3_sub(cv.position, a), v3_neg(dir),
            0x8000_0000, 0x8000_0000, 0x10_0000);
        lemma_det3_bound3(v3_sub(bv.position, a), v3_sub(cv.position, a), v3_sub(start, a),
            0x8000_0000, 0x8000_0000, 0x8000_0000);
        lemma_det3_bound3(v3_sub(start, a), v3_sub(cv.position, a), v3_neg(dir), 0x8000_0000,
            0x8000_0000, 0x10_0000);
        lemma_det3_bound3(v3_sub(bv.position, a), v3_sub(start, a), v3_neg(dir), 0x8000_0000,
            0x8000_0000, 0x10_0000);
    }
    if den == 0 {
        return None;
    }
    let nt = det3_exec(&e1, &e2, &s);
    let nv = det3_exec(&s, &e2, &nd);
    let nw = det3_exec(&e1, &s, &nd);
    // t < 0, v < 0, w < 0, or v + w > 1: no intersection.
    if frac_neg_exec(nt, den) || frac_neg_exec(nv, den) || frac_neg_exec(nw, den) {
        return None;
    }
    if frac_pos_exec(nv + nw - den, den) {
        return None;
    }
    let t = crate::fixed::div_trunc_128(nt * (SCALE as i128), den);
    proof {
        lemma_tdiv_le(nt as int * SCALE as int, den as int);
    }
    if t > MAX_HIT_DISTANCE as i128 {
        return None;
    }
    match max_distance {
        Some(m) => {
            if t > m as i128 {
                return None;
            }
        },
        None => {},
    }
    proof {
        lemma_weights_bounded(nv as int, nw as int, den as int);
        lemma_interp_fits(av.position, bv.position, cv.position, nv as int, nw as int,
            den as int);
        lemma_interp_fits(av.normal, bv.normal, cv.normal, nv as int, nw as int, den as int);
        assert(t >= 0) by {
            if den > 0 {
                assert(nt >= 0);
            } else {
                assert(nt <= 0);
            }
        }
    }
    let position = interp3_128(&av.position, &bv.position, &cv.position, den - nv - nw, nv, nw,
        den);
    let normal = interp3_128(&av.normal, &bv.normal, &cv.normal, den - nv - nw, nv, nw, den);
    Some(HitInfo { position, normal, distance: t as i64 })
}

/// `n / d < 0` on 128-bit values.
fn frac_neg_exec(n: i128, d: i128) -> (r: bool)
    requires
        d != 0,
    ensures
        r == frac_neg(n as int, d as int),
{
    if d > 0 {
        n < 0
    } else {
        n > 0
    }
}

/// `n / d > 0` on 128-bit values.
fn frac_pos_exec(n: i128, d: i128) -> (r: bool)
    requires
        d != 0,
    ensures
        r == frac_pos(n as int, d as int),
{
    if d > 0 {
        n > 0
    } else {
        n < 0
    }
}

/// Accepted barycentric numerators are bounded by the denominator.
proof fn lemma_weights_bounded(nv: int, nw: int, den: int)
    requires
        den != 0,
        !frac_neg(nv, den),
        !frac_neg(nw, den),
        !frac_pos(nv + nw - den, den),
    ensures
        iabs(nv) <= iabs(den),
        iabs(nw) <= iabs(den),
        iabs(den - nv - nw) <= iabs(den),
{
}

/// The barycentric blend of bounded points with weights bounded by the
/// denominator stays bounded by three times the point bound.
proof fn lemma_interp_fits(p1: V3, p2: V3, p3: V3, nv: int, nw: int, den: int)
    requires
        den != 0,
        iabs(nv) <= iabs(den),
        iabs(nw) <= iabs(den),
        iabs(den - nv - nw) <= iabs(den),
        v3_abs_le(p1, 0x4000_0000),
        v3_abs_le(p2, 0x4000_0000),
        v3_abs_le(p3, 0x4000_0000),
    ensures
        v3_abs_le(v3_interp3(p1, den - nv - nw, p2, nv, p3, nw, den), 3 * 0x4000_0000int),
{
    let nu = den - nv - nw;
    lemma_mul_bound(p1.x as int, nu, 0x4000_0000, iabs(den));
    lemma_mul_bound(p2.x as int, nv, 0x4000_0000, iabs(den));
    lemma_mul_bound(p3.x as int, nw, 0x4000_0000, iabs(den));
    lemma_mul_bound(p1.y as int, nu, 0x4000_0000, iabs(den));
    lemma_mul_bound(p2.y as int, nv, 0x4000_0000, iabs(den));
    lemma_mul_bound(p3.y as int, nw, 0x4000_0000, iabs(den));
    lemma_mul_bound(p1.z as int, nu, 0x4000_0000, iabs(den));
    lemma_mul_bound(p2.z as int, nv, 0x4000_0000, iabs(den));
    lemma_mul_bound(p3.z as int, nw, 0x4000_0000, iabs(den));
    lemma_interp_channel_fits(p1.x * nu + p2.x * nv + p3.x * nw, den);
    lemma_interp_channel_fits(p1.y * nu + p2.y * nv + p3.y * nw, den);
    lemma_interp_channel_fits(p1.z * nu + p2.z * nv + p3.z * nw, den);
}

/// Division of a sum bounded by `3 * 0x4000_0000 * |den|` by `den`.
proof fn lemma_interp_channel_fits(num: int, den: int)
    requires
        den != 0,
        iabs(num) <= 3 * 0x4000_0000int * iabs(den),
    ensures
        iabs(tdiv(num, den)) <= 3 * 0x4000_0000,
{
    lemma_tdiv_le(num, den);
    lemma_tdiv_mono(num, iabs(den), 3 * 0x4000_0000int * iabs(den));
    assert(3 * 0x4000_0000int * iabs(den) == (3 * 0x4000_0000int) * iabs(den)) by (nonlinear_arith);
    lemma_tdiv_cancel(3 * 0x4000_0000int, iabs(den));
    assert(iabs(tdiv(num, den)) == iabs(tdiv(num, iabs(den))));
}

/// Truncating division is unchanged when both operands are negated.
pub proof fn lemma_tdiv_neg(a: int, b: int)
    requires
        b != 0,
    ensures
        tdiv(-a, -b) == tdiv(a, b),
{
    assert(iabs(-a) == iabs(a) && iabs(-b) == iabs(b));
}

/// Swapping the second and third triangle vertices negates every determinant
/// of the barycentric solve and swaps the two weight numerators.
proof fn lemma_tri_dets_swap(a: V3, b: V3, c: V3, start: V3, dir: V3)
    ensures
        tri_den(a, c, b, dir) == -tri_den(a, b, c, dir),
        tri_num_t(a, c, b, start, dir) == -tri_num_t(a, b, c, start, dir),
        tri_num_v(a, c, b, start, dir) == -tri_num_w(a, b, c, start, dir),
        tri_num_w(a, c, b, start, dir) == -tri_num_v(a, b, c, start, dir),
{
    let e1 = v3_sub(b, a);
    let e2 = v3_sub(c, a);
    let nd = v3_neg(dir);
    let sv = v3_sub(start, a);
    assert(det3(e2, e1, nd) == -det3(e1, e2, nd)) by (nonlinear_arith);
    assert(det3(e2, e1, sv) == -det3(e1, e2, sv)) by (nonlinear_arith);
    assert(det3(sv, e1, nd) == -det3(e1, sv, nd)) by (nonlinear_arith);
    assert(det3(e2, sv, nd) == -det3(sv, e2, nd)) by (nonlinear_arith);
}

/// Re-ordering the triangle's vertices does not change whether the ray hits,
/// nor the hit's parameter, position or normal: the intersection depends on
/// the triangle, not on how it is written down.  Shown here for swapping the
/// second and third vertices.
pub proof fn lemma_ray_triangle_vertex_order(
    av: Vertex,
    bv: Vertex,
    cv: Vertex,
    start: V3,
    dir: V3,
    max_distance: Option<i64>,
)
    ensures
        tri_hit_ok(av.position, cv.position, bv.position, start, dir, max_distance) == tri_hit_ok(
            av.position,
            bv.position,
            cv.position,
            start,
            dir,
            max_distance,
        ),
        tri_den(av.position, bv.position, cv.position, dir) != 0 ==> tri_t_fx(av.position,
            cv.position, bv.position, start, dir) == tri_t_fx(av.position, bv.position,
            cv.position, start, dir),
        tri_den(av.position, bv.position, cv.position, dir) != 0 ==> tri_hit_position(av, cv, bv,
            start, dir) == tri_hit_position(av, bv, cv, start, dir),
        tri_den(av.position, bv.position, cv.position, dir) != 0 ==> tri_hit_normal(av, cv, bv,
            start, dir) == tri_hit_normal(av, bv, cv, start, dir),
{
    let a = av.position;
    let b = bv.position;
    let c = cv.position;
    lemma_tri_dets_swap(a, b, c, start, dir);
    let den = tri_den(a, b, c, dir);
    let nt = tri_num_t(a, b, c, start, dir);
    let nv = tri_num_v(a, b, c, start, dir);
    let nw = tri_num_w(a, b, c, start, dir);
    if den != 0 {
        lemma_tdiv_neg(nt * SCALE, den);
        assert((-nt) * SCALE == -(nt * SCALE)) by (nonlinear_arith);
        lemma_interp_swap(av.position, bv.position, cv.position, nv, nw, den);
        lemma_interp_swap(av.normal, bv.normal, cv.normal, nv, nw, den);
    }
}

/// Negating the weights and the denominator, and swapping the last two
/// points, leaves the barycentric blend unchanged.
proof fn lemma_interp_swap(p1: V3, p2: V3, p3: V3, nv: int, nw: int, den: int)
    requires
        den != 0,
    ensures
        v3_interp3(p1, -den - (-nw) - (-nv), p3, -nw, p2, -nv, -den) == v3_interp3(
            p1,
            den - nv - nw,
            p2,
            nv,
            p3,
            nw,
            den,
        ),
{
    let u = den - nv - nw;
    assert(p1.x * (-u) + p3.x * (-nw) + p2.x * (-nv) == -(p1.x * u + p2.x * nv + p3.x * nw))
        by (nonlinear_arith);
    assert(p1.y * (-u) + p3.y * (-nw) + p2.y * (-nv) == -(p1.y * u + p2.y * nv + p3.y * nw))
        by (nonlinear_arith);
    assert(p1.z * (-u) + p3.z * (-nw) + p2.z * (-nv) == -(p1.z * u + p2.z * nv + p3.z * nw))
        by (nonlinear_arith);
    lemma_tdiv_neg(p1.x * u + p2.x * nv + p3.x * nw, den);
    lemma_tdiv_neg(p1.y * u + p2.y * nv + p3.y * nw, den);
    lemma_tdiv_neg(p1.z * u + p2.z * nv + p3.z * nw, den);
    assert(-den - (-nw) - (-nv) == -u);
}

/// Negating the first column negates the determinant.
proof fn lemma_det3_neg_col1(a: V3, b: V3, c: V3, an: V3)
    requires
        an.x == -a.x && an.y == -a.y && an.z == -a.z,
    ensures
        det3(an, b, c) == -det3(a, b, c),
{
    assert(det3(an, b, c) == -det3(a, b, c)) by (nonlinear_arith)
        requires
            an.x == -a.x && an.y == -a.y && an.z == -a.z,
    ;
}

/// Distribution of a difference over a product, on the left and the right.
proof fn lemma_sub_mul(p: int, q: int, m: int)
    ensures
        (p - q) * m == p * m - q * m,
        m * (p - q) == m * p - m * q,
{
    assert((p - q) * m == p * m - q * m && m * (p - q) == m * p - m * q) by (nonlinear_arith);
}

/// The determinant is additive in its first column.
proof fn lemma_det3_sub_col1(b1: V3, b2: V3, b: V3, c: V3, bd: V3)
    requires
        bd.x == b1.x - b2.x && bd.y == b1.y - b2.y && bd.z == b1.z - b2.z,
    ensures
        det3(bd, b, c) == det3(b1, b, c) - det3(b2, b, c),
{
    lemma_sub_mul(b1.x as int, b2.x as int, b.y * c.z - b.z * c.y);
    lemma_sub_mul(b1.y as int, b2.y as int, c.z as int);
    lemma_sub_mul(b1.z as int, b2.z as int, c.y as int);
    lemma_sub_mul(b1.y * c.z - b2.y * c.z, b1.z * c.y - b2.z * c.y, b.x as int);
    lemma_sub_mul(b1.y as int, b2.y as int, b.z as int);
    lemma_sub_mul(b1.z as int, b2.z as int, b.y as int);
    lemma_sub_mul(b1.y * b.z - b2.y * b.z, b1.z * b.y - b2.z * b.y, c.x as int);
    assert(b.x * ((b1.y * c.z - b2.y * c.z) - (b1.z * c.y - b2.z * c.y)) == b.x * (b1.y * c.z
        - b1.z * c.y) - b.x * (b2.y * c.z - b2.z * c.y)) by (nonlinear_arith);
    assert(c.x * ((b1.y * b.z - b2.y * b.z) - (b1.z * b.y - b2.z * b.y)) == c.x * (b1.y * b.z
        - b1.z * b.y) - c.x * (b2.y * b.z - b2.z * b.y)) by (nonlinear_arith);
}

/// The determinant is additive in its second column.
proof fn lemma_det3_sub_col2(a: V3, b1: V3, b2: V3, c: V3, bd: V3)
    requires
        bd.x == b1.x - b2.x && bd.y == b1.y - b2.y && bd.z == b1.z - b2.z,
    ensures
        det3(a, bd, c) == det3(a, b1, c) - det3(a, b2, c),
{
    lemma_sub_mul(b1.y as int, b2.y as int, c.z as int);
    lemma_sub_mul(b1.z as int, b2.z as int, c.y as int);
    assert(a.x * ((b1.y * c.z - b2.y * c.z) - (b1.z * c.y - b2.z * c.y)) == a.x * (b1.y * c.z
        - b1.z * c.y) - a.x * (b2.y * c.z - b2.z * c.y)) by (nonlinear_arith);
    lemma_sub_mul(b1.x as int, b2.x as int, a.y * c.z - a.z * c.y);
    lemma_sub_mul(b1.z as int, b2.z as int, a.y as int);
    lemma_sub_mul(b1.y as int, b2.y as int, a.z as int);
    assert(c.x * ((a.y * b1.z - a.y * b2.z) - (a.z * b1.y - a.z * b2.y)) == c.x * (a.y * b1.z
        - a.z * b1.y) - c.x * (a.y * b2.z - a.z * b2.y)) by (nonlinear_arith);
    assert(a.y * bd.z == a.y * b1.z - a.y * b2.z && a.z * bd.y == a.z * b1.y - a.z * b2.y)
        by (nonlinear_arith)
        requires
            bd.y == b1.y - b2.y && bd.z == b1.z - b2.z,
    ;
}

/// The determinant is additive in its third column.
proof fn lemma_det3_sub_col3(a: V3, b: V3, c1: V3, c2: V3, cd: V3)
    requires
        cd.x == c1.x - c2.x && cd.y == c1.y - c2.y && cd.z == c1.z - c2.z,
    ensures
        det3(a, b, cd) == det3(a, b, c1) - det3(a, b, c2),
{
    lemma_sub_mul(c1.z as int, c2.z as int, b.y as int);
    lemma_sub_mul(c1.y as int, c2.y as int, b.z as int);
    assert(a.x * ((b.y * c1.z - b.y * c2.z) - (b.z * c1.y - b.z * c2.y)) == a.x * (b.y * c1.z
        - b.z * c1.y) - a.x * (b.y * c2.z - b.z * c2.y)) by (nonlinear_arith);
    assert(b.y * cd.z == b.y * c1.z - b.y * c2.z && b.z * cd.y == b.z * c1.y - b.z * c2.y)
        by (nonlinear_arith)
        requires
            cd.y == c1.y - c2.y && cd.z == c1.z - c2.z,
    ;
    lemma_sub_mul(c1.z as int, c2.z as int, a.y as int);
    lemma_sub_mul(c1.y as int, c2.y as int, a.z as int);
    assert(b.x * ((a.y * c1.z - a.y * c2.z) - (a.z * c1.y - a.z * c2.y)) == b.x * (a.y * c1.z
        - a.z * c1.y) - b.x * (a.y * c2.z - a.z * c2.y)) by (nonlinear_arith);
    assert(a.y * cd.z == a.y * c1.z - a.y * c2.z && a.z * cd.y == a.z * c1.y - a.z * c2.y)
        by (nonlinear_arith)
        requires
            cd.y == c1.y - c2.y && cd.z == c1.z - c2.z,
    ;
    lemma_sub_mul(c1.x as int, c2.x as int, a.y * b.z - a.z * b.y);
}

/// A determinant with a repeated column vanishes, and swapping the first two
/// columns negates it.
proof fn lemma_det3_alternating(a: V3, b: V3, c: V3)
    ensures
        det3(a, a, c) == 0,
        det3(a, b, a) == 0,
        det3(b, a, c) == -det3(a, b, c),
{
    assert(det3(a, a, c) == 0) by (nonlinear_arith);
    assert(det3(a, b, a) == 0) by (nonlinear_arith);
    assert(det3(b, a, c) == -det3(a, b, c)) by (nonlinear_arith);
}

/// Re-ordering the triangle's vertices does not change the hit: shown here
/// for swapping the first and second vertices.  Together with
/// [`lemma_ray_triangle_vertex_order`] (the swap of the second and third),
/// these two transpositions generate every ordering of the three vertices.
pub proof fn lemma_ray_triangle_first_vertex_order(
    av: Vertex,
    bv: Vertex,
    cv: Vertex,
    start: V3,
    dir: V3,
    max_distance: Option<i64>,
)
    requires
        tri_ray_ok(av.position, bv.position, cv.position, start, dir),
    ensures
        tri_hit_ok(bv.position, av.position, cv.position, start, dir, max_distance) == tri_hit_ok(
            av.position,
            bv.position,
            cv.position,
            start,
            dir,
            max_distance,
        ),
        tri_den(av.position, bv.position, cv.position, dir) != 0 ==> tri_t_fx(bv.position,
            av.position, cv.position, start, dir) == tri_t_fx(av.position, bv.position,
            cv.position, start, dir),
        tri_den(av.position, bv.position, cv.position, dir) != 0 ==> tri_hit_position(bv, av, cv,
            start, dir) == tri_hit_position(av, bv, cv, start, dir),
        tri_den(av.position, bv.position, cv.position, dir) != 0 ==> tri_hit_normal(bv, av, cv,
            start, dir) == tri_hit_normal(av, bv, cv, start, dir),
{
    let a = av.position;
    let b = bv.position;
    let c = cv.position;
    let e1 = v3_sub(b, a);
    let e2 = v3_sub(c, a);
    let sv = v3_sub(start, a);
    let nd = v3_neg(dir);
    let e1p = v3_sub(a, b);
    let e2p = v3_sub(c, b);
    let sp = v3_sub(start, b);
    // within the coordinate window every difference is exact
    assert(e1p.x == -e1.x && e1p.y == -e1.y && e1p.z == -e1.z);
    assert(e2p.x == e2.x - e1.x && e2p.y == e2.y - e1.y && e2p.z == e2.z - e1.z);
    assert(sp.x == sv.x - e1.x && sp.y == sv.y - e1.y && sp.z == sv.z - e1.z);
    let den = det3(e1, e2, nd);
    let nt = det3(e1, e2, sv);
    let nv = det3(sv, e2, nd);
    let nw = det3(e1, sv, nd);
    // the permuted solve's determinants, by multilinearity
    assert(det3(e1p, e2p, nd) == -den) by {
        lemma_det3_neg_col1(e1, e2p, nd, e1p);
        lemma_det3_sub_col2(e1, e2, e1, nd, e2p);
        lemma_det3_alternating(e1, e2, nd);
    }
    assert(det3(e1p, e2p, sp) == -nt) by {
        lemma_det3_neg_col1(e1, e2p, sp, e1p);
        lemma_det3_sub_col2(e1, e2, e1, sp, e2p);
        lemma_det3_alternating(e1, e2, sp);
        lemma_det3_sub_col3(e1, e2, sv, e1, sp);
        lemma_det3_alternating(e1, e2, sv);
    }
    assert(det3(sp, e2p, nd) == nv + nw - den) by {
        lemma_det3_sub_col1(sv, e1, e2p, nd, sp);
        lemma_det3_sub_col2(sv, e2, e1, nd, e2p);
        lemma_det3_sub_col2(e1, e2, e1, nd, e2p);
        lemma_det3_alternating(e1, e2, nd);
        lemma_det3_alternating(sv, e1, nd);
        lemma_det3_alternating(e1, sv, nd);
    }
    assert(det3(e1p, sp, nd) == -nw) by {
        lemma_det3_neg_col1(e1, sp, nd, e1p);
        lemma_det3_sub_col2(e1, sv, e1, nd, sp);
        lemma_det3_alternating(e1, sv, nd);
        lemma_det3_alternating(e1, e1, nd);
    }
    if den != 0 {
        lemma_tdiv_neg(nt * SCALE, den);
        assert((-nt) * SCALE == -(nt * SCALE)) by (nonlinear_arith);
        lemma_interp_first_swap(av.position, bv.position, cv.position, nv, nw, den);
        lemma_interp_first_swap(av.normal, bv.normal, cv.normal, nv, nw, den);
    }
}

/// Swapping the first two blend points while negating the denominator and
/// re-deriving the weights leaves the barycentric blend unchanged.
proof fn lemma_interp_first_swap(p1: V3, p2: V3, p3: V3, nv: int, nw: int, den: int)
    requires
        den != 0,
    ensures
        v3_interp3(p2, -nv, p1, nv + nw - den, p3, -nw, -den) == v3_interp3(
            p1,
            den - nv - nw,
            p2,
            nv,
            p3,
            nw,
            den,
        ),
{
    let u = den - nv - nw;
    assert(p2.x * (-nv) + p1.x * (nv + nw - den) + p3.x * (-nw) == -(p1.x * u + p2.x * nv + p3.x
        * nw)) by (nonlinear_arith)
        requires
            u == den - nv - nw,
    ;
    assert(p2.y * (-nv) + p1.y * (nv + nw - den) + p3.y * (-nw) == -(p1.y * u + p2.y * nv + p3.y
        * nw)) by (nonlinear_arith)
        requires
            u == den - nv - nw,
    ;
    assert(p2.z * (-nv) + p1.z * (nv + nw - den) + p3.z * (-nw) == -(p1.z * u + p2.z * nv + p3.z
        * nw)) by (nonlinear_arith)
        requires
            u == den - nv - nw,
    ;
    lemma_tdiv_neg(p1.x * u + p2.x * nv + p3.x * nw, den);
    lemma_tdiv_neg(p1.y * u + p2.y * nv + p3.y * nw, den);
    lemma_tdiv_neg(p1.z * u + p2.z * nv + p3.z * nw, den);
}

/// Barycentric blend with 128-bit weights over a common denominator.
pub(crate) fn interp3_128(p1: &V3, p2: &V3, p3: &V3, w1: i128, w2: i128, w3: i128, den: i128) -> (r: V3)
    requires
        den != 0,
        iabs(den as int) <= 0x20_0000_0000_0000_0000_0000,
        v3_abs_le(*p1, 0x4000_0000),
        v3_abs_le(*p2, 0x4000_0000),
        v3_abs_le(*p3, 0x4000_0000),
        iabs(w1 as int) <= 0x20_0000_0000_0000_0000_0000,
        iabs(w2 as int) <= 0x20_0000_0000_0000_0000_0000,
        iabs(w3 as int) <= 0x20_0000_0000_0000_0000_0000,
        fits64(v3_interp3(*p1, w1 as int, *p2, w2 as int, *p3, w3 as int, den as int).x as int),
        fits64(v3_interp3(*p1, w1 as int, *p2, w2 as int, *p3, w3 as int, den as int).y as int),
        fits64(v3_interp3(*p1, w1 as int, *p2, w2 as int, *p3, w3 as int, den as int).z as int),
    ensures
        r == v3_interp3(*p1, w1 as int, *p2, w2 as int, *p3, w3 as int, den as int),
{
    proof {
        lemma_mul_bound(p1.x as int, w1 as int, 0x4000_0000, 0x20_0000_0000_0000_0000_0000);
        lemma_mul_bound(p2.x as int, w2 as int, 0x4000_0000, 0x20_0000_0000_0000_0000_0000);
        lemma_mul_bound(p3.x as int, w3 as int, 0x4000_0000, 0x20_0000_0000_0000_0000_0000);
        lemma_mul_bound(p1.y as int, w1 as int, 0x4000_0000, 0x20_0000_0000_0000_0000_0000);
        lemma_mul_bound(p2.y as int, w2 as int, 0x4000_0000, 0x20_0000_0000_0000_0000_0000);
        lemma_mul_bound(p3.y as int, w3 as int, 0x4000_0000, 0x20_0000_0000_0000_0000_0000);
        lemma_mul_bound(p1.z as int, w1 as int, 0x4000_0000, 0x20_0000_0000_0000_0000_0000);
        lemma_mul_bound(p2.z as int, w2 as int, 0x4000_0000, 0x20_0000_0000_0000_0000_0000);
        lemma_mul_bound(p3.z as int, w3 as int, 0x4000_0000, 0x20_0000_0000_0000_0000_0000);
    }
    let sx: i128 = (p1.x as i128) * w1 + (p2.x as i128) * w2 + (p3.x as i128) * w3;
    let sy: i128 = (p1.y as i128) * w1 + (p2.y as i128) * w2 + (p3.y as i128) * w3;
    let sz: i128 = (p1.z as i128) * w1 + (p2.z as i128) * w2 + (p3.z as i128) * w3;
    let qx = crate::fixed::div_trunc_128(sx, den);
    let qy = crate::fixed::div_trunc_128(sy, den);
    let qz = crate::fixed::div_trunc_128(sz, den);
    V3 { x: qx as i64, y: qy as i64, z: qz as i64 }
}

/// The quadratic's leading coefficient for a ray direction: the fixed-point
/// squared length of `dir`, summed per component.
pub open spec fn sphere_qa(dir: V3) -> int {
    fxmul(dir.x as int, dir.x as int) + fxmul(dir.y as int, dir.y as int) + fxmul(
        dir.z as int,
        dir.z as int,
    )
}

/// The quadratic's linear coefficient: twice the component-wise product of
/// the start offset and the direction, summed.
pub open spec fn sphere_qb(n: V3, dir: V3) -> int {
    2 * fxmul(n.x as int, dir.x as int) + 2 * fxmul(n.y as int, dir.y as int) + 2 * fxmul(
        n.z as int,
        dir.z as int,
    )
}

/// The quadratic's constant coefficient: the squared start offset minus the
/// squared radius.
pub open spec fn sphere_qc(n: V3, radius: int) -> int {
    fxmul(n.x as int, n.x as int) + fxmul(n.y as int, n.y as int) + fxmul(n.z as int, n.z as int)
        - fxmul(radius, radius)
}

/// The quadratic's discriminant, at fixed-point scale.
pub open spec fn sphere_discr(a: int, b: int, c: int) -> int {
    fxmul(b, b) - 4 * fxmul(a, c)
}

/// The candidate ray parameters: one root on a zero discriminant, none on a
/// negative one, the larger root first otherwise; no candidates at all when
/// the direction is too short to give the quadratic a leading coefficient.
pub open spec fn sphere_roots(center: V3, radius: int, start: V3, dir: V3) -> Seq<int> {
    let n = v3_sub(start, center);
    let a = sphere_qa(dir);
    let b = sphere_qb(n, dir);
    let c = sphere_qc(n, radius);
    let d = sphere_discr(a, b, c);
    if a == 0 {
        Seq::empty()
    } else if d == 0 {
        seq![tdiv(-b * SCALE, 2 * a)]
    } else if d < 0 {
        Seq::empty()
    } else {
        seq![
            tdiv((-b + crate::fixed::isqrt_spec(d * SCALE)) * SCALE, 2 * a),
            tdiv((-b - crate::fixed::isqrt_spec(d * SCALE)) * SCALE, 2 * a),
        ]
    }
}

/// A candidate parameter is kept: nonnegative, within the representable
/// range, and within the ray's maximum distance when it has one.
pub open spec fn root_accepted(t: int, max_distance: Option<i64>) -> bool {
    0 <= t <= MAX_HIT_DISTANCE && match max_distance {
        Some(m) => t <= m,
        None => true,
    }
}

/// The surface normal at a hit: the offset from the center, normalized, or
/// zero when the hit is too close to the center to normalize.
pub open spec fn sphere_hit_normal(position: V3, center: V3) -> V3 {
    let diff = v3_sub(position, center);
    if crate::vector::v3_sq_sum(diff) >= 1 {
        crate::vector::v3_norm(diff)
    } else {
        V3 { x: 0i64, y: 0i64, z: 0i64 }
    }
}

/// The hit record for an accepted parameter.
pub open spec fn sphere_hit_for(center: V3, start: V3, dir: V3, t: int) -> HitInfo {
    let position = v3_add(start, v3_scale(dir, t));
    HitInfo { position, normal: sphere_hit_normal(position, center), distance: t as i64 }
}

/// The hits of a ray against a sphere, in root order.
pub open spec fn sphere_hits(
    center: V3,
    radius: int,
    start: V3,
    dir: V3,
    max_distance: Option<i64>,
) -> Seq<HitInfo> {
    let roots = sphere_roots(center, radius, start, dir);
    if roots.len() == 0 {
        Seq::empty()
    } else if roots.len() == 1 {
        maybe_hit(center, start, dir, roots[0], max_distance)
    } else {
        maybe_hit(center, start, dir, roots[0], max_distance) + maybe_hit(center, start, dir,
            roots[1], max_distance)
    }
}

/// One hit when the parameter is accepted, none otherwise.
pub open spec fn maybe_hit(center: V3, start: V3, dir: V3, t: int, max_distance: Option<i64>) -> Seq<HitInfo> {
    if root_accepted(t, max_distance) {
        seq![sphere_hit_for(center, start, dir, t)]
    } else {
        Seq::empty()
    }
}

/// Geometry bounds under which the sphere intersection is exact.
pub open spec fn sphere_ray_ok(center: V3, radius: int, start: V3, dir: V3) -> bool {
    &&& v3_abs_le(center, 0x4000_0000)
    &&& v3_abs_le(start, 0x4000_0000)
    &&& v3_abs_le(dir, 0x10_0000)
    &&& 0 <= radius <= 0x4000_0000
}

/// All intersections of a ray with a sphere, by the standard quadratic: a
/// zero leading coefficient or a negative discriminant yields no hit rather
/// than an undefined division.
pub fn ray_sphere_intersections(
    center: V3,
    radius: i64,
    start: V3,
    dir: V3,
    max_distance: Option<i64>,
) -> (r: Vec<HitInfo>)
    requires
        sphere_ray_ok(center, radius as int, start, dir),
    ensures
        r@ == sphere_hits(center, radius as int, start, dir, max_distance),
{
    proof {
        lemma_sphere_coeff_bounds(center, radius as int, start, dir);
    }
    let n = start.sub(&center);
    let ax: i128 = crate::fixed::div_trunc_128((dir.x as i128) * (dir.x as i128),
        SCALE as i128);
    let ay: i128 = crate::fixed::div_trunc_128((dir.y as i128) * (dir.y as i128),
        SCALE as i128);
    let az: i128 = crate::fixed::div_trunc_128((dir.z as i128) * (dir.z as i128),
        SCALE as i128);
    let qa: i128 = ax + ay + az;
    let bx: i128 = crate::fixed::div_trunc_128((n.x as i128) * (dir.x as i128), SCALE as i128);
    let by: i128 = crate::fixed::div_trunc_128((n.y as i128) * (dir.y as i128), SCALE as i128);
    let bz: i128 = crate::fixed::div_trunc_128((n.z as i128) * (dir.z as i128), SCALE as i128);
    let qb: i128 = 2 * bx + 2 * by + 2 * bz;
    let cx: i128 = crate::fixed::div_trunc_128((n.x as i128) * (n.x as i128), SCALE as i128);
    let cy: i128 = crate::fixed::div_trunc_128((n.y as i128) * (n.y as i128), SCALE as i128);
    let cz: i128 = crate::fixed::div_trunc_128((n.z as i128) * (n.z as i128), SCALE as i128);
    proof {
        crate::fixed::lemma_i64_product_fits(radius as int, radius as int);
    }
    let rr: i128 = crate::fixed::div_trunc_128((radius as i128) * (radius as i128),
        SCALE as i128);
    let qc: i128 = cx + cy + cz - rr;
    let mut ret: Vec<HitInfo> = Vec::new();
    if qa == 0 {
        return ret;
    }
    proof {
        lemma_mul_bound(qb as int, qb as int, 0x2000_0000_0000, 0x2000_0000_0000);
        lemma_mul_bound(qa as int, qc as int, 0x2_0000_0000, 0x100_0000_0000_0000);
        lemma_tdiv_mono(qb as int * qb as int, SCALE as int, 0x2000_0000_0000int
            * 0x2000_0000_0000);
        lemma_tdiv_mono(qa as int * qc as int, SCALE as int, 0x2_0000_0000int
            * 0x100_0000_0000_0000);
    }
    let bb: i128 = crate::fixed::div_trunc_128(qb * qb, SCALE as i128);
    let ac: i128 = crate::fixed::div_trunc_128(qa * qc, SCALE as i128);
    let discr: i128 = bb - 4 * ac;
    let ghost speca = sphere_qa(dir);
    let ghost specb = sphere_qb(v3_sub(start, center), dir);
    let ghost specc = sphere_qc(v3_sub(start, center), radius as int);
    let ghost specd = sphere_discr(speca, specb, specc);
    if discr == 0 {
        let t = crate::fixed::div_trunc_128(-qb * (SCALE as i128), 2 * qa);
        proof {
            assert(-qb * (SCALE as i128) == -(qb * (SCALE as i128))) by (nonlinear_arith);
            crate::fixed::lemma_tdiv_le(-specb * SCALE as int, 2 * speca);
            assert(-specb * SCALE as int == -(specb * SCALE as int)) by (nonlinear_arith);
        }
        push_accepted(&mut ret, center, start, dir, t, max_distance);
        proof {
            assert(ret@ =~= sphere_hits(center, radius as int, start, dir, max_distance));
        }
        return ret;
    }
    if discr < 0 {
        return ret;
    }
    let sq: u64 = crate::fixed::isqrt((discr as u128) * (SCALE as u128));
    proof {
        crate::fixed::lemma_isqrt_is(sq as int, specd * SCALE);
        crate::fixed::lemma_tdiv_le((-specb + sq) * SCALE as int, 2 * speca);
        crate::fixed::lemma_tdiv_le((-specb - sq) * SCALE as int, 2 * speca);
    }
    let t1 = crate::fixed::div_trunc_128((-qb + sq as i128) * (SCALE as i128), 2 * qa);
    let t2 = crate::fixed::div_trunc_128((-qb - sq as i128) * (SCALE as i128), 2 * qa);
    push_accepted(&mut ret, center, start, dir, t1, max_distance);
    push_accepted(&mut ret, center, start, dir, t2, max_distance);
    proof {
        assert(ret@ =~= sphere_hits(center, radius as int, start, dir, max_distance));
    }
    ret
}

/// Appends the hit for `t` when it is accepted.
fn push_accepted(
    ret: &mut Vec<HitInfo>,
    center: V3,
    start: V3,
    dir: V3,
    t: i128,
    max_distance: Option<i64>,
)
    requires
        v3_abs_le(center, 0x4000_0000),
        v3_abs_le(start, 0x4000_0000),
        v3_abs_le(dir, 0x10_0000),
    ensures
        final(ret)@ == old(ret)@ + maybe_hit(center, start, dir, t as int, max_distance),
{
    let accepted: bool = 0 <= t && t <= MAX_HIT_DISTANCE as i128 && (match max_distance {
        Some(m) => t <= m as i128,
        None => true,
    });
    if !accepted {
        proof {
            assert(old(ret)@ + maybe_hit(center, start, dir, t as int, max_distance) =~= old(
                ret,
            )@);
        }
        return ;
    }
    let tt: i64 = t as i64;
    proof {
        crate::fixed::lemma_mul_bound(dir.x as int, tt as int, 0x10_0000, 0x100_0000_0000);
        crate::fixed::lemma_mul_bound(dir.y as int, tt as int, 0x10_0000, 0x100_0000_0000);
        crate::fixed::lemma_mul_bound(dir.z as int, tt as int, 0x10_0000, 0x100_0000_0000);
        lemma_tdiv_mono(dir.x * tt, SCALE as int, 0x10_0000int * 0x100_0000_0000);
        lemma_tdiv_mono(dir.y * tt, SCALE as int, 0x10_0000int * 0x100_0000_0000);
        lemma_tdiv_mono(dir.z * tt, SCALE as int, 0x10_0000int * 0x100_0000_0000);
    }
    let step = dir.scale(tt);
    let position = start.add(&step);
    let diff = position.sub(&center);
    let normal: V3 = if diff.x == 0 && diff.y == 0 && diff.z == 0 {
        proof {
            assert(crate::vector::v3_sq_sum(v3_sub(position, center)) == 0) by (nonlinear_arith)
                requires
                    v3_sub(position, center).x == 0,
                    v3_sub(position, center).y == 0,
                    v3_sub(position, center).z == 0,
            ;
        }
        V3 { x: 0, y: 0, z: 0 }
    } else {
        proof {
            lemma_nonzero_sq_sum(diff);
        }
        diff.norm()
    };
    ret.push(HitInfo { position, normal, distance: tt });
    proof {
        assert(ret@ =~= old(ret)@ + maybe_hit(center, start, dir, t as int, max_distance));
    }
}

/// A vector with a nonzero component has a positive squared sum.
pub proof fn lemma_nonzero_sq_sum(v: V3)
    ensures
        !(v.x == 0 && v.y == 0 && v.z == 0) ==> crate::vector::v3_sq_sum(v) >= 1,
{
    assert(v.x * v.x >= 0 && v.y * v.y >= 0 && v.z * v.z >= 0) by (nonlinear_arith);
    if v.x != 0 {
        assert(v.x * v.x >= 1) by (nonlinear_arith)
            requires
                v.x != 0,
        ;
    }
    if v.y != 0 {
        assert(v.y * v.y >= 1) by (nonlinear_arith)
            requires
                v.y != 0,
        ;
    }
    if v.z != 0 {
        assert(v.z * v.z >= 1) by (nonlinear_arith)
            requires
                v.z != 0,
        ;
    }
}

/// Bounds for every product in the sphere quadratic.
proof fn lemma_sphere_coeff_bounds(center: V3, radius: int, start: V3, dir: V3)
    requires
        sphere_ray_ok(center, radius, start, dir),
    ensures
        ({
            let n = v3_sub(start, center);
            &&& iabs(sphere_qa(dir)) <= 0x2_0000_0000
            &&& iabs(sphere_qb(n, dir)) <= 0x2000_0000_0000
            &&& iabs(sphere_qc(n, radius)) <= 0x100_0000_0000_0000
            &&& iabs(fxmul(n.x as int, dir.x as int)) <= 0x400_0000_0000
            &&& iabs(fxmul(n.y as int, dir.y as int)) <= 0x400_0000_0000
            &&& iabs(fxmul(n.z as int, dir.z as int)) <= 0x400_0000_0000
            &&& iabs(fxmul(n.x as int, n.x as int)) <= 0x20_0000_0000_0000
            &&& iabs(fxmul(n.y as int, n.y as int)) <= 0x20_0000_0000_0000
            &&& iabs(fxmul(n.z as int, n.z as int)) <= 0x20_0000_0000_0000
            &&& iabs(fxmul(dir.x as int, dir.x as int)) <= 0x8000_0000
            &&& iabs(fxmul(dir.y as int, dir.y as int)) <= 0x8000_0000
            &&& iabs(fxmul(dir.z as int, dir.z as int)) <= 0x8000_0000
            &&& iabs(fxmul(radius, radius)) <= 0x20_0000_0000_0000
        }),
{
    let n = v3_sub(start, center);
    lemma_mul_bound(dir.x as int, dir.x as int, 0x10_0000, 0x10_0000);
    lemma_mul_bound(dir.y as int, dir.y as int, 0x10_0000, 0x10_0000);
    lemma_mul_bound(dir.z as int, dir.z as int, 0x10_0000, 0x10_0000);
    lemma_tdiv_mono(dir.x * dir.x, SCALE as int, 0x10_0000int * 0x10_0000);
    lemma_tdiv_mono(dir.y * dir.y, SCALE as int, 0x10_0000int * 0x10_0000);
    lemma_tdiv_mono(dir.z * dir.z, SCALE as int, 0x10_0000int * 0x10_0000);
    lemma_mul_bound(n.x as int, dir.x as int, 0x8000_0000, 0x10_0000);
    lemma_mul_bound(n.y as int, dir.y as int, 0x8000_0000, 0x10_0000);
    lemma_mul_bound(n.z as int, dir.z as int, 0x8000_0000, 0x10_0000);
    lemma_tdiv_mono(n.x * dir.x, SCALE as int, 0x8000_0000int * 0x10_0000);
    lemma_tdiv_mono(n.y * dir.y, SCALE as int, 0x8000_0000int * 0x10_0000);
    lemma_tdiv_mono(n.z * dir.z, SCALE as int, 0x8000_0000int * 0x10_0000);
    lemma_mul_bound(n.x as int, n.x as int, 0x8000_0000, 0x8000_0000);
    lemma_mul_bound(n.y as int, n.y as int, 0x8000_0000, 0x8000_0000);
    lemma_mul_bound(n.z as int, n.z as int, 0x8000_0000, 0x8000_0000);
    lemma_tdiv_mono(n.x * n.x, SCALE as int, 0x8000_0000int * 0x8000_0000);
    lemma_tdiv_mono(n.y * n.y, SCALE as int, 0x8000_0000int * 0x8000_0000);
    lemma_tdiv_mono(n.z * n.z, SCALE as int, 0x8000_0000int * 0x8000_0000);
    lemma_mul_bound(radius, radius, 0x4000_0000, 0x4000_0000);
    lemma_tdiv_mono(radius * radius, SCALE as int, 0x4000_0000int * 0x4000_0000);
}

} // verus!
