//! Column-major 3×3 matrices and the Euler rotation matrix.
//!
//! A matrix entry is a fixed-point scalar like every other quantity, so a
//! matrix–vector product rescales once per component.  Rotation matrices are
//! built from caller-supplied sine/cosine triples: the trigonometry itself is
//! the host's business, while the matrix construction and its use are exact.

use vstd::prelude::*;

use crate::fixed::{fits64, fxmul, iabs, lemma_mul_bound, lemma_tdiv_le, tdiv, SCALE};
use crate::vector::{v3_abs_le, V3};

verus! {

/// A 3×3 matrix stored as three columns.
#[derive(Clone, Copy, Debug)]
pub struct M3x3 {
    pub columns: [V3; 3],
}

/// The sine/cosine triple of an (x, y, z) Euler rotation, as fixed-point
/// values.  The host computes it for arbitrary angles;
/// [`EulerTrig::for_right_angles`] builds it exactly for quarter turns.
#[derive(Clone, Copy, Debug, PartialEq, Eq, Structural)]
pub struct EulerTrig {
    pub sin: V3,
    pub cos: V3,
}

/// A sine or cosine value can be at most one in magnitude.
pub open spec fn trig_wf(t: EulerTrig) -> bool {
    v3_abs_le(t.sin, SCALE as int) && v3_abs_le(t.cos, SCALE as int)
}

/// The matrix–vector product, truncated once per component.
pub open spec fn m3_mul_v3(m: M3x3, v: V3) -> V3 {
    V3 {
        x: tdiv(m.columns[0].x * v.x + m.columns[1].x * v.y + m.columns[2].x * v.z, SCALE as int) as i64,
        y: tdiv(m.columns[0].y * v.x + m.columns[1].y * v.y + m.columns[2].y * v.z, SCALE as int) as i64,
        z: tdiv(m.columns[0].z * v.x + m.columns[1].z * v.y + m.columns[2].z * v.z, SCALE as int) as i64,
    }
}

/// Every entry's magnitude is at most `b`.
pub open spec fn m3_abs_le(m: M3x3, b: int) -> bool {
    v3_abs_le(m.columns[0], b) && v3_abs_le(m.columns[1], b) && v3_abs_le(m.columns[2], b)
}

/// The intrinsic z→y→x Euler rotation matrix built from a sine/cosine
/// triple, with the exact fixed-point roundings of the construction.
pub open spec fn rotation_matrix_spec(t: EulerTrig) -> M3x3 {
    let sin_a = t.sin.z as int;
    let sin_b = t.sin.y as int;
    let sin_y = t.sin.x as int;
    let cos_a = t.cos.z as int;
    let cos_b = t.cos.y as int;
    let cos_y = t.cos.x as int;
    M3x3 {
        columns: [
            V3 {
                x: fxmul(cos_a, cos_b) as i64,
                y: fxmul(sin_a, cos_b) as i64,
                z: (-sin_b) as i64,
            },
            V3 {
                x: (fxmul(fxmul(cos_a, sin_b), sin_y) - fxmul(sin_a, cos_y)) as i64,
                y: (fxmul(fxmul(sin_a, sin_b), sin_y) + fxmul(cos_a, cos_y)) as i64,
                z: fxmul(cos_b, sin_y) as i64,
            },
            V3 {
                x: (fxmul(fxmul(cos_a, sin_b), cos_y) + fxmul(sin_a, sin_y)) as i64,
                y: (fxmul(fxmul(sin_a, sin_b), cos_y) - fxmul(cos_a, sin_y)) as i64,
                z: fxmul(cos_b, cos_y) as i64,
            },
        ],
    }
}

impl M3x3 {
    pub fn new(columns: [V3; 3]) -> (r: M3x3)
        ensures
            r == (M3x3 { columns }),
    {
        M3x3 { columns }
    }

    /// The product of this matrix with a column vector.
    pub fn mul_v3(&self, v: &V3) -> (r: V3)
        requires
            m3_abs_le(*self, 0x1000_0000_0000_0000),
            v3_abs_le(*v, 0x1000_0000_0000_0000),
            fits64(m3_mul_v3(*self, *v).x as int),
            fits64(m3_mul_v3(*self, *v).y as int),
            fits64(m3_mul_v3(*self, *v).z as int),
        ensures
            r == m3_mul_v3(*self, *v),
    {
        proof {
            lemma_mul_bound(self.columns[0].x as int, v.x as int, 0x1000_0000_0000_0000, 0x1000_0000_0000_0000);
            lemma_mul_bound(self.columns[1].x as int, v.y as int, 0x1000_0000_0000_0000, 0x1000_0000_0000_0000);
            lemma_mul_bound(self.columns[2].x as int, v.z as int, 0x1000_0000_0000_0000, 0x1000_0000_0000_0000);
            lemma_mul_bound(self.columns[0].y as int, v.x as int, 0x1000_0000_0000_0000, 0x1000_0000_0000_0000);
            lemma_mul_bound(self.columns[1].y as int, v.y as int, 0x1000_0000_0000_0000, 0x1000_0000_0000_0000);
            lemma_mul_bound(self.columns[2].y as int, v.z as int, 0x1000_0000_0000_0000, 0x1000_0000_0000_0000);
            lemma_mul_bound(self.columns[0].z as int, v.x as int, 0x1000_0000_0000_0000, 0x1000_0000_0000_0000);
            lemma_mul_bound(self.columns[1].z as int, v.y as int, 0x1000_0000_0000_0000, 0x1000_0000_0000_0000);
            lemma_mul_bound(self.columns[2].z as int, v.z as int, 0x1000_0000_0000_0000, 0x1000_0000_0000_0000);
        }
        let sx: i128 = (self.columns[0].x as i128) * (v.x as i128) + (self.columns[1].x as i128)
            * (v.y as i128) + (self.columns[2].x as i128) * (v.z as i128);
        let sy: i128 = (self.columns[0].y as i128) * (v.x as i128) + (self.columns[1].y as i128)
            * (v.y as i128) + (self.columns[2].y as i128) * (v.z as i128);
        let sz: i128 = (self.columns[0].z as i128) * (v.x as i128) + (self.columns[1].z as i128)
            * (v.y as i128) + (self.columns[2].z as i128) * (v.z as i128);
        let qx = crate::fixed::div_trunc_128(sx, SCALE as i128);
        let qy = crate::fixed::div_trunc_128(sy, SCALE as i128);
        let qz = crate::fixed::div_trunc_128(sz, SCALE as i128);
        V3 { x: qx as i64, y: qy as i64, z: qz as i64 }
    }

    /// The rotation matrix of an Euler rotation given its sine/cosine triple.
    pub fn rotation_matrix(t: &EulerTrig) -> (r: M3x3)
        requires
            trig_wf(*t),
        ensures
            r == rotation_matrix_spec(*t),
            m3_abs_le(r, 2 * SCALE as int),
    {
        let sin_a = t.sin.z;
        let sin_b = t.sin.y;
        let sin_y = t.sin.x;
        let cos_a = t.cos.z;
        let cos_b = t.cos.y;
        let cos_y = t.cos.x;
        proof {
            lemma_trig_products(*t);
        }
        M3x3 {
            columns: [
                V3 {
                    x: crate::fixed::mul_fx(cos_a, cos_b),
                    y: crate::fixed::mul_fx(sin_a, cos_b),
                    z: -sin_b,
                },
                V3 {
                    x: crate::fixed::mul_fx(crate::fixed::mul_fx(cos_a, sin_b), sin_y)
                        - crate::fixed::mul_fx(sin_a, cos_y),
                    y: crate::fixed::mul_fx(crate::fixed::mul_fx(sin_a, sin_b), sin_y)
                        + crate::fixed::mul_fx(cos_a, cos_y),
                    z: crate::fixed::mul_fx(cos_b, sin_y),
                },
                V3 {
                    x: crate::fixed::mul_fx(crate::fixed::mul_fx(cos_a, sin_b), cos_y)
                        + crate::fixed::mul_fx(sin_a, sin_y),
                    y: crate::fixed::mul_fx(crate::fixed::mul_fx(sin_a, sin_b), cos_y)
                        - crate::fixed::mul_fx(cos_a, sin_y),
                    z: crate::fixed::mul_fx(cos_b, cos_y),
                },
            ],
        }
    }
}

/// The rotation matrix of a well-formed trig triple has entries bounded by
/// two units.
pub proof fn lemma_trig_bound(t: EulerTrig)
    requires
        trig_wf(t),
    ensures
        m3_abs_le(rotation_matrix_spec(t), 2 * SCALE as int),
{
    lemma_trig_products(t);
}

/// Rotation of a vector by the Euler rotation whose trig triple is `t`.
pub open spec fn rotate_spec(v: V3, t: EulerTrig) -> V3 {
    m3_mul_v3(rotation_matrix_spec(t), v)
}

/// Component bound on a matrix–vector product from bounds on both.
pub proof fn lemma_mul_v3_bound(m: M3x3, v: V3, be: int, bv: int)
    requires
        0 <= be,
        0 <= bv,
        m3_abs_le(m, be),
        v3_abs_le(v, bv),
    ensures
        v3_abs_le(m3_mul_v3(m, v), (3 * be * bv) / SCALE as int),
{
    lemma_mul_bound(m.columns[0].x as int, v.x as int, be, bv);
    lemma_mul_bound(m.columns[1].x as int, v.y as int, be, bv);
    lemma_mul_bound(m.columns[2].x as int, v.z as int, be, bv);
    lemma_mul_bound(m.columns[0].y as int, v.x as int, be, bv);
    lemma_mul_bound(m.columns[1].y as int, v.y as int, be, bv);
    lemma_mul_bound(m.columns[2].y as int, v.z as int, be, bv);
    lemma_mul_bound(m.columns[0].z as int, v.x as int, be, bv);
    lemma_mul_bound(m.columns[1].z as int, v.y as int, be, bv);
    lemma_mul_bound(m.columns[2].z as int, v.z as int, be, bv);
    assert(3 * (be * bv) == 3 * be * bv) by (nonlinear_arith);
    let p = 3 * be * bv;
    crate::fixed::lemma_tdiv_mono(
        m.columns[0].x * v.x + m.columns[1].x * v.y + m.columns[2].x * v.z,
        SCALE as int,
        p,
    );
    crate::fixed::lemma_tdiv_mono(
        m.columns[0].y * v.x + m.columns[1].y * v.y + m.columns[2].y * v.z,
        SCALE as int,
        p,
    );
    crate::fixed::lemma_tdiv_mono(
        m.columns[0].z * v.x + m.columns[1].z * v.y + m.columns[2].z * v.z,
        SCALE as int,
        p,
    );
}

impl V3 {
    /// Rotation by an Euler rotation given its sine/cosine triple: the
    /// rotation matrix is rebuilt and applied.
    pub fn rotate(&self, t: &EulerTrig) -> (r: V3)
        requires
            trig_wf(*t),
            v3_abs_le(*self, 0x0010_0000_0000_0000),
        ensures
            r == rotate_spec(*self, *t),
            v3_abs_le(r, 6int * 0x0010_0000_0000_0000),
    {
        let m = M3x3::rotation_matrix(t);
        proof {
            lemma_mul_v3_bound(m, *self, 2 * SCALE as int, 0x0010_0000_0000_0000);
            assert(3 * (2 * SCALE as int) * 0x0010_0000_0000_0000 == (6int * 0x0010_0000_0000_0000)
                * SCALE as int) by (nonlinear_arith);
            crate::fixed::lemma_tdiv_cancel(6int * 0x0010_0000_0000_0000, SCALE as int);
        }
        m.mul_v3(self)
    }
}

/// A fixed-point product of values bounded by one stays bounded by one.
proof fn lemma_fxmul_unit(a: int, b: int)
    requires
        iabs(a) <= SCALE as int,
        iabs(b) <= SCALE as int,
    ensures
        iabs(fxmul(a, b)) <= SCALE as int,
        fits64(fxmul(a, b)),
{
    lemma_mul_bound(a, b, SCALE as int, SCALE as int);
    lemma_tdiv_le(a * b, SCALE as int);
    assert(iabs(a * b) / (SCALE as int) <= SCALE as int) by (nonlinear_arith)
        requires
            iabs(a * b) <= SCALE as int * SCALE as int,
    ;
}

/// Bounds for every product appearing in the rotation-matrix construction.
proof fn lemma_trig_products(t: EulerTrig)
    requires
        trig_wf(t),
    ensures
        iabs(fxmul(t.cos.z as int, t.cos.y as int)) <= SCALE as int,
        iabs(fxmul(t.sin.z as int, t.cos.y as int)) <= SCALE as int,
        iabs(fxmul(t.cos.z as int, t.sin.y as int)) <= SCALE as int,
        iabs(fxmul(t.sin.z as int, t.sin.y as int)) <= SCALE as int,
        iabs(fxmul(fxmul(t.cos.z as int, t.sin.y as int), t.sin.x as int)) <= SCALE as int,
        iabs(fxmul(fxmul(t.sin.z as int, t.sin.y as int), t.sin.x as int)) <= SCALE as int,
        iabs(fxmul(fxmul(t.cos.z as int, t.sin.y as int), t.cos.x as int)) <= SCALE as int,
        iabs(fxmul(fxmul(t.sin.z as int, t.sin.y as int), t.cos.x as int)) <= SCALE as int,
        iabs(fxmul(t.sin.z as int, t.cos.x as int)) <= SCALE as int,
        iabs(fxmul(t.cos.z as int, t.cos.x as int)) <= SCALE as int,
        iabs(fxmul(t.cos.y as int, t.sin.x as int)) <= SCALE as int,
        iabs(fxmul(t.cos.y as int, t.cos.x as int)) <= SCALE as int,
        iabs(fxmul(t.sin.z as int, t.sin.x as int)) <= SCALE as int,
        iabs(fxmul(t.cos.z as int, t.sin.x as int)) <= SCALE as int,
{
    lemma_fxmul_unit(t.cos.z as int, t.cos.y as int);
    lemma_fxmul_unit(t.sin.z as int, t.cos.y as int);
    lemma_fxmul_unit(t.cos.z as int, t.sin.y as int);
    lemma_fxmul_unit(t.sin.z as int, t.sin.y as int);
    lemma_fxmul_unit(fxmul(t.cos.z as int, t.sin.y as int), t.sin.x as int);
    lemma_fxmul_unit(fxmul(t.sin.z as int, t.sin.y as int), t.sin.x as int);
    lemma_fxmul_unit(fxmul(t.cos.z as int, t.sin.y as int), t.cos.x as int);
    lemma_fxmul_unit(fxmul(t.sin.z as int, t.sin.y as int), t.cos.x as int);
    lemma_fxmul_unit(t.sin.z as int, t.cos.x as int);
    lemma_fxmul_unit(t.cos.z as int, t.cos.x as int);
    lemma_fxmul_unit(t.cos.y as int, t.sin.x as int);
    lemma_fxmul_unit(t.cos.y as int, t.cos.x as int);
    lemma_fxmul_unit(t.sin.z as int, t.sin.x as int);
    lemma_fxmul_unit(t.cos.z as int, t.sin.x as int);
}

impl EulerTrig {
    /// The trig triple of the zero rotation.
    pub fn identity() -> (r: EulerTrig)
        ensures
            r.sin == (V3 { x: 0i64, y: 0i64, z: 0i64 }),
            r.cos == (V3 { x: SCALE, y: SCALE, z: SCALE }),
            trig_wf(r),
    {
        EulerTrig {
            sin: V3 { x: 0, y: 0, z: 0 },
            cos: V3 { x: SCALE, y: SCALE, z: SCALE },
        }
    }

    /// The exact sine/cosine triple of a rotation whose components are all
    /// multiples of a quarter turn (90 units, fixed point), or `None`.
    pub fn for_right_angles(rotation: &V3) -> (r: Option<EulerTrig>)
        ensures
            match r {
                Some(t) => trig_wf(t) && right_angle_trig(rotation.x as int, t.sin.x as int,
                    t.cos.x as int) && right_angle_trig(rotation.y as int, t.sin.y as int,
                    t.cos.y as int) && right_angle_trig(rotation.z as int, t.sin.z as int,
                    t.cos.z as int),
                None => !(is_right_angle(rotation.x as int) && is_right_angle(rotation.y as int)
                    && is_right_angle(rotation.z as int)),
            },
    {
        let sx = right_angle_sin_cos(rotation.x);
        let sy = right_angle_sin_cos(rotation.y);
        let sz = right_angle_sin_cos(rotation.z);
        match (sx, sy, sz) {
            (Some(px), Some(py), Some(pz)) => Some(
                EulerTrig {
                    sin: V3 { x: px.0, y: py.0, z: pz.0 },
                    cos: V3 { x: px.1, y: py.1, z: pz.1 },
                },
            ),
            _ => None,
        }
    }
}

/// `angle` (fixed-point degrees) is a multiple of a quarter turn.
pub open spec fn is_right_angle(angle: int) -> bool {
    iabs(angle) % (90 * SCALE as int) == 0
}

/// The exact sine and cosine (times `SCALE`) of a nonnegative number `q` of
/// quarter turns.
pub open spec fn quarter_turn_trig(q: int) -> (int, int) {
    if q % 4 == 0 {
        (0, SCALE as int)
    } else if q % 4 == 1 {
        (SCALE as int, 0)
    } else if q % 4 == 2 {
        (0, -(SCALE as int))
    } else {
        (-(SCALE as int), 0)
    }
}

/// `s`/`c` are the exact sine and cosine of `angle` degrees, times `SCALE`:
/// defined for quarter turns only, by symmetry for negative angles.
pub open spec fn right_angle_trig(angle: int, s: int, c: int) -> bool {
    is_right_angle(angle) && {
        let t = quarter_turn_trig(iabs(angle) / (90 * SCALE as int));
        if angle >= 0 {
            s == t.0 && c == t.1
        } else {
            s == -t.0 && c == t.1
        }
    }
}

/// Exact sine and cosine for a quarter-turn angle in fixed-point degrees.
fn right_angle_sin_cos(angle: i64) -> (r: Option<(i64, i64)>)
    ensures
        match r {
            Some(p) => right_angle_trig(angle as int, p.0 as int, p.1 as int)
                && iabs(p.0 as int) <= SCALE as int && iabs(p.1 as int) <= SCALE as int,
            None => !is_right_angle(angle as int),
        },
{
    let quarter: u64 = 90 * (SCALE as u64);
    let m: u64 = if angle < 0 {
        (-(angle as i128)) as u64
    } else {
        angle as u64
    };
    if m % quarter != 0 {
        return None;
    }
    let q: u64 = (m / quarter) % 4;
    let sc: (i64, i64) = if q == 0 {
        (0, SCALE)
    } else if q == 1 {
        (SCALE, 0)
    } else if q == 2 {
        (0, -SCALE)
    } else {
        (-SCALE, 0)
    };
    if angle < 0 {
        Some((-sc.0, sc.1))
    } else {
        Some(sc)
    }
}

} // verus!
