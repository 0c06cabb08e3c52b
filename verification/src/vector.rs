//! Three-component vectors over fixed-point scalars.
//!
//! Each operation's contract gives the exact integer value of every result
//! component; spec mirrors (`v3_add`, `v3_dot`, ...) let callers compose
//! those formulas.

use vstd::prelude::*;

use crate::fixed::{
    div_fx, fits64, fxdiv, fxmul, iabs, is_isqrt, isqrt, isqrt_spec, lemma_isqrt_is,
    lemma_mul_bound, lemma_tdiv_le, mul_fx, tdiv, SCALE,
};

verus! {

/// An (x, y, z) triple of fixed-point scalars.
#[derive(Clone, Copy, Debug, PartialEq, Eq, Structural)]
pub struct V3 {
    pub x: i64,
    pub y: i64,
    pub z: i64,
}

/// Every component's magnitude is at most `b`.
pub open spec fn v3_abs_le(v: V3, b: int) -> bool {
    iabs(v.x as int) <= b && iabs(v.y as int) <= b && iabs(v.z as int) <= b
}

/// Component bound under which every product and sum of products in this
/// module fits comfortably in 128 bits.
pub open spec fn v3_in_range(v: V3) -> bool {
    v3_abs_le(v, 0x4000_0000_0000_0000)
}

pub open spec fn v3_add(a: V3, b: V3) -> V3 {
    V3 { x: (a.x + b.x) as i64, y: (a.y + b.y) as i64, z: (a.z + b.z) as i64 }
}

pub open spec fn v3_sub(a: V3, b: V3) -> V3 {
    V3 { x: (a.x - b.x) as i64, y: (a.y - b.y) as i64, z: (a.z - b.z) as i64 }
}

pub open spec fn v3_neg(a: V3) -> V3 {
    V3 { x: (-a.x) as i64, y: (-a.y) as i64, z: (-a.z) as i64 }
}

/// Scaling by a fixed-point factor, truncated per component.
pub open spec fn v3_scale(a: V3, s: int) -> V3 {
    V3 {
        x: fxmul(a.x as int, s) as i64,
        y: fxmul(a.y as int, s) as i64,
        z: fxmul(a.z as int, s) as i64,
    }
}

/// Division by a fixed-point factor, truncated per component.
pub open spec fn v3_divs(a: V3, s: int) -> V3 {
    V3 {
        x: fxdiv(a.x as int, s) as i64,
        y: fxdiv(a.y as int, s) as i64,
        z: fxdiv(a.z as int, s) as i64,
    }
}

/// The fixed-point dot product: the sum of the coordinate products, scaled
/// back down once.
pub open spec fn v3_dot(a: V3, b: V3) -> int {
    tdiv(a.x * b.x + a.y * b.y + a.z * b.z, SCALE as int)
}

/// The fixed-point cross product, scaled back down once per component.
pub open spec fn v3_cross(a: V3, b: V3) -> V3 {
    V3 {
        x: tdiv(a.y * b.z - a.z * b.y, SCALE as int) as i64,
        y: tdiv(a.z * b.x - a.x * b.z, SCALE as int) as i64,
        z: tdiv(a.x * b.y - a.y * b.x, SCALE as int) as i64,
    }
}

pub open spec fn v3_hadamard(a: V3, b: V3) -> V3 {
    V3 {
        x: fxmul(a.x as int, b.x as int) as i64,
        y: fxmul(a.y as int, b.y as int) as i64,
        z: fxmul(a.z as int, b.z as int) as i64,
    }
}

/// The component-wise fixed-point reciprocal.
pub open spec fn v3_inverse(a: V3) -> V3 {
    V3 {
        x: fxdiv(SCALE as int, a.x as int) as i64,
        y: fxdiv(SCALE as int, a.y as int) as i64,
        z: fxdiv(SCALE as int, a.z as int) as i64,
    }
}

/// The sum of the squared components: the square of the magnitude, at double
/// scale.
pub open spec fn v3_sq_sum(a: V3) -> int {
    a.x * a.x + a.y * a.y + a.z * a.z
}

/// The fixed-point magnitude: the integer square root of the squared sum.
pub open spec fn v3_mag(a: V3) -> int {
    isqrt_spec(v3_sq_sum(a))
}

/// The normalized vector: each component divided by the magnitude.
pub open spec fn v3_norm(a: V3) -> V3 {
    v3_divs(a, v3_mag(a))
}

/// Barycentric interpolation of three points with integer weights over a
/// common denominator, truncated per component.
pub open spec fn v3_interp3(p1: V3, w1: int, p2: V3, w2: int, p3: V3, w3: int, den: int) -> V3 {
    V3 {
        x: tdiv(p1.x * w1 + p2.x * w2 + p3.x * w3, den) as i64,
        y: tdiv(p1.y * w1 + p2.y * w2 + p3.y * w3, den) as i64,
        z: tdiv(p1.z * w1 + p2.z * w2 + p3.z * w3, den) as i64,
    }
}

impl Default for V3 {
    /// The zero vector.
    fn default() -> (r: V3)
        ensures
            r == (V3 { x: 0i64, y: 0i64, z: 0i64 }),
    {
        V3 { x: 0, y: 0, z: 0 }
    }
}

impl V3 {
    pub fn new(x: i64, y: i64, z: i64) -> (r: V3)
        ensures
            r == (V3 { x, y, z }),
    {
        V3 { x, y, z }
    }

    pub fn add(&self, rhs: &V3) -> (r: V3)
        requires
            fits64(self.x + rhs.x),
            fits64(self.y + rhs.y),
            fits64(self.z + rhs.z),
        ensures
            r == v3_add(*self, *rhs),
    {
        V3 { x: self.x + rhs.x, y: self.y + rhs.y, z: self.z + rhs.z }
    }

    pub fn sub(&self, rhs: &V3) -> (r: V3)
        requires
            fits64(self.x - rhs.x),
            fits64(self.y - rhs.y),
            fits64(self.z - rhs.z),
        ensures
            r == v3_sub(*self, *rhs),
    {
        V3 { x: self.x - rhs.x, y: self.y - rhs.y, z: self.z - rhs.z }
    }

    /// The displacement of `self` from `other`.
    pub fn relative_to(&self, other: &V3) -> (r: V3)
        requires
            fits64(self.x - other.x),
            fits64(self.y - other.y),
            fits64(self.z - other.z),
        ensures
            r == v3_sub(*self, *other),
    {
        self.sub(other)
    }

    pub fn neg(&self) -> (r: V3)
        requires
            fits64(-self.x),
            fits64(-self.y),
            fits64(-self.z),
        ensures
            r == v3_neg(*self),
    {
        V3 { x: -self.x, y: -self.y, z: -self.z }
    }

    /// Multiplication by a fixed-point scalar.
    pub fn scale(&self, s: i64) -> (r: V3)
        requires
            fits64(fxmul(self.x as int, s as int)),
            fits64(fxmul(self.y as int, s as int)),
            fits64(fxmul(self.z as int, s as int)),
        ensures
            r == v3_scale(*self, s as int),
    {
        V3 { x: mul_fx(self.x, s), y: mul_fx(self.y, s), z: mul_fx(self.z, s) }
    }

    /// Division by a fixed-point scalar.
    pub fn div_scale(&self, s: i64) -> (r: V3)
        requires
            s != 0,
            fits64(fxdiv(self.x as int, s as int)),
            fits64(fxdiv(self.y as int, s as int)),
            fits64(fxdiv(self.z as int, s as int)),
        ensures
            r == v3_divs(*self, s as int),
    {
        V3 { x: div_fx(self.x, s), y: div_fx(self.y, s), z: div_fx(self.z, s) }
    }

    pub fn dot(&self, rhs: &V3) -> (r: i64)
        requires
            v3_in_range(*self),
            v3_in_range(*rhs),
            fits64(v3_dot(*self, *rhs)),
        ensures
            r as int == v3_dot(*self, *rhs),
    {
        proof {
            lemma_mul_bound(self.x as int, rhs.x as int, 0x4000_0000_0000_0000, 0x4000_0000_0000_0000);
            lemma_mul_bound(self.y as int, rhs.y as int, 0x4000_0000_0000_0000, 0x4000_0000_0000_0000);
            lemma_mul_bound(self.z as int, rhs.z as int, 0x4000_0000_0000_0000, 0x4000_0000_0000_0000);
        }
        let s: i128 = (self.x as i128) * (rhs.x as i128) + (self.y as i128) * (rhs.y as i128)
            + (self.z as i128) * (rhs.z as i128);
        proof {
            lemma_tdiv_le(s as int, SCALE as int);
        }
        let q: i128 = crate::fixed::div_trunc_128(s, SCALE as i128);
        q as i64
    }

    pub fn cross(&self, rhs: &V3) -> (r: V3)
        requires
            v3_in_range(*self),
            v3_in_range(*rhs),
            fits64(v3_cross(*self, *rhs).x as int),
            fits64(v3_cross(*self, *rhs).y as int),
            fits64(v3_cross(*self, *rhs).z as int),
        ensures
            r == v3_cross(*self, *rhs),
    {
        proof {
            lemma_mul_bound(self.x as int, rhs.y as int, 0x4000_0000_0000_0000, 0x4000_0000_0000_0000);
            lemma_mul_bound(self.x as int, rhs.z as int, 0x4000_0000_0000_0000, 0x4000_0000_0000_0000);
            lemma_mul_bound(self.y as int, rhs.x as int, 0x4000_0000_0000_0000, 0x4000_0000_0000_0000);
            lemma_mul_bound(self.y as int, rhs.z as int, 0x4000_0000_0000_0000, 0x4000_0000_0000_0000);
            lemma_mul_bound(self.z as int, rhs.x as int, 0x4000_0000_0000_0000, 0x4000_0000_0000_0000);
            lemma_mul_bound(self.z as int, rhs.y as int, 0x4000_0000_0000_0000, 0x4000_0000_0000_0000);
        }
        let cx: i128 = (self.y as i128) * (rhs.z as i128) - (self.z as i128) * (rhs.y as i128);
        let cy: i128 = (self.z as i128) * (rhs.x as i128) - (self.x as i128) * (rhs.z as i128);
        let cz: i128 = (self.x as i128) * (rhs.y as i128) - (self.y as i128) * (rhs.x as i128);
        proof {
            lemma_tdiv_le(cx as int, SCALE as int);
            lemma_tdiv_le(cy as int, SCALE as int);
            lemma_tdiv_le(cz as int, SCALE as int);
        }
        let qx: i128 = crate::fixed::div_trunc_128(cx, SCALE as i128);
        let qy: i128 = crate::fixed::div_trunc_128(cy, SCALE as i128);
        let qz: i128 = crate::fixed::div_trunc_128(cz, SCALE as i128);
        V3 { x: qx as i64, y: qy as i64, z: qz as i64 }
    }

    /// The component-wise product, scaled back down.
    pub fn hadamard_product(&self, rhs: &V3) -> (r: V3)
        requires
            fits64(fxmul(self.x as int, rhs.x as int)),
            fits64(fxmul(self.y as int, rhs.y as int)),
            fits64(fxmul(self.z as int, rhs.z as int)),
        ensures
            r == v3_hadamard(*self, *rhs),
    {
        V3 {
            x: mul_fx(self.x, rhs.x),
            y: mul_fx(self.y, rhs.y),
            z: mul_fx(self.z, rhs.z),
        }
    }

    /// The sum of the three components.
    pub fn all_elements_sum(&self) -> (r: i64)
        requires
            fits64(self.x + self.y + self.z),
        ensures
            r as int == self.x + self.y + self.z,
    {
        let s: i128 = (self.x as i128) + (self.y as i128) + (self.z as i128);
        s as i64
    }

    /// The component-wise fixed-point reciprocal.
    pub fn inverse(&self) -> (r: V3)
        requires
            self.x != 0,
            self.y != 0,
            self.z != 0,
        ensures
            r == v3_inverse(*self),
    {
        proof {
            lemma_tdiv_le((SCALE * SCALE) as int, self.x as int);
            lemma_tdiv_le((SCALE * SCALE) as int, self.y as int);
            lemma_tdiv_le((SCALE * SCALE) as int, self.z as int);
        }
        V3 { x: div_fx(SCALE, self.x), y: div_fx(SCALE, self.y), z: div_fx(SCALE, self.z) }
    }

    /// The fixed-point magnitude.
    pub fn mag(&self) -> (r: i64)
        requires
            v3_in_range(*self),
        ensures
            r as int == v3_mag(*self),
            is_isqrt(r as int, v3_sq_sum(*self)),
            r >= 0,
    {
        proof {
            lemma_mul_bound(self.x as int, self.x as int, 0x4000_0000_0000_0000, 0x4000_0000_0000_0000);
            lemma_mul_bound(self.y as int, self.y as int, 0x4000_0000_0000_0000, 0x4000_0000_0000_0000);
            lemma_mul_bound(self.z as int, self.z as int, 0x4000_0000_0000_0000, 0x4000_0000_0000_0000);
            assert(v3_sq_sum(*self) >= 0) by (nonlinear_arith);
        }
        let s: i128 = (self.x as i128) * (self.x as i128) + (self.y as i128) * (self.y as i128)
            + (self.z as i128) * (self.z as i128);
        let m: u64 = isqrt(s as u128);
        proof {
            lemma_isqrt_is(m as int, v3_sq_sum(*self));
            assert(m < 0x8000_0000_0000_0000) by (nonlinear_arith)
                requires
                    (m as int) * (m as int) <= v3_sq_sum(*self),
                    v3_sq_sum(*self) < 0x4000_0000_0000_0000_0000_0000_0000_0000,
                    m >= 0,
            ;
        }
        m as i64
    }

    /// Each coordinate's magnitude is bounded by the vector's magnitude,
    /// given a witness `m` of the integer square root of the squared sum.
    pub proof fn lemma_coord_le_mag(self, m: int)
        requires
            is_isqrt(m, v3_sq_sum(self)),
        ensures
            iabs(self.x as int) <= m,
            iabs(self.y as int) <= m,
            iabs(self.z as int) <= m,
    {
        assert(iabs(self.x as int) <= m && iabs(self.y as int) <= m && iabs(self.z as int) <= m)
            by (nonlinear_arith)
            requires
                is_isqrt(m, v3_sq_sum(self)),
        ;
    }

    /// The vector scaled to unit length (times `SCALE`), truncated per
    /// component.
    pub fn norm(&self) -> (r: V3)
        requires
            v3_in_range(*self),
            v3_sq_sum(*self) >= 1,
        ensures
            r == v3_norm(*self),
            v3_abs_le(r, SCALE as int),
    {
        let m = self.mag();
        proof {
            assert(m >= 1) by (nonlinear_arith)
                requires
                    is_isqrt(m as int, v3_sq_sum(*self)),
                    v3_sq_sum(*self) >= 1,
            ;
            self.lemma_coord_le_mag(m as int);
            lemma_norm_component_bound(self.x as int, m as int);
            lemma_norm_component_bound(self.y as int, m as int);
            lemma_norm_component_bound(self.z as int, m as int);
        }
        self.div_scale(m)
    }

    /// Replaces the vector by its normalized value.
    pub fn normalize(&mut self)
        requires
            v3_in_range(*old(self)),
            v3_sq_sum(*old(self)) >= 1,
        ensures
            *final(self) == v3_norm(*old(self)),
            v3_abs_le(*final(self), SCALE as int),
    {
        *self = self.norm();
    }

    /// Weighted combination of three points over a common denominator.
    pub fn interpolate3(v1: (V3, i64), v2: (V3, i64), v3: (V3, i64), den: i64) -> (r: V3)
        requires
            den != 0,
            v3_abs_le(v1.0, 0x2000_0000_0000_0000),
            v3_abs_le(v2.0, 0x2000_0000_0000_0000),
            v3_abs_le(v3.0, 0x2000_0000_0000_0000),
            iabs(v1.1 as int) <= 0x2000_0000_0000_0000,
            iabs(v2.1 as int) <= 0x2000_0000_0000_0000,
            iabs(v3.1 as int) <= 0x2000_0000_0000_0000,
            fits64(v3_interp3(v1.0, v1.1 as int, v2.0, v2.1 as int, v3.0, v3.1 as int, den as int).x as int),
            fits64(v3_interp3(v1.0, v1.1 as int, v2.0, v2.1 as int, v3.0, v3.1 as int, den as int).y as int),
            fits64(v3_interp3(v1.0, v1.1 as int, v2.0, v2.1 as int, v3.0, v3.1 as int, den as int).z as int),
        ensures
            r == v3_interp3(v1.0, v1.1 as int, v2.0, v2.1 as int, v3.0, v3.1 as int, den as int),
    {
        proof {
            lemma_mul_bound(v1.0.x as int, v1.1 as int, 0x2000_0000_0000_0000, 0x2000_0000_0000_0000);
            lemma_mul_bound(v2.0.x as int, v2.1 as int, 0x2000_0000_0000_0000, 0x2000_0000_0000_0000);
            lemma_mul_bound(v3.0.x as int, v3.1 as int, 0x2000_0000_0000_0000, 0x2000_0000_0000_0000);
            lemma_mul_bound(v1.0.y as int, v1.1 as int, 0x2000_0000_0000_0000, 0x2000_0000_0000_0000);
            lemma_mul_bound(v2.0.y as int, v2.1 as int, 0x2000_0000_0000_0000, 0x2000_0000_0000_0000);
            lemma_mul_bound(v3.0.y as int, v3.1 as int, 0x2000_0000_0000_0000, 0x2000_0000_0000_0000);
            lemma_mul_bound(v1.0.z as int, v1.1 as int, 0x2000_0000_0000_0000, 0x2000_0000_0000_0000);
            lemma_mul_bound(v2.0.z as int, v2.1 as int, 0x2000_0000_0000_0000, 0x2000_0000_0000_0000);
            lemma_mul_bound(v3.0.z as int, v3.1 as int, 0x2000_0000_0000_0000, 0x2000_0000_0000_0000);
        }
        let sx: i128 = (v1.0.x as i128) * (v1.1 as i128) + (v2.0.x as i128) * (v2.1 as i128)
            + (v3.0.x as i128) * (v3.1 as i128);
        let sy: i128 = (v1.0.y as i128) * (v1.1 as i128) + (v2.0.y as i128) * (v2.1 as i128)
            + (v3.0.y as i128) * (v3.1 as i128);
        let sz: i128 = (v1.0.z as i128) * (v1.1 as i128) + (v2.0.z as i128) * (v2.1 as i128)
            + (v3.0.z as i128) * (v3.1 as i128);
        let qx = crate::fixed::div_trunc_128(sx, den as i128);
        let qy = crate::fixed::div_trunc_128(sy, den as i128);
        let qz = crate::fixed::div_trunc_128(sz, den as i128);
        V3 { x: qx as i64, y: qy as i64, z: qz as i64 }
    }
}

/// A component no larger than the magnitude divides to at most `SCALE`.
pub proof fn lemma_norm_component_bound(x: int, m: int)
    requires
        m >= 1,
        iabs(x) <= m,
    ensures
        iabs(fxdiv(x, m)) <= SCALE as int,
{
    lemma_tdiv_le(x * SCALE, m);
    assert(iabs(x * SCALE) / iabs(m) <= SCALE as int) by (nonlinear_arith)
        requires
            m >= 1,
            iabs(x) <= m,
            iabs(x * SCALE) == iabs(x) * SCALE,
            iabs(m) == m,
    ;
    assert(iabs(x * SCALE) == iabs(x) * (SCALE as int)) by (nonlinear_arith);
}

} // verus!
