//! Mesh vertices: a position, a normal and an RGB color, with barycentric
//! interpolation over integer weights.

use vstd::prelude::*;

use crate::fixed::{fits64, iabs, lemma_mul_bound, tdiv};
use crate::vector::{v3_abs_le, v3_interp3, V3};

verus! {

/// A mesh vertex.
#[derive(Clone, Copy, Debug)]
pub struct Vertex {
    pub position: V3,
    pub normal: V3,
    pub color: [u8; 3],
}

/// Clamping of an interpolated color channel into a byte, the way a
/// saturating cast behaves.
pub open spec fn clamp_u8(x: int) -> int {
    if x < 0 {
        0
    } else if x > 255 {
        255
    } else {
        x
    }
}

/// The interpolated value of one color channel: the weighted sum over a
/// common denominator, truncated, then clamped into a byte.
pub open spec fn interp_channel(c1: int, w1: int, c2: int, w2: int, c3: int, w3: int, den: int) -> int {
    clamp_u8(tdiv(c1 * w1 + c2 * w2 + c3 * w3, den))
}

/// Weight bound accepted by the interpolation routines.
pub open spec fn weight_ok(w: int) -> bool {
    iabs(w) <= 0x2000_0000_0000_0000
}

impl Default for Vertex {
    /// A black vertex at the origin.
    fn default() -> (r: Vertex)
        ensures
            r.position == (V3 { x: 0i64, y: 0i64, z: 0i64 }),
            r.normal == (V3 { x: 0i64, y: 0i64, z: 0i64 }),
            r.color == [0u8, 0u8, 0u8],
    {
        Vertex {
            position: V3 { x: 0, y: 0, z: 0 },
            normal: V3 { x: 0, y: 0, z: 0 },
            color: [0, 0, 0],
        }
    }
}

impl Vertex {
    pub fn new(position: V3, color: [u8; 3], normal: V3) -> (r: Vertex)
        ensures
            r.position == position,
            r.color == color,
            r.normal == normal,
    {
        Vertex { position, color, normal }
    }

    /// A white vertex with a zero normal.
    pub fn new_with_position(position: V3) -> (r: Vertex)
        ensures
            r.position == position,
            r.color == [255u8, 255u8, 255u8],
            r.normal == (V3 { x: 0i64, y: 0i64, z: 0i64 }),
    {
        Vertex {
            position,
            color: [255, 255, 255],
            normal: V3 { x: 0, y: 0, z: 0 },
        }
    }

    /// A colored vertex with a zero normal.
    pub fn new_with_color(position: V3, color: [u8; 3]) -> (r: Vertex)
        ensures
            r.position == position,
            r.color == color,
            r.normal == (V3 { x: 0i64, y: 0i64, z: 0i64 }),
    {
        Vertex { position, color, normal: V3 { x: 0, y: 0, z: 0 } }
    }

    /// One interpolated color channel.
    fn interp_channel_exec(c1: u8, w1: i64, c2: u8, w2: i64, c3: u8, w3: i64, den: i64) -> (r: u8)
        requires
            den != 0,
            weight_ok(w1 as int),
            weight_ok(w2 as int),
            weight_ok(w3 as int),
        ensures
            r as int == interp_channel(c1 as int, w1 as int, c2 as int, w2 as int, c3 as int,
                w3 as int, den as int),
    {
        proof {
            lemma_mul_bound(c1 as int, w1 as int, 255, 0x2000_0000_0000_0000);
            lemma_mul_bound(c2 as int, w2 as int, 255, 0x2000_0000_0000_0000);
            lemma_mul_bound(c3 as int, w3 as int, 255, 0x2000_0000_0000_0000);
        }
        let s: i128 = (c1 as i128) * (w1 as i128) + (c2 as i128) * (w2 as i128) + (c3 as i128)
            * (w3 as i128);
        let q: i128 = crate::fixed::div_trunc_128(s, den as i128);
        if q < 0 {
            0
        } else if q > 255 {
            255
        } else {
            q as u8
        }
    }

    /// Blends three vertices' colors with integer weights over a common
    /// denominator, saturating each channel into a byte.
    pub fn interpolate_color(v1: (Vertex, i64), v2: (Vertex, i64), v3: (Vertex, i64), den: i64) -> (r: [u8; 3])
        requires
            den != 0,
            weight_ok(v1.1 as int),
            weight_ok(v2.1 as int),
            weight_ok(v3.1 as int),
        ensures
            r[0] as int == interp_channel(v1.0.color[0] as int, v1.1 as int, v2.0.color[0] as int,
                v2.1 as int, v3.0.color[0] as int, v3.1 as int, den as int),
            r[1] as int == interp_channel(v1.0.color[1] as int, v1.1 as int, v2.0.color[1] as int,
                v2.1 as int, v3.0.color[1] as int, v3.1 as int, den as int),
            r[2] as int == interp_channel(v1.0.color[2] as int, v1.1 as int, v2.0.color[2] as int,
                v2.1 as int, v3.0.color[2] as int, v3.1 as int, den as int),
    {
        [
            Self::interp_channel_exec(v1.0.color[0], v1.1, v2.0.color[0], v2.1, v3.0.color[0],
                v3.1, den),
            Self::interp_channel_exec(v1.0.color[1], v1.1, v2.0.color[1], v2.1, v3.0.color[1],
                v3.1, den),
            Self::interp_channel_exec(v1.0.color[2], v1.1, v2.0.color[2], v2.1, v3.0.color[2],
                v3.1, den),
        ]
    }

    /// Blends three vertices with integer weights over a common denominator:
    /// positions and normals barycentrically, colors with saturation.
    pub fn interpolate(v1: (Vertex, i64), v2: (Vertex, i64), v3: (Vertex, i64), den: i64) -> (r: Vertex)
        requires
            den != 0,
            weight_ok(v1.1 as int),
            weight_ok(v2.1 as int),
            weight_ok(v3.1 as int),
            v3_abs_le(v1.0.position, 0x2000_0000_0000_0000),
            v3_abs_le(v2.0.position, 0x2000_0000_0000_0000),
            v3_abs_le(v3.0.position, 0x2000_0000_0000_0000),
            v3_abs_le(v1.0.normal, 0x2000_0000_0000_0000),
            v3_abs_le(v2.0.normal, 0x2000_0000_0000_0000),
            v3_abs_le(v3.0.normal, 0x2000_0000_0000_0000),
            fits64(v3_interp3(v1.0.position, v1.1 as int, v2.0.position, v2.1 as int,
                v3.0.position, v3.1 as int, den as int).x as int),
            fits64(v3_interp3(v1.0.position, v1.1 as int, v2.0.position, v2.1 as int,
                v3.0.position, v3.1 as int, den as int).y as int),
            fits64(v3_interp3(v1.0.position, v1.1 as int, v2.0.position, v2.1 as int,
                v3.0.position, v3.1 as int, den as int).z as int),
            fits64(v3_interp3(v1.0.normal, v1.1 as int, v2.0.normal, v2.1 as int, v3.0.normal,
                v3.1 as int, den as int).x as int),
            fits64(v3_interp3(v1.0.normal, v1.1 as int, v2.0.normal, v2.1 as int, v3.0.normal,
                v3.1 as int, den as int).y as int),
            fits64(v3_interp3(v1.0.normal, v1.1 as int, v2.0.normal, v2.1 as int, v3.0.normal,
                v3.1 as int, den as int).z as int),
        ensures
            r.position == v3_interp3(v1.0.position, v1.1 as int, v2.0.position, v2.1 as int,
                v3.0.position, v3.1 as int, den as int),
            r.normal == v3_interp3(v1.0.normal, v1.1 as int, v2.0.normal, v2.1 as int,
                v3.0.normal, v3.1 as int, den as int),
            r.color[0] as int == interp_channel(v1.0.color[0] as int, v1.1 as int,
                v2.0.color[0] as int, v2.1 as int, v3.0.color[0] as int, v3.1 as int, den as int),
            r.color[1] as int == interp_channel(v1.0.color[1] as int, v1.1 as int,
                v2.0.color[1] as int, v2.1 as int, v3.0.color[1] as int, v3.1 as int, den as int),
            r.color[2] as int == interp_channel(v1.0.color[2] as int, v1.1 as int,
                v2.0.color[2] as int, v2.1 as int, v3.0.color[2] as int, v3.1 as int, den as int),
    {
        let color = Self::interpolate_color(v1, v2, v3, den);
        let position = V3::interpolate3(
            (v1.0.position, v1.1),
            (v2.0.position, v2.1),
            (v3.0.position, v3.1),
            den,
        );
        let normal = V3::interpolate3(
            (v1.0.normal, v1.1),
            (v2.0.normal, v2.1),
            (v3.0.normal, v3.1),
            den,
        );
        Vertex { position, normal, color }
    }
}

} // verus!
