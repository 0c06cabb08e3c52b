//! Per-pixel shading: the fragment data handed to a shader and the closed
//! set of shaders a mesh can carry.

use vstd::prelude::*;

use crate::fixed::tdiv;
use crate::vector::V3;
use crate::vertex::clamp_u8;

verus! {

/// Interpolated data for one covered pixel, and the (depth, color) pair the
/// shader may rewrite.
#[derive(Clone, Copy, Debug)]
pub struct FragData {
    /// Interpolated vertex position in world space.
    pub space_position: V3,
    /// Interpolated vertex position relative to the mesh's transform.
    pub relative_position: V3,
    /// The pending pixel output: interpolated depth and color.
    pub output_pixel: (u64, [u8; 3]),
}

/// A pure per-pixel shading function: `frag` rewrites the output pixel and
/// nothing else, and its result is pinned down by `frag_spec`.
pub trait FragShader: Sized {
    /// The (depth, color) pair the shader produces for the given data.
    spec fn frag_spec(&self, data: FragData) -> (u64, [u8; 3]);

    fn frag(&self, data: &mut FragData)
        ensures
            final(data).output_pixel == self.frag_spec(*old(data)),
            final(data).space_position == old(data).space_position,
            final(data).relative_position == old(data).relative_position,
    ;
}

/// The shader meshes carry by default: it keeps the interpolated pixel.
#[derive(Clone, Copy, Debug)]
pub struct DefaultShader;

impl FragShader for DefaultShader {
    open spec fn frag_spec(&self, data: FragData) -> (u64, [u8; 3]) {
        data.output_pixel
    }

    fn frag(&self, data: &mut FragData) {
    }
}

/// A visualization shader: paints each pixel a grey proportional to its
/// depth, white at `far` and beyond.
#[derive(Clone, Copy, Debug)]
pub struct DepthShader {
    /// The depth mapped to full white; must be positive.
    pub far: u64,
}

/// The grey level `DepthShader` paints for a given depth.
pub open spec fn depth_grey(depth: int, far: int) -> int {
    clamp_u8(tdiv(depth * 255, far))
}

impl FragShader for DepthShader {
    open spec fn frag_spec(&self, data: FragData) -> (u64, [u8; 3]) {
        if self.far == 0 {
            data.output_pixel
        } else {
            let g = depth_grey(data.output_pixel.0 as int, self.far as int);
            (
                data.output_pixel.0,
                [g as u8, g as u8, g as u8],
            )
        }
    }

    fn frag(&self, data: &mut FragData) {
        if self.far == 0 {
            return ;
        }
        let p: u128 = (data.output_pixel.0 as u128) * 255;
        let q: u128 = p / (self.far as u128);
        proof {
            crate::fixed::lemma_mul_bound(data.output_pixel.0 as int, 255, 0xffff_ffff_ffff_ffff,
                255);
            assert(q == tdiv(data.output_pixel.0 as int * 255, self.far as int));
        }
        let g: u8 = if q > 255 {
            255
        } else {
            q as u8
        };
        data.output_pixel = (data.output_pixel.0, [g, g, g]);
    }
}

/// The closed set of shaders a mesh can carry.
#[derive(Clone, Copy, Debug)]
pub enum Shader {
    Default(DefaultShader),
    Depth(DepthShader),
}

impl Shader {
    /// The (depth, color) pair this shader produces for the given data.
    pub open spec fn frag_spec(&self, data: FragData) -> (u64, [u8; 3]) {
        match self {
            Shader::Default(s) => s.frag_spec(data),
            Shader::Depth(s) => s.frag_spec(data),
        }
    }

    /// Runs the shader on one fragment.
    pub fn frag(&self, data: &mut FragData)
        ensures
            final(data).output_pixel == self.frag_spec(*old(data)),
            final(data).space_position == old(data).space_position,
            final(data).relative_position == old(data).relative_position,
    {
        match self {
            Shader::Default(s) => s.frag(data),
            Shader::Depth(s) => s.frag(data),
        }
    }
}

} // verus!
