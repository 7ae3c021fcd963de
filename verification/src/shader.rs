//! The shader's uniform blocks and their exact byte layouts.
//!
//! The vertex stage takes two 4x4 matrices (projection and model-view);
//! the fragment stage takes one fixed directional light plus ambient,
//! diffuse and specular color constants, each vector padded to 16 bytes as
//! the uniform block layout demands.  The packed bytes are specified to
//! the byte.

use vstd::prelude::*;

use crate::linalg::{Mat4Bits, Vec3Bits};
use crate::render::{lemma_u32s_le_bytes_len, push_u32_le, u32s_le_bytes, vec3_le_bytes};

verus! {

/// The 64-byte column-major layout of one matrix.
pub open spec fn mat4_le_bytes(m: Mat4Bits) -> Seq<u8> {
    u32s_le_bytes(m.m@)
}

/// Four bytes of padding after a 12-byte vector in a uniform block.
pub open spec fn pad4() -> Seq<u8> {
    seq![0u8, 0u8, 0u8, 0u8]
}

/// The vertex-stage uniform block: the perspective matrix and the combined
/// view-model matrix.
#[derive(Clone, Copy, Debug)]
pub struct VertUniformBlock {
    pub perspective: Mat4Bits,
    pub modelview: Mat4Bits,
}

/// The 128-byte layout of the vertex-stage uniform block: both matrices,
/// back to back.
pub open spec fn vert_uniform_bytes(b: VertUniformBlock) -> Seq<u8> {
    mat4_le_bytes(b.perspective) + mat4_le_bytes(b.modelview)
}

/// Append one matrix in little-endian column-major order.
fn push_mat4_le(out: &mut Vec<u8>, m: &Mat4Bits)
    ensures
        final(out)@ == old(out)@ + mat4_le_bytes(*m),
{
    let ghost base = out@;
    let mut i: usize = 0;
    while i < 16
        invariant
            0 <= i <= 16,
            out@ == base + u32s_le_bytes(m.m@.take(i as int)),
        decreases 16 - i,
    {
        push_u32_le(out, m.m[i]);
        proof {
            assert(m.m@.take(i + 1).drop_last() =~= m.m@.take(i as int));
            assert(m.m@.take(i + 1).last() == m.m@[i as int]);
        }
        i = i + 1;
    }
    proof {
        assert(m.m@.take(16) =~= m.m@);
    }
}

impl VertUniformBlock {
    /// The block's packed bytes: exactly 128, perspective first.
    pub fn bytes(&self) -> (r: Vec<u8>)
        ensures
            r@ == vert_uniform_bytes(*self),
            r@.len() == 128,
    {
        let mut out: Vec<u8> = Vec::new();
        push_mat4_le(&mut out, &self.perspective);
        push_mat4_le(&mut out, &self.modelview);
        proof {
            lemma_u32s_le_bytes_len(self.perspective.m@);
            lemma_u32s_le_bytes_len(self.modelview.m@);
            assert(out@ =~= vert_uniform_bytes(*self));
        }
        out
    }
}

/// The fragment-stage uniform block: the light direction and the material
/// colors, as `f32` bit patterns.
#[derive(Clone, Copy, Debug)]
pub struct FragUniformBlock {
    pub light_direction: Vec3Bits,
    pub ambient_color: Vec3Bits,
    pub diffuse_color: Vec3Bits,
    pub specular_color: Vec3Bits,
}

/// The 64-byte layout of the fragment-stage uniform block: each vector
/// followed by four bytes of padding.
pub open spec fn frag_uniform_bytes(b: FragUniformBlock) -> Seq<u8> {
    vec3_le_bytes(b.light_direction) + pad4() + vec3_le_bytes(b.ambient_color) + pad4()
        + vec3_le_bytes(b.diffuse_color) + pad4() + vec3_le_bytes(b.specular_color) + pad4()
}

/// Append one vector and its four padding bytes.
fn push_vec3_padded(out: &mut Vec<u8>, v: &Vec3Bits)
    ensures
        final(out)@ == old(out)@ + vec3_le_bytes(*v) + pad4(),
{
    push_u32_le(out, v.x);
    push_u32_le(out, v.y);
    push_u32_le(out, v.z);
    out.push(0);
    out.push(0);
    out.push(0);
    out.push(0);
    proof {
        assert(out@ =~= old(out)@ + vec3_le_bytes(*v) + pad4());
    }
}

impl FragUniformBlock {
    /// Assemble the block from its four vectors.
    pub fn new(
        light_direction: Vec3Bits,
        ambient_color: Vec3Bits,
        diffuse_color: Vec3Bits,
        specular_color: Vec3Bits,
    ) -> (r: FragUniformBlock)
        ensures
            r == (FragUniformBlock { light_direction, ambient_color, diffuse_color, specular_color }),
    {
        FragUniformBlock { light_direction, ambient_color, diffuse_color, specular_color }
    }

    /// The block's packed bytes: exactly 64.
    pub fn bytes(&self) -> (r: Vec<u8>)
        ensures
            r@ == frag_uniform_bytes(*self),
            r@.len() == 64,
    {
        let mut out: Vec<u8> = Vec::new();
        push_vec3_padded(&mut out, &self.light_direction);
        push_vec3_padded(&mut out, &self.ambient_color);
        push_vec3_padded(&mut out, &self.diffuse_color);
        push_vec3_padded(&mut out, &self.specular_color);
        proof {
            vstd::bytes::lemma_auto_spec_u32_to_from_le_bytes();
            assert(out@ =~= frag_uniform_bytes(*self));
        }
        out
    }
}

/// The fixed lighting of every frame, as `f32` bit patterns: light
/// direction `(-1.1, 0.4, 1.0)`, ambient RGB `(0.0, 0.13, 0.26)`, diffuse
/// RGB `(0.38, 0.63, 1.0)`, specular RGB `(1.0, 1.0, 1.0)`.
pub open spec fn fixed_lighting() -> FragUniformBlock {
    FragUniformBlock {
        light_direction: Vec3Bits { x: 0xbf8c_cccd, y: 0x3ecc_cccd, z: 0x3f80_0000 },
        ambient_color: Vec3Bits { x: 0, y: 0x3e05_1eb8, z: 0x3e85_1eb8 },
        diffuse_color: Vec3Bits { x: 0x3ec2_8f5c, y: 0x3f21_47ae, z: 0x3f80_0000 },
        specular_color: Vec3Bits { x: 0x3f80_0000, y: 0x3f80_0000, z: 0x3f80_0000 },
    }
}

/// The fragment uniform data uploaded for every frame: the fixed lighting.
pub fn frag_uniform_data() -> (r: FragUniformBlock)
    ensures
        r == fixed_lighting(),
{
    FragUniformBlock::new(
        Vec3Bits { x: 0xbf8c_cccd, y: 0x3ecc_cccd, z: 0x3f80_0000 },
        Vec3Bits { x: 0, y: 0x3e05_1eb8, z: 0x3e85_1eb8 },
        Vec3Bits { x: 0x3ec2_8f5c, y: 0x3f21_47ae, z: 0x3f80_0000 },
        Vec3Bits { x: 0x3f80_0000, y: 0x3f80_0000, z: 0x3f80_0000 },
    )
}

} // verus!
