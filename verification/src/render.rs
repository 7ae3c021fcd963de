//! Per-frame data a GPU backend needs: render parameters, the camera
//! matrices, packed vertex/normal/index buffers, the padded readback
//! layout, and the row compaction that turns a padded readback into the
//! tight `width * height * 4`-byte image.
//!
//! Everything here is byte- and bit-exact: matrix contents come from the
//! trusted float kernel as named values, while sizes, strides, packing and
//! compaction are proved outright.

use vstd::prelude::*;

use vstd::bytes::{spec_u32_to_le_bytes, u32_to_le_bytes};

use crate::error::RenderError;
use crate::linalg::{
    fdiv, float_div, float_from_u32, float_of_u32, float_to_radians, fradians, mat4_look_at_rh,
    mat4_mul, mat4_perspective_rh_gl, mat_look_at_rh, mat_mul, mat_perspective_rh_gl, vec3_zero,
    Mat4Bits, Vec3Bits,
};
use crate::mesh::{framing_matrix, Mesh};

verus! {

/// Bit pattern of `0.1f32`: the near clipping plane.
pub const NEAR_PLANE_BITS: u32 = 0x3dcc_cccd;

/// Bit pattern of `1024.0f32`: the far clipping plane.
pub const FAR_PLANE_BITS: u32 = 0x4480_0000;

/// Bit pattern of `1.0f32`.
pub const ONE_F32_BITS: u32 = 0x3f80_0000;

/// Parameters of one thumbnail render.  The field of view and the camera
/// position carry `f32` bit patterns; the background color is accepted but
/// not yet applied to shading.
#[derive(Clone, Copy, Debug)]
pub struct RenderOptions {
    pub width: u16,
    pub height: u16,
    pub cam_fov_deg: u32,
    pub cam_position: Vec3Bits,
    pub sample_count: u32,
    pub recalc_normals: bool,
    pub background: (u8, u8, u8, u8),
}

/// The world-space up direction handed to the view matrix: `+Z`.
pub open spec fn up_z() -> Vec3Bits {
    Vec3Bits { x: 0, y: 0, z: ONE_F32_BITS }
}

/// The byte stride of one readback row: `width * 4` texel bytes rounded up
/// to the next multiple of 256.
pub open spec fn padded_stride(width: int) -> int {
    ((width * 4 + 255) / 256) * 256
}

/// The padded row stride the GPU copy uses for a `width`-texel row.
pub fn padded_bytes_per_row(width: u16) -> (r: u32)
    ensures
        r == padded_stride(width as int),
        r % 256 == 0,
        width as int * 4 <= r,
{
    (width as u32 * 4 + 255) / 256 * 256
}

/// The size of the host-visible readback buffer: one padded row per line.
pub fn readback_buffer_len(width: u16, height: u16) -> (r: u64)
    ensures
        r == padded_stride(width as int) * height,
{
    let r = padded_bytes_per_row(width);
    proof {
        assert(r as int * height as int <= 0xffff_ffff * 0xffff) by (nonlinear_arith)
            requires
                r as int <= 0xffff_ffff,
                0 <= height as int <= 0xffff,
        ;
    }
    r as u64 * height as u64
}

/// The size of the finished image: four bytes per texel, tightly packed.
pub fn output_len(width: u16, height: u16) -> (r: u64)
    ensures
        r == width as int * height as int * 4,
{
    proof {
        assert(width as int * height as int <= 0xffff * 0xffff) by (nonlinear_arith)
            requires
                0 <= width as int <= 0xffff,
                0 <= height as int <= 0xffff,
        ;
    }
    width as u64 * height as u64 * 4
}

/// Compact a padded readback buffer to the tight row-major RGBA image:
/// row `i` of the result is the first `width * 4` bytes of padded row `i`.
/// The result length is exactly `width * height * 4` whatever padding the
/// readback carried.
pub fn compact_rows(data: &[u8], width: u16, height: u16) -> (out: Vec<u8>)
    requires
        data@.len() >= padded_stride(width as int) * height,
    ensures
        out@.len() == width as int * height as int * 4,
        forall|row: int, col: int|
            #![trigger out@[row * (width as int * 4) + col]]
            0 <= row < height && 0 <= col < width as int * 4 ==> out@[row * (width as int * 4)
                + col] == data@[row * padded_stride(width as int) + col],
{
    let stride = padded_bytes_per_row(width) as usize;
    let tight = width as usize * 4;
    let dlen = data.len();
    let mut out: Vec<u8> = Vec::new();
    let mut row: usize = 0;
    while row < height as usize
        invariant
            0 <= row <= height,
            stride == padded_stride(width as int),
            tight == width as int * 4,
            tight <= stride,
            dlen == data@.len(),
            data@.len() >= padded_stride(width as int) * height,
            out@.len() == row * tight,
            forall|r2: int, c2: int|
                #![trigger out@[r2 * (width as int * 4) + c2]]
                0 <= r2 < row && 0 <= c2 < tight ==> out@[r2 * (width as int * 4) + c2] == data@[
                    r2 * padded_stride(width as int) + c2],
        decreases height - row,
    {
        proof {
            assert((row + 1) * padded_stride(width as int) <= height * padded_stride(
                width as int,
            ) && (row + 1) * padded_stride(width as int) == row * padded_stride(width as int)
                + padded_stride(width as int) && row * padded_stride(width as int) >= 0 && (row
                + 1) * tight == row * tight + tight) by (nonlinear_arith)
                requires
                    0 <= row < height,
                    padded_stride(width as int) >= 0,
                    tight >= 0,
            ;
        }
        let ghost out_row0 = out@;
        let mut col: usize = 0;
        while col < tight
            invariant
                0 <= col <= tight,
                row < height,
                stride == padded_stride(width as int),
                tight == width as int * 4,
                tight <= stride,
                dlen == data@.len(),
                data@.len() >= padded_stride(width as int) * height,
                (row + 1) * padded_stride(width as int) <= data@.len(),
                (row + 1) * padded_stride(width as int) == row * padded_stride(width as int)
                    + padded_stride(width as int),
                row * padded_stride(width as int) >= 0,
                out@.len() == row * tight + col,
                out_row0.len() == row * tight,
                forall|i: int| 0 <= i < out_row0.len() ==> out@[i] == out_row0[i],
                forall|r2: int, c2: int|
                    #![trigger out_row0[r2 * (width as int * 4) + c2]]
                    0 <= r2 < row && 0 <= c2 < tight ==> out_row0[r2 * (width as int * 4) + c2]
                        == data@[r2 * padded_stride(width as int) + c2],
                forall|c2: int|
                    #![trigger out@[row * (width as int * 4) + c2]]
                    0 <= c2 < col ==> out@[row * (width as int * 4) + c2] == data@[row
                        * padded_stride(width as int) + c2],
            decreases tight - col,
        {
            proof {
                assert(row * padded_stride(width as int) + col < (row + 1) * padded_stride(
                    width as int,
                ));
                assert(row * padded_stride(width as int) + col < data@.len());
            }
            let b = data[row * stride + col];
            out.push(b);
            col = col + 1;
        }
        proof {
            assert forall|r2: int, c2: int|
                #![trigger out@[r2 * (width as int * 4) + c2]]
                0 <= r2 < row + 1 && 0 <= c2 < tight implies out@[r2 * (width as int * 4) + c2]
                == data@[r2 * padded_stride(width as int) + c2] by {
                if r2 < row {
                    assert(r2 * (width as int * 4) + c2 < row * tight) by (nonlinear_arith)
                        requires
                            0 <= r2 < row,
                            0 <= c2 < tight,
                            tight == width as int * 4,
                    ;
                    assert(r2 * (width as int * 4) + c2 >= 0) by (nonlinear_arith)
                        requires
                            0 <= r2,
                            0 <= c2,
                            tight == width as int * 4,
                            tight >= 0,
                    ;
                    assert(out@[r2 * (width as int * 4) + c2] == out_row0[r2 * (width as int * 4)
                        + c2]);
                }
            }
        }
        row = row + 1;
    }
    proof {
        assert(out@.len() == height * (width as int * 4)) by (nonlinear_arith)
            requires
                out@.len() == (height as int) * tight,
                tight == width as int * 4,
        ;
        assert(width as int * height as int * 4 == height as int * (width as int * 4))
            by (nonlinear_arith);
    }
    out
}

/// The draw call's index count: the mesh's index count checked into the
/// 32-bit range, never truncated.
pub fn index_count(mesh: &Mesh) -> (r: Result<u32, RenderError>)
    ensures
        mesh.indices@.len() <= u32::MAX ==> (match r {
            Ok(c) => c as int == mesh.indices@.len(),
            _ => false,
        }),
        mesh.indices@.len() > u32::MAX ==> (match r {
            Err(RenderError::RenderError(_)) => true,
            _ => false,
        }),
{
    if mesh.indices.len() > u32::MAX as usize {
        Err(RenderError::RenderError("index count exceeds the 32-bit range".to_owned()))
    } else {
        Ok(mesh.indices.len() as u32)
    }
}

/// The little-endian byte stream of a `u32` sequence.
pub open spec fn u32s_le_bytes(s: Seq<u32>) -> Seq<u8>
    decreases s.len(),
{
    if s.len() == 0 {
        Seq::empty()
    } else {
        u32s_le_bytes(s.drop_last()) + spec_u32_to_le_bytes(s.last())
    }
}

/// The 12-byte little-endian layout of one vector: x, y, z.
pub open spec fn vec3_le_bytes(v: Vec3Bits) -> Seq<u8> {
    spec_u32_to_le_bytes(v.x) + spec_u32_to_le_bytes(v.y) + spec_u32_to_le_bytes(v.z)
}

/// The byte stream of a vector sequence, 12 bytes per vector.
pub open spec fn vec3s_le_bytes(s: Seq<Vec3Bits>) -> Seq<u8>
    decreases s.len(),
{
    if s.len() == 0 {
        Seq::empty()
    } else {
        vec3s_le_bytes(s.drop_last()) + vec3_le_bytes(s.last())
    }
}

/// Each vector contributes exactly 12 bytes.
pub proof fn lemma_vec3s_le_bytes_len(s: Seq<Vec3Bits>)
    ensures
        vec3s_le_bytes(s).len() == 12 * s.len(),
    decreases s.len(),
{
    vstd::bytes::lemma_auto_spec_u32_to_from_le_bytes();
    if s.len() > 0 {
        lemma_vec3s_le_bytes_len(s.drop_last());
    }
}

/// Each entry contributes exactly 4 bytes.
pub proof fn lemma_u32s_le_bytes_len(s: Seq<u32>)
    ensures
        u32s_le_bytes(s).len() == 4 * s.len(),
    decreases s.len(),
{
    vstd::bytes::lemma_auto_spec_u32_to_from_le_bytes();
    if s.len() > 0 {
        lemma_u32s_le_bytes_len(s.drop_last());
    }
}

/// Append one `u32` in little-endian order.
pub(crate) fn push_u32_le(out: &mut Vec<u8>, x: u32)
    ensures
        final(out)@ == old(out)@ + spec_u32_to_le_bytes(x),
{
    let mut bytes = u32_to_le_bytes(x);
    out.append(&mut bytes);
}

/// The vertex (or normal) buffer contents: every vector as 12 packed
/// little-endian bytes, in order.
pub fn pack_vec3s(vs: &Vec<Vec3Bits>) -> (r: Vec<u8>)
    ensures
        r@ == vec3s_le_bytes(vs@),
        r@.len() == 12 * vs@.len(),
{
    proof {
        lemma_vec3s_le_bytes_len(vs@);
    }
    let mut out: Vec<u8> = Vec::new();
    let mut i: usize = 0;
    while i < vs.len()
        invariant
            0 <= i <= vs@.len(),
            out@ == vec3s_le_bytes(vs@.take(i as int)),
        decreases vs@.len() - i,
    {
        let v = vs[i];
        push_u32_le(&mut out, v.x);
        push_u32_le(&mut out, v.y);
        push_u32_le(&mut out, v.z);
        proof {
            assert(vs@.take(i + 1).drop_last() =~= vs@.take(i as int));
            assert(vs@.take(i + 1).last() == vs@[i as int]);
        }
        i = i + 1;
    }
    proof {
        assert(vs@.take(vs@.len() as int) =~= vs@);
    }
    out
}

/// The index buffer contents: every index as 4 packed little-endian bytes,
/// in order.
pub fn pack_u32s(is: &Vec<u32>) -> (r: Vec<u8>)
    ensures
        r@ == u32s_le_bytes(is@),
        r@.len() == 4 * is@.len(),
{
    proof {
        lemma_u32s_le_bytes_len(is@);
    }
    let mut out: Vec<u8> = Vec::new();
    let mut i: usize = 0;
    while i < is.len()
        invariant
            0 <= i <= is@.len(),
            out@ == u32s_le_bytes(is@.take(i as int)),
        decreases is@.len() - i,
    {
        push_u32_le(&mut out, is[i]);
        proof {
            assert(is@.take(i + 1).drop_last() =~= is@.take(i as int));
            assert(is@.take(i + 1).last() == is@[i as int]);
        }
        i = i + 1;
    }
    proof {
        assert(is@.take(is@.len() as int) =~= is@);
    }
    out
}

/// The view matrix: look from the camera position at the origin, with
/// `+Z` up.
pub fn view_matrix(opts: &RenderOptions) -> (m: Mat4Bits)
    ensures
        m == mat_look_at_rh(opts.cam_position, vec3_zero(), up_z()),
{
    mat4_look_at_rh(opts.cam_position, Vec3Bits { x: 0, y: 0, z: 0 }, Vec3Bits {
        x: 0,
        y: 0,
        z: ONE_F32_BITS,
    })
}

/// The perspective matrix: the field of view converted to radians, the
/// aspect ratio `width / height`, and the fixed near and far planes.
pub fn projection_matrix(opts: &RenderOptions) -> (m: Mat4Bits)
    ensures
        m == mat_perspective_rh_gl(
            fradians(opts.cam_fov_deg),
            fdiv(float_of_u32(opts.width as u32), float_of_u32(opts.height as u32)),
            NEAR_PLANE_BITS,
            FAR_PLANE_BITS,
        ),
{
    let fov = float_to_radians(opts.cam_fov_deg);
    let aspect = float_div(float_from_u32(opts.width as u32), float_from_u32(opts.height as u32));
    mat4_perspective_rh_gl(fov, aspect, NEAR_PLANE_BITS, FAR_PLANE_BITS)
}

/// The model-view matrix of a frame: the view matrix composed with the
/// mesh's framing transform.
pub fn modelview_matrix(mesh: &Mesh, opts: &RenderOptions) -> (m: Mat4Bits)
    ensures
        m == mat_mul(
            mat_look_at_rh(opts.cam_position, vec3_zero(), up_z()),
            framing_matrix(mesh.bounds),
        ),
{
    let view = view_matrix(opts);
    let model = mesh.scale_and_center();
    mat4_mul(view, model)
}

} // verus!
