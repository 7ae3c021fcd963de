//! Bit-pattern vectors and matrices, and the trusted float kernel.
//!
//! Every scalar here is the IEEE-754 bit pattern of an `f32`, carried as a
//! `u32`.  The float arithmetic itself is delegated to `glam` (and, for one
//! scalar division and one degree conversion, to the standard library)
//! through `external_body` wrappers.  Each wrapper makes exactly one outside
//! call; its result is pinned to an uninterpreted spec function of the
//! arguments, which is sound because these operations are pure functions of
//! their operands' bits (IEEE-754 arithmetic with one rounding mode, no
//! global state).

use vstd::prelude::*;

verus! {

/// One 3-component float vector, each component as its `f32` bit pattern.
#[derive(Clone, Copy, PartialEq, Eq, Structural, Debug)]
pub struct Vec3Bits {
    pub x: u32,
    pub y: u32,
    pub z: u32,
}

/// One column-major 4x4 float matrix as 16 `f32` bit patterns.
#[derive(Clone, Copy, Debug)]
pub struct Mat4Bits {
    pub m: [u32; 16],
}

/// The all-zero vector: every component is `+0.0`.
pub open spec fn vec3_zero() -> Vec3Bits {
    Vec3Bits { x: 0, y: 0, z: 0 }
}

/// A bit pattern denotes a floating-point zero exactly when everything but
/// the sign bit is clear (`+0.0` or `-0.0`); this is `== 0.0` on floats.
pub open spec fn is_float_zero(b: u32) -> bool {
    b & 0x7fff_ffff == 0
}

/// All three components are floating-point zeros.
pub open spec fn is_vec3_zero(v: Vec3Bits) -> bool {
    is_float_zero(v.x) && is_float_zero(v.y) && is_float_zero(v.z)
}

/// Runtime test for [`is_float_zero`].
pub fn float_is_zero(b: u32) -> (r: bool)
    ensures
        r == is_float_zero(b),
{
    b & 0x7fff_ffff == 0
}

/// Runtime test for [`is_vec3_zero`].
pub fn vec3_is_zero(v: &Vec3Bits) -> (r: bool)
    ensures
        r == is_vec3_zero(*v),
{
    float_is_zero(v.x) && float_is_zero(v.y) && float_is_zero(v.z)
}

/// Reassemble three component bit patterns into a vector.
pub(crate) fn vec3_from_array(a: [u32; 3]) -> (r: Vec3Bits)
    ensures
        r == (Vec3Bits { x: a[0], y: a[1], z: a[2] }),
{
    Vec3Bits { x: a[0], y: a[1], z: a[2] }
}

pub uninterp spec fn vmin(a: Vec3Bits, b: Vec3Bits) -> Vec3Bits;

pub uninterp spec fn vmax(a: Vec3Bits, b: Vec3Bits) -> Vec3Bits;

pub uninterp spec fn vmidpoint(a: Vec3Bits, b: Vec3Bits) -> Vec3Bits;

pub uninterp spec fn vadd(a: Vec3Bits, b: Vec3Bits) -> Vec3Bits;

pub uninterp spec fn vsub(a: Vec3Bits, b: Vec3Bits) -> Vec3Bits;

pub uninterp spec fn vneg(a: Vec3Bits) -> Vec3Bits;

pub uninterp spec fn vcross(a: Vec3Bits, b: Vec3Bits) -> Vec3Bits;

pub uninterp spec fn vnormalize(a: Vec3Bits) -> Vec3Bits;

pub uninterp spec fn vnormalize_or_zero(a: Vec3Bits) -> Vec3Bits;

pub uninterp spec fn vmax_element(a: Vec3Bits) -> u32;

pub uninterp spec fn fdiv(a: u32, b: u32) -> u32;

pub uninterp spec fn fradians(deg: u32) -> u32;

pub uninterp spec fn float_of_u32(n: u32) -> u32;

pub uninterp spec fn mat_translation(t: Vec3Bits) -> Mat4Bits;

pub uninterp spec fn mat_scale(s: Vec3Bits) -> Mat4Bits;

pub uninterp spec fn mat_mul(a: Mat4Bits, b: Mat4Bits) -> Mat4Bits;

pub uninterp spec fn mat_look_at_rh(eye: Vec3Bits, center: Vec3Bits, up: Vec3Bits) -> Mat4Bits;

pub uninterp spec fn mat_perspective_rh_gl(
    fov_y_radians: u32,
    aspect: u32,
    z_near: u32,
    z_far: u32,
) -> Mat4Bits;

/// Relies on `glam::Vec3::min`: component-wise minimum of two vectors.
#[verifier::external_body]
pub(crate) fn vec3_min(a: Vec3Bits, b: Vec3Bits) -> (r: Vec3Bits)
    ensures
        r == vmin(a, b),
{
    let ga: glam::Vec3 = bytemuck::cast([a.x, a.y, a.z]);
    let gb: glam::Vec3 = bytemuck::cast([b.x, b.y, b.z]);
    let o: [u32; 3] = bytemuck::cast(ga.min(gb));
    Vec3Bits { x: o[0], y: o[1], z: o[2] }
}

/// Relies on `glam::Vec3::max`: component-wise maximum of two vectors.
#[verifier::external_body]
pub(crate) fn vec3_max(a: Vec3Bits, b: Vec3Bits) -> (r: Vec3Bits)
    ensures
        r == vmax(a, b),
{
    let ga: glam::Vec3 = bytemuck::cast([a.x, a.y, a.z]);
    let gb: glam::Vec3 = bytemuck::cast([b.x, b.y, b.z]);
    let o: [u32; 3] = bytemuck::cast(ga.max(gb));
    Vec3Bits { x: o[0], y: o[1], z: o[2] }
}

/// Relies on `glam::Vec3::midpoint`: the component-wise average
/// `(a + b) * 0.5` of two vectors.
#[verifier::external_body]
pub(crate) fn vec3_midpoint(a: Vec3Bits, b: Vec3Bits) -> (r: Vec3Bits)
    ensures
        r == vmidpoint(a, b),
{
    let ga: glam::Vec3 = bytemuck::cast([a.x, a.y, a.z]);
    let gb: glam::Vec3 = bytemuck::cast([b.x, b.y, b.z]);
    let o: [u32; 3] = bytemuck::cast(ga.midpoint(gb));
    Vec3Bits { x: o[0], y: o[1], z: o[2] }
}

/// Relies on `glam`'s `Add` for `Vec3`: component-wise vector addition.
#[verifier::external_body]
pub(crate) fn vec3_add(a: Vec3Bits, b: Vec3Bits) -> (r: Vec3Bits)
    ensures
        r == vadd(a, b),
{
    let ga: glam::Vec3 = bytemuck::cast([a.x, a.y, a.z]);
    let gb: glam::Vec3 = bytemuck::cast([b.x, b.y, b.z]);
    let o: [u32; 3] = bytemuck::cast(ga + gb);
    Vec3Bits { x: o[0], y: o[1], z: o[2] }
}

/// Relies on `glam`'s `Sub` for `Vec3`: component-wise vector subtraction.
#[verifier::external_body]
pub(crate) fn vec3_sub(a: Vec3Bits, b: Vec3Bits) -> (r: Vec3Bits)
    ensures
        r == vsub(a, b),
{
    let ga: glam::Vec3 = bytemuck::cast([a.x, a.y, a.z]);
    let gb: glam::Vec3 = bytemuck::cast([b.x, b.y, b.z]);
    let o: [u32; 3] = bytemuck::cast(ga - gb);
    Vec3Bits { x: o[0], y: o[1], z: o[2] }
}

/// Relies on `glam`'s `Neg` for `Vec3`: component-wise negation.
#[verifier::external_body]
pub(crate) fn vec3_neg(a: Vec3Bits) -> (r: Vec3Bits)
    ensures
        r == vneg(a),
{
    let ga: glam::Vec3 = bytemuck::cast([a.x, a.y, a.z]);
    let o: [u32; 3] = bytemuck::cast(-ga);
    Vec3Bits { x: o[0], y: o[1], z: o[2] }
}

/// Relies on `glam::Vec3::cross`: the cross product of two vectors.
#[verifier::external_body]
pub(crate) fn vec3_cross(a: Vec3Bits, b: Vec3Bits) -> (r: Vec3Bits)
    ensures
        r == vcross(a, b),
{
    let ga: glam::Vec3 = bytemuck::cast([a.x, a.y, a.z]);
    let gb: glam::Vec3 = bytemuck::cast([b.x, b.y, b.z]);
    let o: [u32; 3] = bytemuck::cast(ga.cross(gb));
    Vec3Bits { x: o[0], y: o[1], z: o[2] }
}

/// Relies on `glam::Vec3::normalize`: `a` scaled by the reciprocal of its
/// length.  With glam's default features this never panics; a zero or
/// non-finite input yields non-finite components.
#[verifier::external_body]
pub(crate) fn vec3_normalize(a: Vec3Bits) -> (r: Vec3Bits)
    ensures
        r == vnormalize(a),
{
    let ga: glam::Vec3 = bytemuck::cast([a.x, a.y, a.z]);
    let o: [u32; 3] = bytemuck::cast(ga.normalize());
    Vec3Bits { x: o[0], y: o[1], z: o[2] }
}

/// Relies on `glam::Vec3::normalize_or_zero`: `a` normalized to length one,
/// or exactly `Vec3::ZERO` when `a` is zero, nearly zero or non-finite; in
/// particular the all-plus-zero input maps to the all-plus-zero output.
#[verifier::external_body]
pub(crate) fn vec3_normalize_or_zero(a: Vec3Bits) -> (r: Vec3Bits)
    ensures
        r == vnormalize_or_zero(a),
        a == vec3_zero() ==> r == vec3_zero(),
{
    let ga: glam::Vec3 = bytemuck::cast([a.x, a.y, a.z]);
    let o: [u32; 3] = bytemuck::cast(ga.normalize_or_zero());
    Vec3Bits { x: o[0], y: o[1], z: o[2] }
}

/// Relies on `glam::Vec3::max_element`: the maximum of the three components.
#[verifier::external_body]
pub(crate) fn vec3_max_element(a: Vec3Bits) -> (r: u32)
    ensures
        r == vmax_element(a),
{
    let ga: glam::Vec3 = bytemuck::cast([a.x, a.y, a.z]);
    ga.max_element().to_bits()
}

/// Relies on the standard library's `f32` division (`Div::div`), which is
/// total: division by zero yields an infinity or NaN, never a panic.
#[verifier::external_body]
pub(crate) fn float_div(a: u32, b: u32) -> (r: u32)
    ensures
        r == fdiv(a, b),
{
    let v: glam::Vec2 = bytemuck::cast([a, b]);
    (v.x / v.y).to_bits()
}

/// Relies on the standard library's `f32::to_radians`: degrees to radians.
#[verifier::external_body]
pub(crate) fn float_to_radians(deg: u32) -> (r: u32)
    ensures
        r == fradians(deg),
{
    let v: glam::Vec2 = bytemuck::cast([deg, 0u32]);
    v.x.to_radians().to_bits()
}

/// Relies on `glam::UVec3::as_vec3`: each `u32` component converted to the
/// nearest `f32` (exact for values below 2^24, so for all `u16` sizes).
#[verifier::external_body]
pub(crate) fn float_from_u32(n: u32) -> (r: u32)
    ensures
        r == float_of_u32(n),
{
    let o: [u32; 3] = bytemuck::cast(glam::UVec3::new(n, 0, 0).as_vec3());
    o[0]
}

/// Relies on `glam::Mat4::from_translation`: the affine matrix translating
/// by `t`.
#[verifier::external_body]
pub(crate) fn mat4_from_translation(t: Vec3Bits) -> (r: Mat4Bits)
    ensures
        r == mat_translation(t),
{
    let gt: glam::Vec3 = bytemuck::cast([t.x, t.y, t.z]);
    let o: [u32; 16] = bytemuck::cast(glam::Mat4::from_translation(gt));
    Mat4Bits { m: o }
}

/// Relies on `glam::Mat4::from_scale`: the affine matrix scaling by `s`
/// per axis.  With glam's default features this never panics.
#[verifier::external_body]
pub(crate) fn mat4_from_scale(s: Vec3Bits) -> (r: Mat4Bits)
    ensures
        r == mat_scale(s),
{
    let gs: glam::Vec3 = bytemuck::cast([s.x, s.y, s.z]);
    let o: [u32; 16] = bytemuck::cast(glam::Mat4::from_scale(gs));
    Mat4Bits { m: o }
}

/// Relies on `glam`'s `Mul` for `Mat4`: matrix multiplication `a * b`.
#[verifier::external_body]
pub(crate) fn mat4_mul(a: Mat4Bits, b: Mat4Bits) -> (r: Mat4Bits)
    ensures
        r == mat_mul(a, b),
{
    let ga: glam::Mat4 = bytemuck::cast(a.m);
    let gb: glam::Mat4 = bytemuck::cast(b.m);
    let o: [u32; 16] = bytemuck::cast(ga * gb);
    Mat4Bits { m: o }
}

/// Relies on `glam::camera::rh::view::look_at_mat4`: the right-handed view
/// matrix for an eye position, a look-at target and an up direction.  With
/// glam's default features this never panics.
#[verifier::external_body]
pub(crate) fn mat4_look_at_rh(eye: Vec3Bits, center: Vec3Bits, up: Vec3Bits) -> (r: Mat4Bits)
    ensures
        r == mat_look_at_rh(eye, center, up),
{
    let ge: glam::Vec3 = bytemuck::cast([eye.x, eye.y, eye.z]);
    let gc: glam::Vec3 = bytemuck::cast([center.x, center.y, center.z]);
    let gu: glam::Vec3 = bytemuck::cast([up.x, up.y, up.z]);
    let o: [u32; 16] = bytemuck::cast(glam::camera::rh::view::look_at_mat4(ge, gc, gu));
    Mat4Bits { m: o }
}

/// Relies on `glam::camera::rh::proj::opengl::perspective`: the
/// OpenGL-convention (`gluPerspective`) projection matrix.  With glam's
/// default features this never panics.
#[verifier::external_body]
pub(crate) fn mat4_perspective_rh_gl(
    fov_y_radians: u32,
    aspect: u32,
    z_near: u32,
    z_far: u32,
) -> (r: Mat4Bits)
    ensures
        r == mat_perspective_rh_gl(fov_y_radians, aspect, z_near, z_far),
{
    let v: glam::Vec4 = bytemuck::cast([fov_y_radians, aspect, z_near, z_far]);
    let o: [u32; 16] =
        bytemuck::cast(glam::camera::rh::proj::opengl::perspective(v.x, v.y, v.z, v.w));
    Mat4Bits { m: o }
}

} // verus!
