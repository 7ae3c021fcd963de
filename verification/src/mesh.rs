//! The normalized in-memory mesh: parallel vertex and normal arrays, a
//! triangle index list, and a bounding box grown vertex by vertex.
//!
//! Coordinates are `f32` bit patterns (see [`crate::linalg`]).  The bounding
//! box is the left fold of component-wise min/max over the vertices in
//! emission order, seeded from the first vertex; smooth normals are the
//! per-vertex sum of incident face normals, normalized at the end.  Both are
//! specified exactly, as folds over the trusted float operations, so the
//! results are provably deterministic functions of the input arrays.

use vstd::prelude::*;

use crate::linalg::{
    fdiv, mat_mul, mat_scale, mat_translation, vadd, vcross, vec3_add, vec3_cross, vec3_max,
    vec3_max_element, vec3_midpoint, vec3_min, vec3_neg, vec3_normalize, vec3_normalize_or_zero,
    vec3_sub, vec3_zero, float_div, mat4_from_scale, mat4_from_translation, mat4_mul, vmax,
    vmax_element, vmidpoint, vmin, vneg, vnormalize, vnormalize_or_zero, vsub, Mat4Bits, Vec3Bits,
};

verus! {

/// Bit pattern of `2.0f32`: the target span of the framing box.
pub const TWO_F32_BITS: u32 = 0x4000_0000;

/// Axis-aligned bounding box as two corner vectors.
#[derive(Clone, Copy, PartialEq, Eq, Structural, Debug)]
pub struct BoundingBox {
    pub min: Vec3Bits,
    pub max: Vec3Bits,
}

/// One expansion step: both corners move component-wise towards `v`.
pub open spec fn bb_expand(b: BoundingBox, v: Vec3Bits) -> BoundingBox {
    BoundingBox { min: vmin(b.min, v), max: vmax(b.max, v) }
}

/// The box after expanding `b` by the first `n` vertices of `vs` in order.
pub open spec fn bb_fold(b: BoundingBox, vs: Seq<Vec3Bits>, n: int) -> BoundingBox
    decreases n,
{
    if n <= 0 {
        b
    } else {
        bb_expand(bb_fold(b, vs, n - 1), vs[n - 1])
    }
}

/// The bounding box of a non-empty vertex sequence: seeded from the first
/// vertex, then expanded by every vertex in order (the seed included).
pub open spec fn bounds_of(vs: Seq<Vec3Bits>) -> BoundingBox
    recommends
        vs.len() > 0,
{
    bb_fold(BoundingBox { min: vs[0], max: vs[0] }, vs, vs.len() as int)
}

/// `bb_fold` only looks at the first `n` elements, so sequences that agree
/// there fold to the same box.
pub proof fn lemma_bb_fold_agree(b: BoundingBox, vs1: Seq<Vec3Bits>, vs2: Seq<Vec3Bits>, n: int)
    requires
        n <= vs1.len(),
        n <= vs2.len(),
        forall|i: int| 0 <= i < n ==> vs1[i] == vs2[i],
    ensures
        bb_fold(b, vs1, n) == bb_fold(b, vs2, n),
    decreases n,
{
    if n > 0 {
        lemma_bb_fold_agree(b, vs1, vs2, n - 1);
    }
}

/// Appending one vertex extends the fold by one expansion step.
pub proof fn lemma_bb_fold_push(b: BoundingBox, vs: Seq<Vec3Bits>, v: Vec3Bits)
    ensures
        bb_fold(b, vs.push(v), vs.len() as int + 1) == bb_expand(
            bb_fold(b, vs, vs.len() as int),
            v,
        ),
{
    lemma_bb_fold_agree(b, vs.push(v), vs, vs.len() as int);
}

impl BoundingBox {
    /// A box enclosing exactly one point.
    pub(crate) fn new(v: Vec3Bits) -> (b: BoundingBox)
        ensures
            b == (BoundingBox { min: v, max: v }),
    {
        BoundingBox { min: v, max: v }
    }

    /// Grow the box so it also encloses `v`.
    pub(crate) fn expand(&mut self, v: Vec3Bits)
        ensures
            *final(self) == bb_expand(*old(self), v),
    {
        self.min = vec3_min(self.min, v);
        self.max = vec3_max(self.max, v);
    }

    /// The component-wise midpoint of the two corners.
    pub fn center(&self) -> (c: Vec3Bits)
        ensures
            c == vmidpoint(self.min, self.max),
    {
        vec3_midpoint(self.min, self.max)
    }
}

/// Normalized triangle geometry.
///
/// A well-formed mesh (every successfully loaded one is, see [`Mesh::wf`])
/// keeps `normals` parallel to `vertices`, an index count that is a positive
/// multiple of three with every index in range, and `bounds` equal to the
/// fold of all vertices.
#[derive(Clone, Debug)]
pub struct Mesh {
    pub vertices: Vec<Vec3Bits>,
    pub normals: Vec<Vec3Bits>,
    pub indices: Vec<u32>,
    pub bounds: BoundingBox,
}

/// The face normal of the triangle over `p[a]`, `p[b]`, `p[c]`: the
/// normalized cross product of its two edges out of `a`.
pub open spec fn face_normal(p: Seq<Vec3Bits>, a: int, b: int, c: int) -> Vec3Bits {
    vnormalize(vcross(vsub(p[b], p[a]), vsub(p[c], p[a])))
}

/// Add one face normal into the accumulators of its three corners, in
/// corner order (corners may repeat in a degenerate triangle).
pub open spec fn accum_step(acc: Seq<Vec3Bits>, n: Vec3Bits, a: int, b: int, c: int) -> Seq<
    Vec3Bits,
> {
    let acc1 = acc.update(a, vadd(acc[a], n));
    let acc2 = acc1.update(b, vadd(acc1[b], n));
    acc2.update(c, vadd(acc2[c], n))
}

/// Accumulators over `p.len()` vertices after the first `t` index triples:
/// zero-seeded, every triple adds its face normal to its three corners.
pub open spec fn accum(p: Seq<Vec3Bits>, idx: Seq<u32>, t: int) -> Seq<Vec3Bits>
    decreases t,
{
    if t <= 0 {
        Seq::new(p.len(), |i: int| vec3_zero())
    } else {
        let a = idx[3 * (t - 1)] as int;
        let b = idx[3 * (t - 1) + 1] as int;
        let c = idx[3 * (t - 1) + 2] as int;
        accum_step(accum(p, idx, t - 1), face_normal(p, a, b, c), a, b, c)
    }
}

/// The smooth per-vertex normals of the geometry: each vertex's accumulated
/// incident face normals, normalized, with a zero accumulator mapping to the
/// zero vector.
pub open spec fn smooth_normals(p: Seq<Vec3Bits>, idx: Seq<u32>) -> Seq<Vec3Bits> {
    accum(p, idx, idx.len() as int / 3).map_values(|v: Vec3Bits| vnormalize_or_zero(v))
}

/// Accumulation never changes the number of accumulators.
pub proof fn lemma_accum_len(p: Seq<Vec3Bits>, idx: Seq<u32>, t: int)
    requires
        forall|i: int| 0 <= i < 3 * t ==> (idx[i] as int) < p.len(),
        3 * t <= idx.len(),
    ensures
        accum(p, idx, t).len() == p.len(),
    decreases t,
{
    if t > 0 {
        lemma_accum_len(p, idx, t - 1);
    }
}

/// Law: the accumulator of a vertex that no processed index triple
/// references stays exactly the zero vector.
pub proof fn lemma_accum_unreferenced(p: Seq<Vec3Bits>, idx: Seq<u32>, t: int, v: int)
    requires
        0 <= v < p.len(),
        3 * t <= idx.len(),
        forall|i: int| 0 <= i < 3 * t ==> (idx[i] as int) < p.len(),
        forall|i: int| 0 <= i < 3 * t ==> (idx[i] as int) != v,
    ensures
        accum(p, idx, t)[v] == vec3_zero(),
    decreases t,
{
    if t > 0 {
        lemma_accum_unreferenced(p, idx, t - 1, v);
        lemma_accum_len(p, idx, t - 1);
    }
}

/// Law: smooth-normal synthesis is deterministic — equal vertex and index
/// arrays yield bit-identical normal arrays, however often it is re-run.
pub proof fn lemma_smooth_normals_deterministic(
    p1: Seq<Vec3Bits>,
    idx1: Seq<u32>,
    p2: Seq<Vec3Bits>,
    idx2: Seq<u32>,
)
    requires
        p1 == p2,
        idx1 == idx2,
    ensures
        smooth_normals(p1, idx1) == smooth_normals(p2, idx2),
{
}

/// The framing transform of a bounding box: translate the box center to the
/// origin, then scale uniformly by two over the longest extent, so the
/// longest axis spans `[-1, 1]`.
pub open spec fn framing_matrix(b: BoundingBox) -> Mat4Bits {
    let translation = mat_translation(vneg(vmidpoint(b.min, b.max)));
    let scale_factor = fdiv(TWO_F32_BITS, vmax_element(vsub(b.max, b.min)));
    mat_mul(mat_scale(Vec3Bits { x: scale_factor, y: scale_factor, z: scale_factor }), translation)
}

impl Mesh {
    /// Well-formedness of a loaded mesh: parallel normals, a positive
    /// triangle count, every index in range, and the bounding box equal to
    /// the fold of all vertices.
    pub open spec fn wf(&self) -> bool {
        &&& self.normals@.len() == self.vertices@.len()
        &&& self.indices@.len() % 3 == 0
        &&& self.indices@.len() > 0
        &&& self.vertices@.len() > 0
        &&& forall|i: int|
            0 <= i < self.indices@.len() ==> (self.indices@[i] as int) < self.vertices@.len()
        &&& self.bounds == bounds_of(self.vertices@)
    }

    /// The model matrix framing this mesh: its bounding box centered at the
    /// origin and scaled so the longest axis spans exactly `[-1, 1]`.
    pub fn scale_and_center(&self) -> (m: Mat4Bits)
        ensures
            m == framing_matrix(self.bounds),
    {
        let center = vec3_midpoint(self.bounds.min, self.bounds.max);
        let translation = mat4_from_translation(vec3_neg(center));
        let extent = vec3_sub(self.bounds.max, self.bounds.min);
        let scale_factor = float_div(TWO_F32_BITS, vec3_max_element(extent));
        let scale = mat4_from_scale(
            Vec3Bits { x: scale_factor, y: scale_factor, z: scale_factor },
        );
        mat4_mul(scale, translation)
    }

    /// Overwrite `normals` with smooth per-vertex normals synthesized from
    /// the current vertices and indices: one accumulator per vertex, every
    /// full index triple adds its face normal to its three corners, and each
    /// accumulator is normalized at the end — exactly zero (never NaN) for a
    /// vertex no triangle references.
    pub fn compute_smooth_normals(&mut self)
        requires
            forall|i: int|
                0 <= i < 3 * (old(self).indices@.len() as int / 3) ==> (old(
                    self,
                ).indices@[i] as int) < old(self).vertices@.len(),
        ensures
            final(self).vertices == old(self).vertices,
            final(self).indices == old(self).indices,
            final(self).bounds == old(self).bounds,
            final(self).normals@ == smooth_normals(old(self).vertices@, old(self).indices@),
            final(self).normals@.len() == old(self).vertices@.len(),
            forall|v: int|
                0 <= v < old(self).vertices@.len() && (forall|j: int|
                    0 <= j < 3 * (old(self).indices@.len() as int / 3) ==> (old(
                        self,
                    ).indices@[j] as int) != v) ==> final(self).normals@[v] == vec3_zero(),
    {
        let ghost p = self.vertices@;
        let ghost idx = self.indices@;
        let n = self.vertices.len();
        let nt = self.indices.len() / 3;

        let mut acc: Vec<Vec3Bits> = Vec::new();
        while acc.len() < n
            invariant
                acc@.len() <= n,
                forall|k: int| 0 <= k < acc@.len() ==> acc@[k] == vec3_zero(),
                n == p.len(),
            decreases n - acc@.len(),
        {
            acc.push(Vec3Bits { x: 0, y: 0, z: 0 });
        }
        proof {
            assert(acc@ =~= accum(p, idx, 0));
        }

        let mut t: usize = 0;
        while t < nt
            invariant
                0 <= t <= nt,
                nt == idx.len() / 3,
                idx.len() <= usize::MAX,
                n == p.len(),
                self.vertices@ == p,
                self.indices@ == idx,
                self.normals@ == old(self).normals@,
                self.bounds == old(self).bounds,
                forall|i: int| 0 <= i < 3 * (idx.len() as int / 3) ==> (idx[i] as int) < p.len(),
                acc@ == accum(p, idx, t as int),
                acc@.len() == n,
            decreases nt - t,
        {
            proof {
                assert(3 * (t as int) + 2 < idx.len());
            }
            let a = self.indices[3 * t] as usize;
            let b = self.indices[3 * t + 1] as usize;
            let c = self.indices[3 * t + 2] as usize;
            let pa = self.vertices[a];
            let pb = self.vertices[b];
            let pc = self.vertices[c];
            let fnorm = vec3_normalize(vec3_cross(vec3_sub(pb, pa), vec3_sub(pc, pa)));

            let va = vec3_add(acc[a], fnorm);
            acc.set(a, va);
            let vb = vec3_add(acc[b], fnorm);
            acc.set(b, vb);
            let vc = vec3_add(acc[c], fnorm);
            acc.set(c, vc);

            proof {
                assert(fnorm == face_normal(p, a as int, b as int, c as int));
                assert(acc@ == accum(p, idx, t as int + 1));
                lemma_accum_len(p, idx, t as int + 1);
            }
            t = t + 1;
        }

        let mut normals: Vec<Vec3Bits> = Vec::new();
        let mut i: usize = 0;
        while i < n
            invariant
                0 <= i <= n,
                acc@ == accum(p, idx, idx.len() as int / 3),
                acc@.len() == n,
                normals@.len() == i,
                forall|k: int| 0 <= k < i ==> normals@[k] == vnormalize_or_zero(acc@[k]),
                forall|k: int|
                    0 <= k < i && acc@[k] == vec3_zero() ==> normals@[k] == vec3_zero(),
                self.vertices@ == p,
                self.indices@ == idx,
                self.bounds == old(self).bounds,
            decreases n - i,
        {
            let v = acc[i];
            normals.push(vec3_normalize_or_zero(v));
            i = i + 1;
        }
        proof {
            assert(normals@ =~= smooth_normals(p, idx));
            assert forall|v: int|
                0 <= v < p.len() && (forall|j: int|
                    0 <= j < 3 * (idx.len() as int / 3) ==> (idx[j] as int) != v) implies normals@[v]
                == vec3_zero() by {
                lemma_accum_unreferenced(p, idx, idx.len() as int / 3, v);
            }
        }
        self.normals = normals;
    }
}

} // verus!
