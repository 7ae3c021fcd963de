//! Format loaders: STL, OBJ and 3MF bytes into a [`Mesh`].
//!
//! Each format's decoder (`stl_io`, `tobj`, `threemf`) runs behind one
//! trusted wrapper that hands back plain bit-pattern data; everything the
//! loaders then do — expanding triangles into vertices, offsetting and
//! range-checking indices, folding the bounding box, choosing between
//! stored and synthesized normals — is verified against an exact
//! specification of the resulting mesh.

use vstd::prelude::*;
use vstd::string::StringSliceAdditionalSpecFns;

use crate::error::MeshError;
use crate::linalg::{
    is_vec3_zero, vec3_from_array, vec3_is_zero, vec3_sub, vsub, Vec3Bits,
};
use crate::mesh::{
    bb_expand, bb_fold, bounds_of, lemma_bb_fold_push, smooth_normals, BoundingBox, Mesh,
};

verus! {

/// The largest number of triangles whose corner ordinals (three per
/// triangle) all fit in `u32`: `3 * MAX_TRIANGLES - 1 <= u32::MAX`.
pub const MAX_TRIANGLES: usize = 1431655765;

/// The sequence `0, 1, .., n-1` as 32-bit indices.
pub open spec fn seq_indices(n: int) -> Seq<u32>
    recommends
        n >= 0,
{
    Seq::new(n as nat, |i: int| i as u32)
}

/// A box is degenerate when its extent is a floating-point zero on all
/// three axes: no framing scale exists for such a mesh, so loading rejects
/// it (the documented guard for the zero-extent case).
pub open spec fn degenerate_bounds(b: BoundingBox) -> bool {
    is_vec3_zero(vsub(b.max, b.min))
}

/// Runtime test for [`degenerate_bounds`].
fn bounds_are_degenerate(b: &BoundingBox) -> (r: bool)
    ensures
        r == degenerate_bounds(*b),
{
    let extent = vec3_sub(b.max, b.min);
    vec3_is_zero(&extent)
}

/// One STL facet: the stored face normal and three references into the
/// decoder's deduplicated vertex list.
#[derive(Clone, Copy, PartialEq, Eq, Structural, Debug)]
pub struct StlFace {
    pub normal: Vec3Bits,
    pub a: usize,
    pub b: usize,
    pub c: usize,
}

/// What the STL decoder yields for given input bytes: a deduplicated vertex
/// list and the face list, or the decoder's error message.
pub uninterp spec fn stl_parse(data: Seq<u8>) -> Result<
    (Seq<Vec3Bits>, Seq<StlFace>),
    Seq<char>,
>;

/// Relies on `stl_io::read_stl` (binary or ASCII STL from an in-memory
/// reader).  The result depends on the bytes alone.  Every face index it
/// produces refers into its own vertex list, because the decoder builds
/// that list and the indices together.
#[verifier::external_body]
fn read_stl_data(data: &[u8]) -> (r: Result<(Vec<Vec3Bits>, Vec<StlFace>), String>)
    ensures
        r matches Ok(q) ==> stl_parse(data@) matches Ok(p) && q.0@ == p.0 && q.1@ == p.1,
        r matches Err(e) ==> stl_parse(data@) matches Err(m) && e@ == m,
        r matches Ok(q) ==> forall|i: int|
            0 <= i < q.1@.len() ==> q.1@[i].a < q.0@.len() && q.1@[i].b < q.0@.len()
                && q.1@[i].c < q.0@.len(),
{
    let mut cur = std::io::Cursor::new(data);
    match stl_io::read_stl(&mut cur) {
        Ok(m) => Ok((
            m.vertices.iter().map(|v| vec3_from_array([v[0].to_bits(), v[1].to_bits(), v[2].to_bits()])).collect(),
            m.faces.iter().map(|f| StlFace {
                normal: vec3_from_array([f.normal[0].to_bits(), f.normal[1].to_bits(), f.normal[2].to_bits()]),
                a: f.vertices[0], b: f.vertices[1], c: f.vertices[2],
            }).collect(),
        )),
        Err(e) => Err(format!("{e}")),
    }
}

/// Corner `i` of the expanded (non-shared) vertex stream: corner `i % 3`
/// of face `i / 3`, looked up in the decoder's vertex list.
pub open spec fn stl_corner(verts: Seq<Vec3Bits>, faces: Seq<StlFace>, i: int) -> Vec3Bits {
    let f = faces[i / 3];
    if i % 3 == 0 {
        verts[f.a as int]
    } else if i % 3 == 1 {
        verts[f.b as int]
    } else {
        verts[f.c as int]
    }
}

/// The expanded vertex stream: three fresh corners per face, in face order.
pub open spec fn stl_vertices(verts: Seq<Vec3Bits>, faces: Seq<StlFace>) -> Seq<Vec3Bits> {
    Seq::new(3 * faces.len(), |i: int| stl_corner(verts, faces, i))
}

/// A face whose stored normal is used as-is: recalculation was not
/// requested and the stored normal is not the zero vector.
pub open spec fn stl_face_kept(f: StlFace, recalc: bool) -> bool {
    !recalc && !is_vec3_zero(f.normal)
}

/// Every face carries a usable stored normal.
pub open spec fn all_faces_kept(faces: Seq<StlFace>, recalc: bool) -> bool {
    forall|i: int| 0 <= i < faces.len() ==> stl_face_kept(faces[i], recalc)
}

/// The normal stream of a loaded STL mesh: each stored normal replicated
/// onto its three corners when every face has one, otherwise smooth
/// normals synthesized from the full expanded geometry.
pub open spec fn stl_normals(verts: Seq<Vec3Bits>, faces: Seq<StlFace>, recalc: bool) -> Seq<
    Vec3Bits,
> {
    if all_faces_kept(faces, recalc) {
        Seq::new(3 * faces.len(), |i: int| faces[i / 3].normal)
    } else {
        smooth_normals(stl_vertices(verts, faces), seq_indices(3 * faces.len() as int))
    }
}

/// One OBJ sub-model as flat bit-pattern arrays: positions and normals as
/// x,y,z triples, plus its triangle index stream.
#[derive(Clone, Debug)]
pub struct ObjModel {
    pub positions: Vec<u32>,
    pub normals: Vec<u32>,
    pub indices: Vec<u32>,
}

/// What the OBJ loader yields for given input bytes: per sub-model the
/// flat position triples, normal triples and indices, or the loader's
/// error message.
pub uninterp spec fn obj_parse(data: Seq<u8>) -> Result<
    Seq<(Seq<u32>, Seq<u32>, Seq<u32>)>,
    Seq<char>,
>;

/// Relies on `tobj::load_obj_buf` with `GPU_LOAD_OPTIONS`: faces
/// triangulated, one shared index stream, points and lines dropped.  The
/// result depends on the bytes alone; material libraries are never read
/// (the material loader always fails, and material data is unused).  The
/// loader emits positions and indices together, so position and normal
/// counts are multiples of three, triangulated faces contribute three
/// indices each, and `3 * index + 2` stays below the position count.
#[verifier::external_body]
fn read_obj_data(data: &[u8]) -> (r: Result<Vec<ObjModel>, String>)
    ensures
        r matches Ok(ms) ==> obj_parse(data@) matches Ok(p) && ms@.len() == p.len() && forall|
            i: int,
        |
            0 <= i < p.len() ==> ms@[i].positions@ == p[i].0 && ms@[i].normals@ == p[i].1
                && ms@[i].indices@ == p[i].2,
        r matches Err(e) ==> obj_parse(data@) matches Err(m) && e@ == m,
        r matches Ok(ms) ==> forall|i: int|
            0 <= i < ms@.len() ==> ms@[i].positions@.len() % 3 == 0 && ms@[i].normals@.len() % 3
                == 0 && ms@[i].indices@.len() % 3 == 0,
        r matches Ok(ms) ==> forall|i: int, j: int|
            0 <= i < ms@.len() && 0 <= j < ms@[i].indices@.len() ==> 3 * (
            ms@[i].indices@[j] as int) + 2 < ms@[i].positions@.len(),
{
    let mut rd: &[u8] = data;
    match tobj::load_obj_buf(&mut rd, &tobj::GPU_LOAD_OPTIONS, |_| Err(tobj::LoadError::GenericFailure)) {
        Ok((models, _)) => Ok(models.iter().map(|m| ObjModel {
            positions: m.mesh.positions.iter().map(|c| c.to_bits()).collect(),
            normals: m.mesh.normals.iter().map(|c| c.to_bits()).collect(),
            indices: m.mesh.indices.clone(),
        }).collect()),
        Err(e) => Err(format!("{e}")),
    }
}

/// The vectors packed in a flat triple array (used for positions and for
/// normals alike).
pub open spec fn obj_model_verts(pos: Seq<u32>) -> Seq<Vec3Bits> {
    Seq::new(
        pos.len() / 3,
        |i: int| Vec3Bits { x: pos[3 * i], y: pos[3 * i + 1], z: pos[3 * i + 2] },
    )
}

/// All vertices of the first `k` sub-models, concatenated in order.
pub open spec fn obj_verts(ms: Seq<(Seq<u32>, Seq<u32>, Seq<u32>)>, k: int) -> Seq<Vec3Bits>
    decreases k,
{
    if k <= 0 {
        Seq::empty()
    } else {
        obj_verts(ms, k - 1) + obj_model_verts(ms[k - 1].0)
    }
}

/// Indices of the first `k` sub-models: each sub-model's indices offset by
/// the vertex count accumulated before it.
pub open spec fn obj_indices(ms: Seq<(Seq<u32>, Seq<u32>, Seq<u32>)>, k: int) -> Seq<u32>
    decreases k,
{
    if k <= 0 {
        Seq::empty()
    } else {
        let off = obj_verts(ms, k - 1).len() as int;
        obj_indices(ms, k - 1) + ms[k - 1].2.map_values(|j: u32| ((j as int + off) as u32))
    }
}

/// A sub-model lacking a full normal set (no normals for some or all of
/// its vertices, or no vertices at all): it triggers synthesis over the
/// whole accumulated state.
pub open spec fn obj_lacking(m: (Seq<u32>, Seq<u32>, Seq<u32>)) -> bool {
    m.1.len() != m.0.len() || m.0.len() == 0
}

/// Normals after the first `k` sub-models: a sub-model with a full normal
/// set appends it; one lacking normals replaces the whole array with
/// smooth normals synthesized from everything accumulated so far.
pub open spec fn obj_normals(ms: Seq<(Seq<u32>, Seq<u32>, Seq<u32>)>, k: int) -> Seq<Vec3Bits>
    decreases k,
{
    if k <= 0 {
        Seq::empty()
    } else if obj_lacking(ms[k - 1]) {
        smooth_normals(obj_verts(ms, k), obj_indices(ms, k))
    } else {
        obj_normals(ms, k - 1) + obj_model_verts(ms[k - 1].1)
    }
}

/// The accumulated vertex count never shrinks as sub-models are added.
pub proof fn lemma_obj_verts_len_grows(ms: Seq<(Seq<u32>, Seq<u32>, Seq<u32>)>, k1: int, k2: int)
    requires
        0 <= k1 <= k2,
    ensures
        obj_verts(ms, k1).len() <= obj_verts(ms, k2).len(),
    decreases k2,
{
    if k2 > k1 {
        lemma_obj_verts_len_grows(ms, k1, k2 - 1);
    }
}

/// The contract of STL loading: how the result relates to what the STL
/// decoder yields for the input bytes.
pub open spec fn stl_load_spec(data: Seq<u8>, recalc: bool, r: Result<Mesh, MeshError>) -> bool {
    match stl_parse(data) {
        Err(m) => match r {
            Err(MeshError::Io(msg)) => msg@ == m,
            _ => false,
        },
        Ok(p) => {
            let mverts = stl_vertices(p.0, p.1);
            if p.1.len() == 0 {
                r == Err::<Mesh, MeshError>(MeshError::EmptyMesh)
            } else if p.1.len() > MAX_TRIANGLES {
                match r {
                    Err(MeshError::InvalidStl(_)) => true,
                    _ => false,
                }
            } else if degenerate_bounds(bounds_of(mverts)) {
                r == Err::<Mesh, MeshError>(MeshError::DegenerateBounds)
            } else {
                match r {
                    Ok(m) => m.vertices@ == mverts && m.indices@ == seq_indices(
                        3 * p.1.len() as int,
                    ) && m.normals@ == stl_normals(p.0, p.1, recalc) && m.wf(),
                    _ => false,
                }
            }
        },
    }
}

/// The contract of OBJ loading: how the result relates to what the OBJ
/// loader yields for the input bytes.
pub open spec fn obj_load_spec(data: Seq<u8>, r: Result<Mesh, MeshError>) -> bool {
    match obj_parse(data) {
        Err(m) => match r {
            Err(MeshError::Obj(msg)) => msg@ == m,
            _ => false,
        },
        Ok(p) => {
            let n = p.len() as int;
            if p.len() == 0 || p[0].0.len() < 3 {
                r == Err::<Mesh, MeshError>(MeshError::EmptyMesh)
            } else if obj_verts(p, n).len() > u32::MAX {
                match r {
                    Err(MeshError::InvalidObj(_)) => true,
                    _ => false,
                }
            } else if obj_indices(p, n).len() == 0 {
                r == Err::<Mesh, MeshError>(MeshError::EmptyMesh)
            } else if degenerate_bounds(bounds_of(obj_verts(p, n))) {
                r == Err::<Mesh, MeshError>(MeshError::DegenerateBounds)
            } else {
                match r {
                    Ok(m) => m.vertices@ == obj_verts(p, n) && m.indices@ == obj_indices(p, n)
                        && m.normals@ == obj_normals(p, n) && m.wf(),
                    _ => false,
                }
            }
        },
    }
}

impl Mesh {
    /// Load a mesh from STL bytes (binary or ASCII).
    ///
    /// Each face becomes three fresh vertices with sequential indices.
    /// Stored face normals are replicated onto their corners; if
    /// `recalc_normals` is set, or any face stores a zero normal, smooth
    /// normals are synthesized from the whole geometry instead, keeping the
    /// normal array parallel to the vertex array.
    ///
    /// Errors: the decoder's own failure (`Io`), zero faces (`EmptyMesh`),
    /// more faces than 32-bit indices can address (`InvalidStl`), or a
    /// bounding box with zero extent on all axes (`DegenerateBounds`).
    pub fn from_stl(data: &[u8], recalc_normals: bool) -> (r: Result<Mesh, MeshError>)
        ensures
            stl_load_spec(data@, recalc_normals, r),
    {
        let (verts, faces) = match read_stl_data(data) {
            Ok(q) => q,
            Err(e) => {
                return Err(MeshError::Io(e));
            },
        };
        let nfaces = faces.len();
        if nfaces == 0 {
            return Err(MeshError::EmptyMesh);
        }
        if nfaces > MAX_TRIANGLES {
            return Err(MeshError::InvalidStl("too many triangles for 32-bit indices".to_owned()));
        }

        let seed = verts[faces[0].a];
        let ghost seed_box = BoundingBox { min: seed, max: seed };
        let mut bounds = BoundingBox::new(seed);
        let mut mverts: Vec<Vec3Bits> = Vec::new();
        let mut i: usize = 0;
        while i < nfaces
            invariant
                0 <= i <= nfaces,
                nfaces == faces@.len(),
                nfaces <= MAX_TRIANGLES,
                forall|k: int|
                    0 <= k < faces@.len() ==> faces@[k].a < verts@.len() && faces@[k].b
                        < verts@.len() && faces@[k].c < verts@.len(),
                mverts@.len() == 3 * i,
                forall|k: int| 0 <= k < 3 * i ==> mverts@[k] == stl_corner(verts@, faces@, k),
                bounds == bb_fold(seed_box, mverts@, 3 * i as int),
            decreases nfaces - i,
        {
            let f = faces[i];
            let va = verts[f.a];
            let vb = verts[f.b];
            let vc = verts[f.c];
            proof {
                lemma_bb_fold_push(seed_box, mverts@, va);
            }
            mverts.push(va);
            bounds.expand(va);
            proof {
                lemma_bb_fold_push(seed_box, mverts@, vb);
            }
            mverts.push(vb);
            bounds.expand(vb);
            proof {
                lemma_bb_fold_push(seed_box, mverts@, vc);
            }
            mverts.push(vc);
            bounds.expand(vc);
            proof {
                assert forall|k: int| 0 <= k < 3 * (i + 1) implies mverts@[k] == stl_corner(
                    verts@,
                    faces@,
                    k,
                ) by {
                    if k >= 3 * i {
                        assert(k / 3 == i && (k == 3 * i + k % 3)) by (nonlinear_arith)
                            requires 3 * i <= k < 3 * (i + 1);
                    }
                }
            }
            i = i + 1;
        }
        proof {
            assert(mverts@ =~= stl_vertices(verts@, faces@));
            assert(mverts@[0] == stl_corner(verts@, faces@, 0));
            assert(bounds == bounds_of(mverts@));
        }

        if bounds_are_degenerate(&bounds) {
            return Err(MeshError::DegenerateBounds);
        }

        let total: usize = 3 * nfaces;
        let mut indices: Vec<u32> = Vec::new();
        let mut j: usize = 0;
        while j < total
            invariant
                0 <= j <= total,
                total == 3 * nfaces,
                nfaces <= MAX_TRIANGLES,
                indices@.len() == j,
                forall|k: int| 0 <= k < j ==> indices@[k] == k as u32,
            decreases total - j,
        {
            indices.push(j as u32);
            j = j + 1;
        }
        proof {
            assert(indices@ =~= seq_indices(3 * faces@.len() as int));
        }

        let mut all_kept = true;
        let mut t: usize = 0;
        while t < nfaces
            invariant
                0 <= t <= nfaces,
                nfaces == faces@.len(),
                all_kept ==> forall|k: int|
                    0 <= k < t ==> stl_face_kept(faces@[k], recalc_normals),
                !all_kept ==> !all_faces_kept(faces@, recalc_normals),
            decreases nfaces - t,
        {
            if recalc_normals || vec3_is_zero(&faces[t].normal) {
                proof {
                    assert(!stl_face_kept(faces@[t as int], recalc_normals));
                }
                all_kept = false;
            }
            t = t + 1;
        }
        proof {
            assert(all_kept == all_faces_kept(faces@, recalc_normals));
        }

        let mut mesh = Mesh { vertices: mverts, normals: Vec::new(), indices, bounds };
        if all_kept {
            let mut normals: Vec<Vec3Bits> = Vec::new();
            let mut u: usize = 0;
            while u < nfaces
                invariant
                    0 <= u <= nfaces,
                    nfaces == faces@.len(),
                    normals@.len() == 3 * u,
                    forall|k: int| 0 <= k < 3 * u ==> normals@[k] == faces@[k / 3].normal,
                decreases nfaces - u,
            {
                let n = faces[u].normal;
                normals.push(n);
                normals.push(n);
                normals.push(n);
                proof {
                    assert forall|k: int| 3 * u <= k < 3 * (u + 1) implies normals@[k]
                        == faces@[k / 3].normal by {
                        assert(k / 3 == u) by (nonlinear_arith)
                            requires 3 * u <= k < 3 * (u + 1);
                    }
                }
                u = u + 1;
            }
            proof {
                assert(normals@ =~= stl_normals(verts@, faces@, recalc_normals));
            }
            mesh.normals = normals;
        } else {
            proof {
                assert(forall|k: int|
                    0 <= k < mesh.indices@.len() ==> (mesh.indices@[k] as int)
                        < mesh.vertices@.len());
            }
            mesh.compute_smooth_normals();
        }
        proof {
            assert(mesh.wf());
        }
        Ok(mesh)
    }

    /// Load a mesh from OBJ bytes.
    ///
    /// Sub-models are concatenated into one mesh, each sub-model's indices
    /// offset by the vertex count accumulated before it.  A sub-model with
    /// a full normal set contributes its stored normals; one lacking them
    /// triggers smooth-normal synthesis over everything accumulated so far
    /// (each run recomputes from the full current state, so repeats are
    /// idempotent and the normal array stays parallel to the vertices).
    /// Normal handling is driven by the per-sub-model normal sets, so the
    /// recalculation flag is unused here.
    ///
    /// Errors: the loader's own failure (`Obj`); no sub-models, no
    /// vertices, or no triangles (`EmptyMesh`); an accumulated vertex
    /// count beyond the 32-bit index range (`InvalidObj`); or a bounding
    /// box with zero extent on all axes (`DegenerateBounds`).
    #[verifier::rlimit(100)]
    #[verifier::spinoff_prover]
    pub fn from_obj(data: &[u8], _recalc_normals: bool) -> (r: Result<Mesh, MeshError>)
        ensures
            obj_load_spec(data@, r),
    {
        let models = match read_obj_data(data) {
            Ok(ms) => ms,
            Err(e) => {
                return Err(MeshError::Obj(e));
            },
        };
        let ghost p = obj_parse(data@)->Ok_0;
        proof {
            assert forall|i: int| 0 <= i < p.len() implies p[i].0.len() % 3 == 0 && p[i].1.len()
                % 3 == 0 && p[i].2.len() % 3 == 0 by {
                assert(models@[i].positions@ == p[i].0 && models@[i].normals@ == p[i].1
                    && models@[i].indices@ == p[i].2);
            }
            assert forall|i: int, j: int|
                0 <= i < p.len() && 0 <= j < p[i].2.len() implies 3 * (p[i].2[j] as int) + 2
                < p[i].0.len() by {
                assert(models@[i].positions@ == p[i].0 && models@[i].indices@ == p[i].2);
            }
        }
        let nmodels = models.len();
        if nmodels == 0 {
            return Err(MeshError::EmptyMesh);
        }
        if models[0].positions.len() < 3 {
            return Err(MeshError::EmptyMesh);
        }

        let seed = Vec3Bits {
            x: models[0].positions[0],
            y: models[0].positions[1],
            z: models[0].positions[2],
        };
        let ghost seed_box = BoundingBox { min: seed, max: seed };
        let mut mesh = Mesh {
            vertices: Vec::new(),
            normals: Vec::new(),
            indices: Vec::new(),
            bounds: BoundingBox::new(seed),
        };
        let mut k: usize = 0;
        while k < nmodels
            invariant
                0 <= k <= nmodels,
                obj_parse(data@) == Ok::<Seq<(Seq<u32>, Seq<u32>, Seq<u32>)>, Seq<char>>(p),
                nmodels == models@.len(),
                models@.len() == p.len(),
                forall|i: int|
                    0 <= i < p.len() ==> models@[i].positions@ == p[i].0 && models@[i].normals@
                        == p[i].1 && models@[i].indices@ == p[i].2,
                forall|i: int|
                    0 <= i < p.len() ==> p[i].0.len() % 3 == 0 && p[i].1.len() % 3 == 0
                        && p[i].2.len() % 3 == 0,
                forall|i: int, j: int|
                    0 <= i < p.len() && 0 <= j < p[i].2.len() ==> 3 * (p[i].2[j] as int) + 2
                        < p[i].0.len(),
                p.len() > 0 && p[0].0.len() >= 3,
                seed == (Vec3Bits { x: p[0].0[0], y: p[0].0[1], z: p[0].0[2] }),
                mesh.vertices@ == obj_verts(p, k as int),
                mesh.indices@ == obj_indices(p, k as int),
                mesh.normals@ == obj_normals(p, k as int),
                mesh.normals@.len() == mesh.vertices@.len(),
                mesh.vertices@.len() <= u32::MAX,
                mesh.indices@.len() % 3 == 0,
                forall|i: int|
                    0 <= i < mesh.indices@.len() ==> (mesh.indices@[i] as int)
                        < mesh.vertices@.len(),
                mesh.bounds == bb_fold(seed_box, mesh.vertices@, mesh.vertices@.len() as int),
                mesh.vertices@.len() == 0 || mesh.vertices@[0] == seed,
                k > 0 ==> mesh.vertices@.len() > 0,
            decreases nmodels - k,
        {
            let add = models[k].positions.len() / 3;
            proof {
                assert(obj_model_verts(p[k as int].0).len() == add);
            }
            if add > u32::MAX as usize || mesh.vertices.len() > u32::MAX as usize - add {
                proof {
                    assert(obj_verts(p, k as int + 1).len() == mesh.vertices@.len() + add);
                    lemma_obj_verts_len_grows(p, k as int + 1, p.len() as int);
                }
                return Err(
                    MeshError::InvalidObj("vertex count exceeds 32-bit index range".to_owned()),
                );
            }

            let off: u32 = mesh.vertices.len() as u32;
            let ghost idx0 = mesh.indices@;
            let ghost ilen0 = mesh.indices@.len() as int;
            let nidx = models[k].indices.len();
            let mut j: usize = 0;
            while j < nidx
                invariant
                    0 <= j <= nidx,
                    k < nmodels,
                    nmodels == models@.len(),
                    models@.len() == p.len(),
                    forall|i: int|
                        0 <= i < p.len() ==> models@[i].positions@ == p[i].0
                            && models@[i].normals@ == p[i].1 && models@[i].indices@ == p[i].2,
                    forall|i2: int, j2: int|
                        0 <= i2 < p.len() && 0 <= j2 < p[i2].2.len() ==> 3 * (
                        p[i2].2[j2] as int) + 2 < p[i2].0.len(),
                    nidx == p[k as int].2.len(),
                    p[k as int].0.len() % 3 == 0,
                    off as int == obj_verts(p, k as int).len(),
                    off as int + (p[k as int].0.len() as int / 3) <= u32::MAX,
                    idx0 == obj_indices(p, k as int),
                    ilen0 == idx0.len() as int,
                    mesh.indices@.len() == ilen0 + j,
                    forall|i: int| 0 <= i < ilen0 ==> mesh.indices@[i] == idx0[i],
                    forall|i: int|
                        0 <= i < j ==> mesh.indices@[ilen0 + i] == (((p[k as int].2[i] as int)
                            + off as int) as u32),
                    mesh.vertices@ == obj_verts(p, k as int),
                    mesh.normals@ == obj_normals(p, k as int),
                    mesh.bounds == bb_fold(seed_box, mesh.vertices@, mesh.vertices@.len() as int),
                decreases nidx - j,
            {
                proof {
                    assert(3 * (p[k as int].2[j as int] as int) + 2 < p[k as int].0.len());
                }
                let idx = models[k].indices[j];
                mesh.indices.push(idx + off);
                j = j + 1;
            }
            proof {
                assert(obj_indices(p, k as int + 1).len() == ilen0 + nidx);
                assert(mesh.indices@ =~= obj_indices(p, k as int + 1));
            }

            let ghost v0 = mesh.vertices@;
            let nv0 = mesh.vertices.len();
            let mut v: usize = 0;
            while v < add
                invariant
                    0 <= v <= add,
                    k < nmodels,
                    nmodels == models@.len(),
                    models@.len() == p.len(),
                    forall|i: int|
                        0 <= i < p.len() ==> models@[i].positions@ == p[i].0
                            && models@[i].normals@ == p[i].1 && models@[i].indices@ == p[i].2,
                    p.len() > 0 && p[0].0.len() >= 3,
                    seed == (Vec3Bits { x: p[0].0[0], y: p[0].0[1], z: p[0].0[2] }),
                    add == p[k as int].0.len() / 3,
                    p[k as int].0.len() % 3 == 0,
                    nv0 as int == obj_verts(p, k as int).len(),
                    v0 == obj_verts(p, k as int),
                    nv0 as int + add <= u32::MAX,
                    p[k as int].0.len() <= usize::MAX,
                    k > 0 ==> nv0 > 0,
                    mesh.vertices@.len() == nv0 + v,
                    forall|i: int| 0 <= i < nv0 ==> mesh.vertices@[i] == v0[i],
                    forall|i: int|
                        0 <= i < v ==> mesh.vertices@[nv0 + i] == obj_model_verts(
                            p[k as int].0,
                        )[i],
                    mesh.bounds == bb_fold(seed_box, mesh.vertices@, mesh.vertices@.len() as int),
                    mesh.vertices@.len() == 0 || mesh.vertices@[0] == seed,
                    mesh.indices@ == obj_indices(p, k as int + 1),
                    mesh.normals@ == obj_normals(p, k as int),
                decreases add - v,
            {
                let base = 3 * v;
                let x = models[k].positions[base];
                let y = models[k].positions[base + 1];
                let z = models[k].positions[base + 2];
                let vert = Vec3Bits { x, y, z };
                proof {
                    assert(vert == obj_model_verts(p[k as int].0)[v as int]);
                    lemma_bb_fold_push(seed_box, mesh.vertices@, vert);
                }
                mesh.vertices.push(vert);
                mesh.bounds.expand(vert);
                v = v + 1;
            }
            proof {
                assert(mesh.vertices@ =~= obj_verts(p, k as int + 1));
                assert forall|i: int| 0 <= i < mesh.indices@.len() implies (
                mesh.indices@[i] as int) < mesh.vertices@.len() by {
                    if i < ilen0 {
                        assert(mesh.indices@[i] == idx0[i]);
                        assert((idx0[i] as int) < v0.len());
                    } else {
                        assert(mesh.indices@[i] == (((p[k as int].2[i - ilen0] as int)
                            + off as int) as u32));
                        assert(3 * (p[k as int].2[i - ilen0] as int) + 2 < p[k as int].0.len());
                    }
                }
            }

            if models[k].normals.len() != models[k].positions.len() || models[k].positions.len()
                == 0 {
                proof {
                    assert(obj_lacking(p[k as int]));
                }
                mesh.compute_smooth_normals();
                proof {
                    assert(mesh.normals@ == obj_normals(p, k as int + 1));
                }
            } else {
                proof {
                    assert(!obj_lacking(p[k as int]));
                    assert(obj_model_verts(p[k as int].1).len() == add);
                }
                let ghost n0 = mesh.normals@;
                let nn0 = mesh.normals.len();
                let mut w: usize = 0;
                while w < add
                    invariant
                        0 <= w <= add,
                        k < nmodels,
                        nmodels == models@.len(),
                        models@.len() == p.len(),
                        forall|i: int|
                            0 <= i < p.len() ==> models@[i].positions@ == p[i].0
                                && models@[i].normals@ == p[i].1 && models@[i].indices@
                                == p[i].2,
                        add == p[k as int].1.len() / 3,
                        p[k as int].1.len() % 3 == 0,
                        p[k as int].1.len() <= usize::MAX,
                        n0 == obj_normals(p, k as int),
                        nn0 == n0.len(),
                        mesh.normals@.len() == nn0 + w,
                        forall|i: int| 0 <= i < nn0 ==> mesh.normals@[i] == n0[i],
                        forall|i: int|
                            0 <= i < w ==> mesh.normals@[nn0 + i] == obj_model_verts(
                                p[k as int].1,
                            )[i],
                        mesh.vertices@ == obj_verts(p, k as int + 1),
                        mesh.indices@ == obj_indices(p, k as int + 1),
                        mesh.bounds == bb_fold(
                            seed_box,
                            mesh.vertices@,
                            mesh.vertices@.len() as int,
                        ),
                        mesh.vertices@.len() == 0 || mesh.vertices@[0] == seed,
                        forall|i: int|
                            0 <= i < mesh.indices@.len() ==> (mesh.indices@[i] as int)
                                < mesh.vertices@.len(),
                    decreases add - w,
                {
                    let base = 3 * w;
                    let nx = models[k].normals[base];
                    let ny = models[k].normals[base + 1];
                    let nz = models[k].normals[base + 2];
                    let norm = Vec3Bits { x: nx, y: ny, z: nz };
                    proof {
                        assert(norm == obj_model_verts(p[k as int].1)[w as int]);
                    }
                    mesh.normals.push(norm);
                    w = w + 1;
                }
                proof {
                    assert(mesh.normals@ =~= obj_normals(p, k as int + 1));
                }
            }
            k = k + 1;
        }

        if mesh.indices.len() == 0 {
            return Err(MeshError::EmptyMesh);
        }
        if bounds_are_degenerate(&mesh.bounds) {
            return Err(MeshError::DegenerateBounds);
        }
        proof {
            assert(mesh.bounds == bounds_of(mesh.vertices@));
            assert(mesh.wf());
        }
        Ok(mesh)
    }
}

/// One triangle of a 3MF mesh object: three references into the object's
/// own vertex list, straight from the document and not yet validated.
#[derive(Clone, Copy, PartialEq, Eq, Structural, Debug)]
pub struct MfTriangle {
    pub v1: usize,
    pub v2: usize,
    pub v3: usize,
}

/// One 3MF mesh object: its vertex list and its triangle list.
#[derive(Clone, Debug)]
pub struct MfObject {
    pub vertices: Vec<Vec3Bits>,
    pub triangles: Vec<MfTriangle>,
}

/// What the 3MF reader yields for given input bytes: the mesh objects of
/// all model documents, flattened in document order (`None` for an object
/// without mesh data), or the reader's error message.
pub uninterp spec fn threemf_parse(data: Seq<u8>) -> Result<
    Seq<Option<(Seq<Vec3Bits>, Seq<MfTriangle>)>>,
    Seq<char>,
>;

/// Relies on `threemf::read`: every `.model` document of the archive,
/// its objects flattened into one sequence in document order.  The result
/// depends on the bytes alone.  Coordinates are parsed as `f64` and
/// narrowed to single precision (as `glam::DVec3::as_vec3` does); triangle
/// indices come straight from the document, unvalidated.
#[verifier::external_body]
fn read_3mf_data(data: &[u8]) -> (r: Result<Vec<Option<MfObject>>, String>)
    ensures
        r matches Ok(os) ==> threemf_parse(data@) matches Ok(p) && os@.len() == p.len() && forall|
            i: int,
        |
            #![trigger p[i]]
            0 <= i < p.len() ==> (match (os@[i], p[i]) {
                (Some(ob), Some(t)) => ob.vertices@ == t.0 && ob.triangles@ == t.1,
                (None, None) => true,
                _ => false,
            }),
        r matches Err(e) ==> threemf_parse(data@) matches Err(m) && e@ == m,
{
    match threemf::read(std::io::Cursor::new(data)) {
        Ok(models) => Ok(models.iter().flat_map(|mo| mo.resources.object.iter().map(|o| {
            o.mesh.as_ref().map(|me| MfObject {
                vertices: me.vertices.vertex.iter().map(|v| vec3_from_array(
                    bytemuck::cast(glam::DVec3::new(v.x, v.y, v.z).as_vec3()),
                )).collect(),
                triangles: me.triangles.triangle.iter().map(|t| MfTriangle { v1: t.v1, v2: t.v2, v3: t.v3 }).collect(),
            })
        })).collect()),
        Err(e) => Err(format!("{e}")),
    }
}

/// The expanded corner stream of one mesh object: three fresh corners per
/// triangle, in triangle order.
pub open spec fn mf_object_verts(ob: (Seq<Vec3Bits>, Seq<MfTriangle>)) -> Seq<Vec3Bits> {
    Seq::new(
        3 * ob.1.len(),
        |i: int|
            {
                let t = ob.1[i / 3];
                if i % 3 == 0 {
                    ob.0[t.v1 as int]
                } else if i % 3 == 1 {
                    ob.0[t.v2 as int]
                } else {
                    ob.0[t.v3 as int]
                }
            },
    )
}

/// All corners of the first `k` flattened objects, concatenated.
pub open spec fn mf_verts(os: Seq<Option<(Seq<Vec3Bits>, Seq<MfTriangle>)>>, k: int) -> Seq<
    Vec3Bits,
>
    decreases k,
{
    if k <= 0 {
        Seq::empty()
    } else {
        mf_verts(os, k - 1) + (match os[k - 1] {
            Some(ob) => mf_object_verts(ob),
            None => Seq::empty(),
        })
    }
}

/// The triangle count of the first `k` flattened objects.
pub open spec fn mf_tri_total(os: Seq<Option<(Seq<Vec3Bits>, Seq<MfTriangle>)>>, k: int) -> int
    decreases k,
{
    if k <= 0 {
        0
    } else {
        mf_tri_total(os, k - 1) + (match os[k - 1] {
            Some(ob) => ob.1.len() as int,
            None => 0,
        })
    }
}

/// An object whose triangles all reference its own vertex list.
pub open spec fn mf_object_ok(ob: (Seq<Vec3Bits>, Seq<MfTriangle>)) -> bool {
    forall|i: int|
        0 <= i < ob.1.len() ==> (ob.1[i].v1 as int) < ob.0.len() && (ob.1[i].v2 as int)
            < ob.0.len() && (ob.1[i].v3 as int) < ob.0.len()
}

/// Every object's triangles are in range.
pub open spec fn mf_all_ok(os: Seq<Option<(Seq<Vec3Bits>, Seq<MfTriangle>)>>) -> bool {
    forall|i: int|
        #![trigger os[i]]
        0 <= i < os.len() ==> (match os[i] {
            Some(ob) => mf_object_ok(ob),
            None => true,
        })
}

/// Three corners per triangle: the corner count is three times the
/// triangle count.
pub proof fn lemma_mf_verts_len(os: Seq<Option<(Seq<Vec3Bits>, Seq<MfTriangle>)>>, k: int)
    ensures
        mf_verts(os, k).len() == 3 * mf_tri_total(os, k),
    decreases k,
{
    if k > 0 {
        lemma_mf_verts_len(os, k - 1);
    }
}

/// The triangle count never shrinks as objects are added.
pub proof fn lemma_mf_tri_total_grows(
    os: Seq<Option<(Seq<Vec3Bits>, Seq<MfTriangle>)>>,
    k1: int,
    k2: int,
)
    requires
        0 <= k1 <= k2,
    ensures
        mf_tri_total(os, k1) <= mf_tri_total(os, k2),
    decreases k2,
{
    if k2 > k1 {
        lemma_mf_tri_total_grows(os, k1, k2 - 1);
    }
}

/// The contract of 3MF loading: how the result relates to what the 3MF
/// reader yields for the input bytes.
pub open spec fn threemf_load_spec(data: Seq<u8>, r: Result<Mesh, MeshError>) -> bool {
    match threemf_parse(data) {
        Err(m) => match r {
            Err(MeshError::Threemf(msg)) => msg@ == m,
            _ => false,
        },
        Ok(p) => {
            let n = p.len() as int;
            if !(mf_all_ok(p) && mf_tri_total(p, n) <= MAX_TRIANGLES) {
                match r {
                    Err(MeshError::InvalidThreemf(_)) => true,
                    _ => false,
                }
            } else if mf_tri_total(p, n) == 0 {
                r == Err::<Mesh, MeshError>(MeshError::NoMeshData)
            } else if degenerate_bounds(bounds_of(mf_verts(p, n))) {
                r == Err::<Mesh, MeshError>(MeshError::DegenerateBounds)
            } else {
                match r {
                    Ok(m) => m.vertices@ == mf_verts(p, n) && m.indices@ == seq_indices(
                        3 * mf_tri_total(p, n),
                    ) && m.normals@ == smooth_normals(m.vertices@, m.indices@) && m.wf(),
                    _ => false,
                }
            }
        },
    }
}

impl Mesh {
    /// Load a mesh from 3MF bytes (a zip archive of model documents).
    ///
    /// Every triangle of every mesh object is expanded into three fresh
    /// vertices with sequential indices, objects concatenated in document
    /// order.  3MF carries no normals, so smooth normals are synthesized
    /// from the full expanded geometry; the recalculation flag changes
    /// nothing and is unused.
    ///
    /// Errors: the reader's own failure (`Threemf`); a triangle
    /// referencing a missing vertex, or more triangles than 32-bit indices
    /// can address (`InvalidThreemf`); no triangles in any object
    /// (`NoMeshData`); or a bounding box with zero extent on all axes
    /// (`DegenerateBounds`).
    pub fn from_3mf(data: &[u8], _recalc_normals: bool) -> (r: Result<Mesh, MeshError>)
        ensures
            threemf_load_spec(data@, r),
    {
        let objs = match read_3mf_data(data) {
            Ok(o) => o,
            Err(e) => {
                return Err(MeshError::Threemf(e));
            },
        };
        let ghost p = threemf_parse(data@)->Ok_0;
        let nobjs = objs.len();

        let mut total: usize = 0;
        let mut k: usize = 0;
        while k < nobjs
            invariant
                0 <= k <= nobjs,
                threemf_parse(data@) == Ok::<
                    Seq<Option<(Seq<Vec3Bits>, Seq<MfTriangle>)>>,
                    Seq<char>,
                >(p),
                nobjs == objs@.len(),
                objs@.len() == p.len(),
                forall|i: int|
                    #![trigger p[i]]
                    0 <= i < p.len() ==> (match (objs@[i], p[i]) {
                        (Some(ob), Some(t)) => ob.vertices@ == t.0 && ob.triangles@ == t.1,
                        (None, None) => true,
                        _ => false,
                    }),
                total as int == mf_tri_total(p, k as int),
                total <= MAX_TRIANGLES,
                forall|i: int|
                    #![trigger p[i]]
                    0 <= i < k ==> (match p[i] {
                        Some(ob) => mf_object_ok(ob),
                        None => true,
                    }),
            decreases nobjs - k,
        {
            match &objs[k] {
                Some(ob) => {
                    let nv = ob.vertices.len();
                    let ntr = ob.triangles.len();
                    let mut t: usize = 0;
                    while t < ntr
                        invariant
                            0 <= t <= ntr,
                            threemf_parse(data@) == Ok::<
                                Seq<Option<(Seq<Vec3Bits>, Seq<MfTriangle>)>>,
                                Seq<char>,
                            >(p),
                            k < objs@.len(),
                            objs@.len() == p.len(),
                            objs@[k as int] matches Some(obv) && obv == *ob,
                            p[k as int] matches Some(pp) && pp.0 == ob.vertices@ && pp.1
                                == ob.triangles@,
                            ntr == ob.triangles@.len(),
                            nv == ob.vertices@.len(),
                            forall|i: int|
                                0 <= i < t ==> (ob.triangles@[i].v1 as int) < nv && (
                                ob.triangles@[i].v2 as int) < nv && (ob.triangles@[i].v3 as int)
                                    < nv,
                        decreases ntr - t,
                    {
                        let tri = ob.triangles[t];
                        if tri.v1 >= nv || tri.v2 >= nv || tri.v3 >= nv {
                            proof {
                                assert((objs@[k as int], p[k as int]) matches (
                                Some(oo),
                                Some(pp),
                                ) && oo.vertices@ == pp.0 && oo.triangles@ == pp.1);
                                assert(!mf_all_ok(p));
                            }
                            return Err(
                                MeshError::InvalidThreemf(
                                    "triangle references a missing vertex".to_owned(),
                                ),
                            );
                        }
                        t = t + 1;
                    }
                    if ntr > MAX_TRIANGLES - total {
                        proof {
                            assert((objs@[k as int], p[k as int]) matches (Some(oo), Some(pp))
                                && oo.triangles@ == pp.1);
                            assert(mf_tri_total(p, k as int + 1) > MAX_TRIANGLES);
                            lemma_mf_tri_total_grows(p, k as int + 1, p.len() as int);
                        }
                        return Err(
                            MeshError::InvalidThreemf(
                                "too many triangles for 32-bit indices".to_owned(),
                            ),
                        );
                    }
                    proof {
                        assert((objs@[k as int], p[k as int]) matches (Some(oo), Some(pp))
                            && oo.vertices@ == pp.0 && oo.triangles@ == pp.1);
                    }
                    total = total + ntr;
                },
                None => {
                    proof {
                        assert(p[k as int] matches None);
                    }
                },
            }
            k = k + 1;
        }
        proof {
            assert(mf_all_ok(p));
        }

        if total == 0 {
            return Err(MeshError::NoMeshData);
        }

        let mut verts: Vec<Vec3Bits> = Vec::new();
        let mut bounds = BoundingBox::new(Vec3Bits { x: 0, y: 0, z: 0 });
        let mut k: usize = 0;
        while k < nobjs
            invariant
                0 <= k <= nobjs,
                nobjs == objs@.len(),
                objs@.len() == p.len(),
                forall|i: int|
                    #![trigger p[i]]
                    0 <= i < p.len() ==> (match (objs@[i], p[i]) {
                        (Some(ob), Some(t)) => ob.vertices@ == t.0 && ob.triangles@ == t.1,
                        (None, None) => true,
                        _ => false,
                    }),
                mf_all_ok(p),
                mf_tri_total(p, p.len() as int) <= MAX_TRIANGLES,
                verts@ == mf_verts(p, k as int),
                verts@.len() == 3 * mf_tri_total(p, k as int),
                verts@.len() > 0 ==> bounds == bb_fold(
                    BoundingBox { min: verts@[0], max: verts@[0] },
                    verts@,
                    verts@.len() as int,
                ),
            decreases nobjs - k,
        {
            match &objs[k] {
                Some(ob) => {
                    let ghost obspec = p[k as int]->Some_0;
                    let ghost vbase = verts@;
                    let base = verts.len();
                    let ntr = ob.triangles.len();
                    proof {
                        assert(mf_tri_total(p, k as int + 1) == mf_tri_total(p, k as int)
                            + ntr as int);
                        lemma_mf_tri_total_grows(p, k as int + 1, p.len() as int);
                    }
                    let mut t: usize = 0;
                    while t < ntr
                        invariant
                            0 <= t <= ntr,
                            k < objs@.len(),
                            objs@[k as int] matches Some(obv) && obv == *ob,
                            p[k as int] matches Some(pv) && pv == obspec,
                            ob.vertices@ == obspec.0,
                            ob.triangles@ == obspec.1,
                            ntr == obspec.1.len(),
                            mf_object_ok(obspec),
                            vbase == mf_verts(p, k as int),
                            base == vbase.len(),
                            base + 3 * ntr <= usize::MAX,
                            verts@.len() == base + 3 * t,
                            forall|i: int| 0 <= i < base ==> verts@[i] == vbase[i],
                            forall|i: int|
                                0 <= i < 3 * t ==> verts@[base + i] == mf_object_verts(obspec)[i],
                            verts@.len() > 0 ==> bounds == bb_fold(
                                BoundingBox { min: verts@[0], max: verts@[0] },
                                verts@,
                                verts@.len() as int,
                            ),
                        decreases ntr - t,
                    {
                        let tri = ob.triangles[t];
                        let ca = ob.vertices[tri.v1];
                        let cb = ob.vertices[tri.v2];
                        let cc = ob.vertices[tri.v3];
                        push_corner(&mut verts, &mut bounds, ca);
                        push_corner(&mut verts, &mut bounds, cb);
                        push_corner(&mut verts, &mut bounds, cc);
                        proof {
                            assert forall|i: int|
                                3 * t <= i < 3 * (t + 1) implies verts@[base + i]
                                == mf_object_verts(obspec)[i] by {
                                assert(i / 3 == t && i == 3 * t + i % 3) by (nonlinear_arith)
                                    requires
                                        3 * t <= i < 3 * (t + 1),
                                ;
                            }
                        }
                        t = t + 1;
                    }
                    proof {
                        assert(verts@ =~= mf_verts(p, k as int + 1));
                        assert(mf_tri_total(p, k as int + 1) == mf_tri_total(p, k as int)
                            + ntr as int);
                    }
                },
                None => {
                    proof {
                        assert(p[k as int] matches None);
                        assert(verts@ =~= mf_verts(p, k as int + 1));
                        assert(mf_tri_total(p, k as int + 1) == mf_tri_total(p, k as int));
                    }
                },
            }
            k = k + 1;
        }
        proof {
            lemma_mf_verts_len(p, p.len() as int);
            assert(verts@.len() == 3 * total);
            assert(bounds == bounds_of(verts@));
        }

        if bounds_are_degenerate(&bounds) {
            return Err(MeshError::DegenerateBounds);
        }

        let tcount = 3 * total;
        let mut indices: Vec<u32> = Vec::new();
        let mut j: usize = 0;
        while j < tcount
            invariant
                0 <= j <= tcount,
                tcount <= 3 * MAX_TRIANGLES,
                indices@.len() == j,
                forall|i: int| 0 <= i < j ==> indices@[i] == i as u32,
            decreases tcount - j,
        {
            indices.push(j as u32);
            j = j + 1;
        }
        proof {
            assert(indices@ =~= seq_indices(3 * mf_tri_total(p, p.len() as int)));
        }

        let mut mesh = Mesh { vertices: verts, normals: Vec::new(), indices, bounds };
        proof {
            assert(forall|i: int|
                0 <= i < mesh.indices@.len() ==> (mesh.indices@[i] as int)
                    < mesh.vertices@.len());
        }
        mesh.compute_smooth_normals();
        proof {
            assert(mesh.wf());
        }
        Ok(mesh)
    }
}

/// Append one vertex and grow the bounding box, seeding the box from the
/// first vertex appended: the box stays the fold of all vertices so far.
fn push_corner(verts: &mut Vec<Vec3Bits>, bounds: &mut BoundingBox, v: Vec3Bits)
    requires
        old(verts)@.len() > 0 ==> *old(bounds) == bb_fold(
            BoundingBox { min: old(verts)@[0], max: old(verts)@[0] },
            old(verts)@,
            old(verts)@.len() as int,
        ),
    ensures
        final(verts)@ == old(verts)@.push(v),
        *final(bounds) == bb_fold(
            BoundingBox { min: final(verts)@[0], max: final(verts)@[0] },
            final(verts)@,
            final(verts)@.len() as int,
        ),
{
    if verts.len() == 0 {
        *bounds = BoundingBox::new(v);
    }
    proof {
        if verts@.len() > 0 {
            lemma_bb_fold_push(BoundingBox { min: verts@[0], max: verts@[0] }, verts@, v);
        } else {
            let s1 = verts@.push(v);
            assert(bb_fold(BoundingBox { min: v, max: v }, s1, 0) == (BoundingBox {
                min: v,
                max: v,
            }));
            assert(s1[0] == v);
            assert(bb_fold(BoundingBox { min: v, max: v }, s1, 1) == bb_expand(
                bb_fold(BoundingBox { min: v, max: v }, s1, 0),
                s1[0],
            ));
        }
    }
    bounds.expand(v);
    verts.push(v);
}

/// Which loader a file name selects.
#[derive(Clone, Copy, PartialEq, Eq, Structural, Debug)]
pub enum ModelFormat {
    Stl,
    Obj,
    ThreeMf,
}

/// The position of the last occurrence of `c` in `s`, or `-1`.
pub open spec fn last_pos(s: Seq<u8>, c: u8) -> int
    decreases s.len(),
{
    if s.len() == 0 {
        -1
    } else if s[s.len() - 1] == c {
        s.len() - 1
    } else {
        last_pos(s.drop_last(), c)
    }
}

/// `last_pos` finds an occurrence with nothing equal after it, or reports
/// that none exists.
pub proof fn lemma_last_pos(s: Seq<u8>, c: u8)
    ensures
        -1 <= last_pos(s, c) < s.len(),
        last_pos(s, c) >= 0 ==> s[last_pos(s, c)] == c,
        forall|j: int| last_pos(s, c) < j < s.len() ==> s[j] != c,
    decreases s.len(),
{
    if s.len() > 0 && s[s.len() - 1] != c {
        lemma_last_pos(s.drop_last(), c);
        assert forall|j: int| last_pos(s, c) < j < s.len() implies s[j] != c by {
            if j < s.len() - 1 {
                assert(s.drop_last()[j] == s[j]);
            }
        }
    }
}

/// ASCII lowercasing of one byte.
pub open spec fn ascii_lower(b: u8) -> u8 {
    if 65 <= b && b <= 90 {
        (b + 32) as u8
    } else {
        b
    }
}

/// The extension of a file name, as `Path::extension` reads it for the
/// supported names: the bytes after the last `.` of the last `/`-separated
/// component, unless that component starts with the `.` or has none.
pub open spec fn ext_of(name: Seq<u8>) -> Option<Seq<u8>> {
    let start = last_pos(name, 47) + 1;
    let dot = last_pos(name, 46);
    if dot <= start {
        None
    } else {
        Some(name.subrange(dot + 1, name.len() as int))
    }
}

/// The format a file name selects: `-` (a buffered stream) is read as STL;
/// otherwise the extension, ASCII-lowercased, picks the loader.
pub open spec fn format_of(name: Seq<u8>) -> Option<ModelFormat> {
    if name == seq![45u8] {
        Some(ModelFormat::Stl)
    } else {
        match ext_of(name) {
            None => None,
            Some(e) => {
                let l = e.map_values(|b: u8| ascii_lower(b));
                if l == seq![115u8, 116u8, 108u8] {
                    Some(ModelFormat::Stl)
                } else if l == seq![111u8, 98u8, 106u8] {
                    Some(ModelFormat::Obj)
                } else if l == seq![51u8, 109u8, 102u8] {
                    Some(ModelFormat::ThreeMf)
                } else {
                    None
                }
            },
        }
    }
}

/// Backward scan for the last occurrence of a byte.
fn last_byte_pos(s: &[u8], c: u8) -> (r: Option<usize>)
    ensures
        r matches Some(i) ==> i < s@.len() && last_pos(s@, c) == i as int,
        r matches None ==> last_pos(s@, c) == -1,
{
    let n = s.len();
    let mut i = n;
    while i > 0
        invariant
            i <= n,
            n == s@.len(),
            forall|j: int| i <= j < s@.len() ==> s@[j] != c,
        decreases i,
    {
        i = i - 1;
        if s[i] == c {
            proof {
                lemma_last_pos(s@, c);
            }
            return Some(i);
        }
    }
    proof {
        lemma_last_pos(s@, c);
    }
    None
}

/// ASCII lowercasing of one byte.
pub(crate) fn lower_byte(b: u8) -> (r: u8)
    ensures
        r == ascii_lower(b),
{
    if 65 <= b && b <= 90 {
        b + 32
    } else {
        b
    }
}

/// The runtime counterpart of [`format_of`].
pub fn match_model_format(name: &[u8]) -> (r: Option<ModelFormat>)
    ensures
        r == format_of(name@),
{
    if name.len() == 1 && name[0] == 45 {
        proof {
            assert(name@ =~= seq![45u8]);
        }
        return Some(ModelFormat::Stl);
    }
    proof {
        assert(name@ != seq![45u8]);
    }
    let start = match last_byte_pos(name, 47) {
        Some(i) => i + 1,
        None => 0,
    };
    let dot = match last_byte_pos(name, 46) {
        Some(i) => i,
        None => {
            return None;
        },
    };
    if dot < start || dot == start {
        return None;
    }
    let ghost e = name@.subrange(dot + 1, name@.len() as int);
    let elen = name.len() - (dot + 1);
    if elen != 3 {
        proof {
            assert(e.map_values(|b: u8| ascii_lower(b)).len() == e.len());
        }
        return None;
    }
    let b0 = lower_byte(name[dot + 1]);
    let b1 = lower_byte(name[dot + 2]);
    let b2 = lower_byte(name[dot + 3]);
    proof {
        let l = e.map_values(|b: u8| ascii_lower(b));
        assert(l.len() == 3);
        assert(l[0] == ascii_lower(name@[dot as int + 1]));
        assert(l[1] == ascii_lower(name@[dot as int + 2]));
        assert(l[2] == ascii_lower(name@[dot as int + 3]));
    }
    if b0 == 115 && b1 == 116 && b2 == 108 {
        proof {
            assert(e.map_values(|b: u8| ascii_lower(b)) =~= seq![115u8, 116u8, 108u8]);
        }
        Some(ModelFormat::Stl)
    } else if b0 == 111 && b1 == 98 && b2 == 106 {
        proof {
            assert(e.map_values(|b: u8| ascii_lower(b)) =~= seq![111u8, 98u8, 106u8]);
        }
        Some(ModelFormat::Obj)
    } else if b0 == 51 && b1 == 109 && b2 == 102 {
        proof {
            assert(e.map_values(|b: u8| ascii_lower(b)) =~= seq![51u8, 109u8, 102u8]);
        }
        Some(ModelFormat::ThreeMf)
    } else {
        proof {
            let l = e.map_values(|b: u8| ascii_lower(b));
            assert(l != seq![115u8, 116u8, 108u8] && l != seq![111u8, 98u8, 106u8] && l != seq![
                51u8,
                109u8,
                102u8,
            ]) by {
                if l == seq![115u8, 116u8, 108u8] || l == seq![111u8, 98u8, 106u8] || l == seq![
                    51u8,
                    109u8,
                    102u8,
                ] {
                    assert(false);
                }
            }
        }
        None
    }
}

impl Mesh {
    /// Load a mesh from already-buffered model bytes, choosing the parser
    /// by the file name: `-` (a buffered stream) is decoded as STL, else
    /// the extension — `stl`, `obj` or `3mf`, ASCII case-insensitive —
    /// selects the loader, and any other name is rejected as an
    /// unsupported format.
    pub fn load(model_filename: &str, data: &[u8], recalc_normals: bool) -> (r: Result<
        Mesh,
        MeshError,
    >)
        ensures
            format_of(model_filename.spec_bytes()) matches None ==> r == Err::<Mesh, MeshError>(
                MeshError::UnsupportedFormat,
            ),
            format_of(model_filename.spec_bytes()) matches Some(f) ==> (match f {
                ModelFormat::Stl => stl_load_spec(data@, recalc_normals, r),
                ModelFormat::Obj => obj_load_spec(data@, r),
                ModelFormat::ThreeMf => threemf_load_spec(data@, r),
            }),
            r matches Ok(m) ==> m.wf(),
    {
        let name = model_filename.as_bytes();
        match match_model_format(name) {
            Some(ModelFormat::Stl) => Mesh::from_stl(data, recalc_normals),
            Some(ModelFormat::Obj) => Mesh::from_obj(data, recalc_normals),
            Some(ModelFormat::ThreeMf) => Mesh::from_3mf(data, recalc_normals),
            None => Err(MeshError::UnsupportedFormat),
        }
    }
}

} // verus!
