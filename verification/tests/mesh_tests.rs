//! Loading, normal synthesis and framing: the mesh pipeline end to end on
//! concrete STL, OBJ and 3MF inputs.

use stl_thumb::error::MeshError;
use stl_thumb::linalg::Vec3Bits;
use stl_thumb::mesh::{BoundingBox, Mesh};

fn v3(x: f32, y: f32, z: f32) -> Vec3Bits {
    Vec3Bits {
        x: x.to_bits(),
        y: y.to_bits(),
        z: z.to_bits(),
    }
}

fn to_glam(v: Vec3Bits) -> glam::Vec3 {
    glam::Vec3::new(f32::from_bits(v.x), f32::from_bits(v.y), f32::from_bits(v.z))
}

/// A binary STL from (normal, three corners) triples.
fn stl_bytes(tris: &[([f32; 3], [[f32; 3]; 3])]) -> Vec<u8> {
    let mut out = vec![0u8; 80];
    out.extend((tris.len() as u32).to_le_bytes());
    for (n, corners) in tris {
        for c in n {
            out.extend(c.to_le_bytes());
        }
        for corner in corners {
            for c in corner {
                out.extend(c.to_le_bytes());
            }
        }
        out.extend([0u8, 0u8]);
    }
    out
}

/// The twelve triangles of the unit cube, with explicit outward normals.
fn cube_tris() -> Vec<([f32; 3], [[f32; 3]; 3])> {
    let quads: [([f32; 3], [[f32; 3]; 3], [f32; 3]); 6] = [
        // (normal, [origin, edge1 corner, edge2 corner], far corner)
        ([0.0, 0.0, -1.0], [[0.0, 0.0, 0.0], [0.0, 1.0, 0.0], [1.0, 0.0, 0.0]], [1.0, 1.0, 0.0]),
        ([0.0, 0.0, 1.0], [[0.0, 0.0, 1.0], [1.0, 0.0, 1.0], [0.0, 1.0, 1.0]], [1.0, 1.0, 1.0]),
        ([0.0, -1.0, 0.0], [[0.0, 0.0, 0.0], [1.0, 0.0, 0.0], [0.0, 0.0, 1.0]], [1.0, 0.0, 1.0]),
        ([0.0, 1.0, 0.0], [[0.0, 1.0, 0.0], [0.0, 1.0, 1.0], [1.0, 1.0, 0.0]], [1.0, 1.0, 1.0]),
        ([-1.0, 0.0, 0.0], [[0.0, 0.0, 0.0], [0.0, 0.0, 1.0], [0.0, 1.0, 0.0]], [0.0, 1.0, 1.0]),
        ([1.0, 0.0, 0.0], [[1.0, 0.0, 0.0], [1.0, 1.0, 0.0], [1.0, 0.0, 1.0]], [1.0, 1.0, 1.0]),
    ];
    let mut tris = Vec::new();
    for (n, [a, b, c], far) in quads {
        tris.push((n, [a, b, c]));
        tris.push((n, [c, b, far]));
    }
    tris
}

#[test]
fn cube_stl_loads_with_stored_normals() {
    let data = stl_bytes(&cube_tris());
    let mesh = Mesh::from_stl(&data, false).expect("cube should load");
    // Parallel arrays, index multiple of three, all indices in range.
    assert_eq!(mesh.vertices.len(), 36);
    assert_eq!(mesh.normals.len(), 36);
    assert_eq!(mesh.indices.len(), 36);
    assert_eq!(mesh.indices.len() % 3, 0);
    for &i in &mesh.indices {
        assert!((i as usize) < mesh.vertices.len());
    }
    // Sequential indices, non-shared corners.
    for (i, &idx) in mesh.indices.iter().enumerate() {
        assert_eq!(idx as usize, i);
    }
    // Stored normals replicated onto each face's three corners.
    for (f, (n, _)) in cube_tris().iter().enumerate() {
        for j in 0..3 {
            assert_eq!(mesh.normals[3 * f + j], v3(n[0], n[1], n[2]));
        }
    }
    // Bounding box grown over every vertex.
    assert_eq!(mesh.bounds.min, v3(0.0, 0.0, 0.0));
    assert_eq!(mesh.bounds.max, v3(1.0, 1.0, 1.0));
}

#[test]
fn zero_face_stl_is_empty_mesh() {
    let data = stl_bytes(&[]);
    match Mesh::from_stl(&data, false) {
        Err(MeshError::EmptyMesh) => {}
        other => panic!("expected EmptyMesh, got {other:?}"),
    }
}

#[test]
fn recalc_normals_matches_float_kernel() {
    // One triangle, recalculated: the synthesized normal must equal the
    // glam computation bit for bit (the wrappers do real work).
    let a = [0.0f32, 0.0, 0.0];
    let b = [1.0f32, 0.0, 0.0];
    let c = [0.0f32, 1.0, 0.0];
    let data = stl_bytes(&[([0.0, 0.0, 1.0], [a, b, c])]);
    let mesh = Mesh::from_stl(&data, true).expect("triangle should load");
    let ga = glam::Vec3::from_array(a);
    let gb = glam::Vec3::from_array(b);
    let gc = glam::Vec3::from_array(c);
    let face = (gb - ga).cross(gc - ga).normalize();
    let expected = face.normalize_or_zero();
    for n in &mesh.normals {
        assert_eq!(to_glam(*n).to_array().map(f32::to_bits), expected.to_array().map(f32::to_bits));
    }
}

#[test]
fn zero_stored_normal_triggers_synthesis() {
    // A zero stored normal defers to synthesis for the whole mesh.
    let a = [0.0f32, 0.0, 0.0];
    let b = [1.0f32, 0.0, 0.0];
    let c = [0.0f32, 1.0, 0.0];
    let stored = Mesh::from_stl(&stl_bytes(&[([0.0, 0.0, 0.0], [a, b, c])]), false).unwrap();
    let recalc = Mesh::from_stl(&stl_bytes(&[([0.0, 0.0, 1.0], [a, b, c])]), true).unwrap();
    assert_eq!(stored.normals, recalc.normals);
    assert!(to_glam(stored.normals[0]).length() > 0.9);
}

#[test]
fn smooth_normals_deterministic() {
    // Identical input arrays give bit-identical normals across runs.
    let data = stl_bytes(&cube_tris());
    let mut first = Mesh::from_stl(&data, true).unwrap();
    let mut second = Mesh::from_stl(&data, true).unwrap();
    assert_eq!(first.normals, second.normals);
    first.compute_smooth_normals();
    second.compute_smooth_normals();
    assert_eq!(first.normals, second.normals);
}

#[test]
fn synthesis_is_idempotent() {
    let data = stl_bytes(&cube_tris());
    let mut mesh = Mesh::from_stl(&data, true).unwrap();
    let once = mesh.normals.clone();
    mesh.compute_smooth_normals();
    assert_eq!(mesh.normals, once);
}

#[test]
fn unreferenced_vertex_gets_exact_zero_normal() {
    let verts = vec![v3(0.0, 0.0, 0.0), v3(1.0, 0.0, 0.0), v3(0.0, 1.0, 0.0), v3(5.0, 5.0, 5.0)];
    let mut mesh = Mesh {
        vertices: verts.clone(),
        normals: Vec::new(),
        indices: vec![0, 1, 2],
        bounds: BoundingBox { min: v3(0.0, 0.0, 0.0), max: v3(5.0, 5.0, 5.0) },
    };
    mesh.compute_smooth_normals();
    assert_eq!(mesh.normals.len(), 4);
    // The isolated vertex's normal is the exact zero vector: never NaN.
    assert_eq!(mesh.normals[3], Vec3Bits { x: 0, y: 0, z: 0 });
    assert!(!f32::from_bits(mesh.normals[3].x).is_nan());
    assert_eq!(to_glam(mesh.normals[3]).length(), 0.0);
}

#[test]
fn degenerate_triangle_gets_exact_zero_normal() {
    // A zero-area triangle has a NaN face normal; the accumulator still
    // normalizes to the exact zero vector, never NaN.
    let a = v3(1.0, 1.0, 1.0);
    let b = v3(2.0, 2.0, 2.0);
    let mut mesh = Mesh {
        vertices: vec![a, a, b],
        normals: Vec::new(),
        indices: vec![0, 1, 2],
        bounds: BoundingBox { min: a, max: b },
    };
    mesh.compute_smooth_normals();
    for n in &mesh.normals {
        assert_eq!(*n, Vec3Bits { x: 0, y: 0, z: 0 });
        assert!(!f32::from_bits(n.x).is_nan());
    }
}

#[test]
fn scale_and_center_frames_the_box() {
    let mesh = Mesh::from_stl(&stl_bytes(&cube_tris()), false).unwrap();
    let m = mesh.scale_and_center();
    let mat = glam::Mat4::from_cols_array(&m.m.map(f32::from_bits));
    // The box corners map to a box centered at the origin whose longest
    // axis spans exactly [-1, 1] within float tolerance.
    let lo = mat.transform_point3(to_glam(mesh.bounds.min));
    let hi = mat.transform_point3(to_glam(mesh.bounds.max));
    let center = (lo + hi) * 0.5;
    let extent = hi - lo;
    assert!(center.length() < 1e-6);
    let longest = extent.x.max(extent.y).max(extent.z);
    assert!((longest - 2.0).abs() < 1e-6);
    // And the whole matrix equals the composition computed with glam.
    let gc = (to_glam(mesh.bounds.min) + to_glam(mesh.bounds.max)) * 0.5;
    let ge = to_glam(mesh.bounds.max) - to_glam(mesh.bounds.min);
    let scale = 2.0 / ge.x.max(ge.y.max(ge.z));
    let expected =
        glam::Mat4::from_scale(glam::Vec3::new(scale, scale, scale)) * glam::Mat4::from_translation(-gc);
    assert_eq!(m.m, expected.to_cols_array().map(f32::to_bits));
}

#[test]
fn bounding_box_center_is_midpoint() {
    let b = BoundingBox { min: v3(-2.0, 0.0, 4.0), max: v3(6.0, 2.0, 8.0) };
    assert_eq!(b.center(), v3(2.0, 1.0, 6.0));
}

#[test]
fn one_point_stl_has_degenerate_bounds() {
    let p = [3.0f32, 3.0, 3.0];
    let data = stl_bytes(&[([0.0, 0.0, 1.0], [p, p, p])]);
    match Mesh::from_stl(&data, false) {
        Err(MeshError::DegenerateBounds) => {}
        other => panic!("expected DegenerateBounds, got {other:?}"),
    }
}

fn cube_obj_text() -> &'static str {
    "v 0 0 0\nv 1 0 0\nv 1 1 0\nv 0 1 0\nv 0 0 1\nv 1 0 1\nv 1 1 1\nv 0 1 1\n\
     f 1 4 2\nf 2 4 3\n\
     f 5 6 8\nf 6 7 8\n\
     f 1 2 5\nf 2 6 5\n\
     f 4 8 3\nf 3 8 7\n\
     f 1 5 4\nf 4 5 8\n\
     f 2 3 6\nf 3 7 6\n"
}

#[test]
fn cube_obj_without_normals_synthesizes() {
    let mesh = Mesh::from_obj(cube_obj_text().as_bytes(), false).expect("cube should load");
    assert_eq!(mesh.vertices.len(), 8);
    assert_eq!(mesh.indices.len(), 36);
    assert_eq!(mesh.normals.len(), mesh.vertices.len());
    for &i in &mesh.indices {
        assert!((i as usize) < mesh.vertices.len());
    }
    // Every synthesized cube-corner normal is unit length (three faces
    // meet at each corner and their sum normalizes cleanly).
    for n in &mesh.normals {
        assert!((to_glam(*n).length() - 1.0).abs() < 1e-5);
    }
    assert_eq!(mesh.bounds.min, v3(0.0, 0.0, 0.0));
    assert_eq!(mesh.bounds.max, v3(1.0, 1.0, 1.0));
}

#[test]
fn obj_sub_objects_offset_indices() {
    let text = "o first\nv 0 0 0\nv 1 0 0\nv 0 1 0\nf 1 2 3\n\
                o second\nv 0 0 2\nv 1 0 2\nv 0 1 2\nf 1 2 3\n";
    let mesh = Mesh::from_obj(text.as_bytes(), false).expect("two objects should load");
    assert_eq!(mesh.vertices.len(), 6);
    assert_eq!(mesh.indices, vec![0, 1, 2, 3, 4, 5]);
    assert_eq!(mesh.normals.len(), 6);
}

#[test]
fn empty_obj_is_empty_mesh() {
    match Mesh::from_obj(b"", false) {
        Err(MeshError::EmptyMesh) => {}
        other => panic!("expected EmptyMesh, got {other:?}"),
    }
}

#[test]
fn obj_with_stored_normals_keeps_them() {
    let text = "v 0 0 0\nv 1 0 0\nv 0 1 0\nvn 0 0 1\nf 1//1 2//1 3//1\n";
    let mesh = Mesh::from_obj(text.as_bytes(), false).unwrap();
    assert_eq!(mesh.normals.len(), 3);
    for n in &mesh.normals {
        assert_eq!(*n, v3(0.0, 0.0, 1.0));
    }
}

fn cube_3mf_bytes() -> Vec<u8> {
    let mut model = threemf::model::Model::default();
    let vertex = |x: f64, y: f64, z: f64| threemf::model::Vertex { x, y, z };
    let tri = |v1: usize, v2: usize, v3: usize| threemf::model::Triangle { v1, v2, v3 };
    let mesh = threemf::Mesh {
        vertices: threemf::model::Vertices {
            vertex: vec![
                vertex(0.0, 0.0, 0.0),
                vertex(1.0, 0.0, 0.0),
                vertex(1.0, 1.0, 0.0),
                vertex(0.0, 1.0, 0.0),
                vertex(0.0, 0.0, 1.0),
                vertex(1.0, 0.0, 1.0),
                vertex(1.0, 1.0, 1.0),
                vertex(0.0, 1.0, 1.0),
            ],
        },
        triangles: threemf::model::Triangles {
            triangle: vec![
                tri(0, 3, 1),
                tri(1, 3, 2),
                tri(4, 5, 7),
                tri(5, 6, 7),
                tri(0, 1, 4),
                tri(1, 5, 4),
                tri(3, 7, 2),
                tri(2, 7, 6),
                tri(0, 4, 3),
                tri(3, 4, 7),
                tri(1, 2, 5),
                tri(2, 6, 5),
            ],
        },
    };
    let mut object = threemf::model::Object::default();
    object.id = 1;
    object.mesh = Some(mesh);
    model.resources.object.push(object);
    let mut out = std::io::Cursor::new(Vec::new());
    threemf::write(&mut out, model).expect("3mf write");
    out.into_inner()
}

#[test]
fn cube_3mf_loads_and_synthesizes() {
    let data = cube_3mf_bytes();
    let mesh = Mesh::from_3mf(&data, false).expect("cube should load");
    // Every triangle expanded into three fresh vertices.
    assert_eq!(mesh.vertices.len(), 36);
    assert_eq!(mesh.normals.len(), 36);
    assert_eq!(mesh.indices.len(), 36);
    for (i, &idx) in mesh.indices.iter().enumerate() {
        assert_eq!(idx as usize, i);
    }
    // 3MF carries no normals: all synthesized, none zero for a cube.
    for n in &mesh.normals {
        assert!(to_glam(*n).length() > 0.5);
    }
    assert_eq!(mesh.bounds.min, v3(0.0, 0.0, 0.0));
    assert_eq!(mesh.bounds.max, v3(1.0, 1.0, 1.0));
}

#[test]
fn meshless_3mf_is_no_mesh_data() {
    let mut model = threemf::model::Model::default();
    let mut object = threemf::model::Object::default();
    object.id = 1;
    object.mesh = None;
    model.resources.object.push(object);
    let mut out = std::io::Cursor::new(Vec::new());
    threemf::write(&mut out, model).expect("3mf write");
    match Mesh::from_3mf(&out.into_inner(), false) {
        Err(MeshError::NoMeshData) => {}
        other => panic!("expected NoMeshData, got {other:?}"),
    }
}

#[test]
fn out_of_range_3mf_triangle_is_invalid() {
    let mut model = threemf::model::Model::default();
    let mesh = threemf::Mesh {
        vertices: threemf::model::Vertices {
            vertex: vec![
                threemf::model::Vertex { x: 0.0, y: 0.0, z: 0.0 },
                threemf::model::Vertex { x: 1.0, y: 0.0, z: 0.0 },
                threemf::model::Vertex { x: 0.0, y: 1.0, z: 0.0 },
            ],
        },
        triangles: threemf::model::Triangles { triangle: vec![threemf::model::Triangle { v1: 0, v2: 1, v3: 99 }] },
    };
    let mut object = threemf::model::Object::default();
    object.id = 1;
    object.mesh = Some(mesh);
    model.resources.object.push(object);
    let mut out = std::io::Cursor::new(Vec::new());
    threemf::write(&mut out, model).expect("3mf write");
    match Mesh::from_3mf(&out.into_inner(), false) {
        Err(MeshError::InvalidThreemf(_)) => {}
        other => panic!("expected InvalidThreemf, got {other:?}"),
    }
}

#[test]
fn load_dispatches_by_extension() {
    let stl = stl_bytes(&cube_tris());
    assert!(Mesh::load("model.stl", &stl, false).is_ok());
    assert!(Mesh::load("model.STL", &stl, false).is_ok());
    assert!(Mesh::load("dir/with.dots/model.sTl", &stl, false).is_ok());
    assert!(Mesh::load("-", &stl, false).is_ok());
    assert!(Mesh::load("model.obj", cube_obj_text().as_bytes(), false).is_ok());
    assert!(Mesh::load("model.3MF", &cube_3mf_bytes(), false).is_ok());
    match Mesh::load("model.xyz", &stl, false) {
        Err(MeshError::UnsupportedFormat) => {}
        other => panic!("expected UnsupportedFormat, got {other:?}"),
    }
    match Mesh::load("no_extension", &stl, false) {
        Err(MeshError::UnsupportedFormat) => {}
        other => panic!("expected UnsupportedFormat, got {other:?}"),
    }
    match Mesh::load(".stl", &stl, false) {
        Err(MeshError::UnsupportedFormat) => {}
        other => panic!("expected UnsupportedFormat (hidden file), got {other:?}"),
    }
}

#[test]
fn truncated_stl_reports_decoder_error() {
    let mut data = stl_bytes(&cube_tris());
    data.truncate(100);
    match Mesh::from_stl(&data, false) {
        Err(MeshError::Io(msg)) => assert!(!msg.is_empty()),
        other => panic!("expected Io, got {other:?}"),
    }
}

#[test]
fn error_descriptions() {
    assert_eq!(MeshError::EmptyMesh.describe(), "empty mesh");
    assert_eq!(MeshError::UnsupportedFormat.describe(), "unsupported model format");
    assert_eq!(MeshError::Io("bad stl".to_owned()).describe(), "bad stl");
}
