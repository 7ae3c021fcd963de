//! Per-frame data: buffer packing, readback layout, row compaction, the
//! camera matrices and the uniform block constants.

use stl_thumb::error::RenderError;
use stl_thumb::linalg::Vec3Bits;
use stl_thumb::mesh::{BoundingBox, Mesh};
use stl_thumb::render::{
    compact_rows, index_count, modelview_matrix, output_len, pack_u32s, pack_vec3s,
    padded_bytes_per_row, projection_matrix, readback_buffer_len, view_matrix, RenderOptions,
};
use stl_thumb::shader::{frag_uniform_data, FragUniformBlock, VertUniformBlock};
use stl_thumb::utils::{html_to_rgba, match_format, parse_size, parse_u16, ImageKind};

fn v3(x: f32, y: f32, z: f32) -> Vec3Bits {
    Vec3Bits {
        x: x.to_bits(),
        y: y.to_bits(),
        z: z.to_bits(),
    }
}

fn options(width: u16, height: u16, sample_count: u32) -> RenderOptions {
    RenderOptions {
        width,
        height,
        cam_fov_deg: 45.0f32.to_bits(),
        cam_position: v3(2.0, -4.0, 2.0),
        sample_count,
        recalc_normals: false,
        background: (255, 255, 255, 0),
    }
}

fn unit_tetrahedron() -> Mesh {
    Mesh {
        vertices: vec![v3(0.0, 0.0, 0.0), v3(1.0, 0.0, 0.0), v3(0.0, 1.0, 0.0), v3(0.0, 0.0, 1.0)],
        normals: vec![v3(0.0, 0.0, 1.0); 4],
        indices: vec![0, 1, 2, 0, 1, 3, 0, 2, 3, 1, 2, 3],
        bounds: BoundingBox { min: v3(0.0, 0.0, 0.0), max: v3(1.0, 1.0, 1.0) },
    }
}

#[test]
fn padded_stride_rounds_up_to_256() {
    assert_eq!(padded_bytes_per_row(64), 256);
    assert_eq!(padded_bytes_per_row(63), 256);
    assert_eq!(padded_bytes_per_row(65), 512);
    assert_eq!(padded_bytes_per_row(100), 512);
    assert_eq!(padded_bytes_per_row(1024), 4096);
}

#[test]
fn output_is_width_height_rgba() {
    // The finished image is always width * height * 4 bytes; the thumbnail
    // case of a 64 x 64 render is exactly 16384.
    assert_eq!(output_len(64, 64), 16384);
    assert_eq!(output_len(1024, 1024), 4 * 1024 * 1024);
    assert_eq!(readback_buffer_len(64, 64), 256 * 64);
    assert_eq!(readback_buffer_len(100, 2), 512 * 2);
}

#[test]
fn output_size_ignores_sample_count() {
    // The multisample count changes render targets, never the readback
    // image size: both paths produce width * height * 4 bytes.
    let one = options(64, 64, 1);
    let four = options(64, 64, 4);
    assert_eq!(output_len(one.width, one.height), output_len(four.width, four.height));
    assert_eq!(
        readback_buffer_len(one.width, one.height),
        readback_buffer_len(four.width, four.height)
    );
}

#[test]
fn compact_rows_strips_padding() {
    // Two rows of one texel each: stride 256, tight width 4.
    let mut data = vec![0u8; 512];
    data[0..4].copy_from_slice(&[1, 2, 3, 4]);
    data[256..260].copy_from_slice(&[5, 6, 7, 8]);
    data[10] = 99; // padding bytes must not leak into the image
    let out = compact_rows(&data, 1, 2);
    assert_eq!(out, vec![1, 2, 3, 4, 5, 6, 7, 8]);
}

#[test]
fn compact_rows_is_identity_without_padding() {
    // A 64-texel row is already 256 bytes: compaction copies it verbatim.
    let data: Vec<u8> = (0..512u32).map(|i| (i % 251) as u8).collect();
    let out = compact_rows(&data, 64, 2);
    assert_eq!(out, data);
}

#[test]
fn index_count_checks_range() {
    let mesh = unit_tetrahedron();
    assert_eq!(index_count(&mesh), Ok(12));
}

#[test]
fn packed_buffers_are_little_endian() {
    let vs = vec![v3(1.0, -2.0, 0.5)];
    let bytes = pack_vec3s(&vs);
    let mut expected = Vec::new();
    expected.extend(1.0f32.to_bits().to_le_bytes());
    expected.extend((-2.0f32).to_bits().to_le_bytes());
    expected.extend(0.5f32.to_bits().to_le_bytes());
    assert_eq!(bytes, expected);

    let is = vec![1u32, 0x01020304];
    let mut expected = Vec::new();
    expected.extend(1u32.to_le_bytes());
    expected.extend(0x01020304u32.to_le_bytes());
    assert_eq!(pack_u32s(&is), expected);
}

#[test]
fn view_matrix_matches_glam() {
    let opts = options(64, 64, 1);
    let m = view_matrix(&opts);
    let expected = glam::camera::rh::view::look_at_mat4(
        glam::Vec3::new(2.0, -4.0, 2.0),
        glam::Vec3::ZERO,
        glam::Vec3::Z,
    );
    assert_eq!(m.m, expected.to_cols_array().map(f32::to_bits));
}

#[test]
fn projection_matrix_matches_glam() {
    let opts = options(640, 480, 1);
    let m = projection_matrix(&opts);
    let expected = glam::camera::rh::proj::opengl::perspective(
        45.0f32.to_radians(),
        640.0 / 480.0,
        0.1,
        1024.0,
    );
    assert_eq!(m.m, expected.to_cols_array().map(f32::to_bits));
}

#[test]
fn modelview_composes_view_and_framing() {
    let opts = options(64, 64, 1);
    let mesh = unit_tetrahedron();
    let mv = modelview_matrix(&mesh, &opts);
    let view = glam::Mat4::from_cols_array(&view_matrix(&opts).m.map(f32::from_bits));
    let model = glam::Mat4::from_cols_array(&mesh.scale_and_center().m.map(f32::from_bits));
    let expected = view * model;
    assert_eq!(mv.m, expected.to_cols_array().map(f32::to_bits));
}

#[test]
fn vert_uniform_block_layout() {
    let opts = options(64, 64, 1);
    let mesh = unit_tetrahedron();
    let block = VertUniformBlock {
        perspective: projection_matrix(&opts),
        modelview: modelview_matrix(&mesh, &opts),
    };
    let bytes = block.bytes();
    assert_eq!(bytes.len(), 128);
    for (i, col) in block.perspective.m.iter().enumerate() {
        assert_eq!(&bytes[4 * i..4 * i + 4], col.to_le_bytes());
    }
    for (i, col) in block.modelview.m.iter().enumerate() {
        assert_eq!(&bytes[64 + 4 * i..64 + 4 * i + 4], col.to_le_bytes());
    }
}

#[test]
fn frag_uniform_block_layout_and_constants() {
    let block = frag_uniform_data();
    // The fixed lighting constants are exactly these decimals as f32.
    assert_eq!(f32::from_bits(block.light_direction.x), -1.1);
    assert_eq!(f32::from_bits(block.light_direction.y), 0.4);
    assert_eq!(f32::from_bits(block.light_direction.z), 1.0);
    assert_eq!(f32::from_bits(block.ambient_color.x), 0.0);
    assert_eq!(f32::from_bits(block.ambient_color.y), 0.13);
    assert_eq!(f32::from_bits(block.ambient_color.z), 0.26);
    assert_eq!(f32::from_bits(block.diffuse_color.x), 0.38);
    assert_eq!(f32::from_bits(block.diffuse_color.y), 0.63);
    assert_eq!(f32::from_bits(block.diffuse_color.z), 1.0);
    assert_eq!(f32::from_bits(block.specular_color.x), 1.0);

    let bytes = block.bytes();
    assert_eq!(bytes.len(), 64);
    // Each vector is followed by four zero padding bytes.
    for base in [12usize, 28, 44, 60] {
        assert_eq!(&bytes[base..base + 4], &[0, 0, 0, 0]);
    }
    assert_eq!(&bytes[0..4], block.light_direction.x.to_le_bytes());
    assert_eq!(&bytes[16..20], block.ambient_color.x.to_le_bytes());
    assert_eq!(&bytes[32..36], block.diffuse_color.x.to_le_bytes());
    assert_eq!(&bytes[48..52], block.specular_color.x.to_le_bytes());
}

#[test]
fn frag_block_new_keeps_fields() {
    let l = v3(1.0, 2.0, 3.0);
    let a = v3(0.1, 0.2, 0.3);
    let d = v3(0.4, 0.5, 0.6);
    let s = v3(0.7, 0.8, 0.9);
    let block = FragUniformBlock::new(l, a, d, s);
    assert_eq!(block.light_direction, l);
    assert_eq!(block.ambient_color, a);
    assert_eq!(block.diffuse_color, d);
    assert_eq!(block.specular_color, s);
}

#[test]
fn match_format_is_case_insensitive() {
    assert_eq!(match_format("jpeg"), ImageKind::Jpeg);
    assert_eq!(match_format("JPeG"), ImageKind::Jpeg);
    assert_eq!(match_format("jpg"), ImageKind::Jpeg);
    assert_eq!(match_format("gif"), ImageKind::Gif);
    assert_eq!(match_format("ICO"), ImageKind::Ico);
    assert_eq!(match_format("bmp"), ImageKind::Bmp);
    assert_eq!(match_format("png"), ImageKind::Png);
    assert_eq!(match_format("webp"), ImageKind::Png);
    assert_eq!(match_format(""), ImageKind::Png);
}

#[test]
fn html_color_decodes() {
    assert_eq!(html_to_rgba("ff00CC80"), (255, 0, 204, 128));
    assert_eq!(html_to_rgba("00000000"), (0, 0, 0, 0));
    assert_eq!(html_to_rgba("FFFFFFFF"), (255, 255, 255, 255));
}

#[test]
fn render_error_descriptions() {
    assert_eq!(RenderError::Wgpu("no adapter".to_owned()).describe(), "no adapter");
    assert_eq!(RenderError::RenderError("map failed".to_owned()).describe(), "map failed");
}

#[test]
fn size_argument_parses() {
    assert_eq!(parse_u16(b"0"), Some(0));
    assert_eq!(parse_u16(b"65535"), Some(65535));
    assert_eq!(parse_u16(b"65536"), None);
    assert_eq!(parse_u16(b"+123"), Some(123));
    assert_eq!(parse_u16(b""), None);
    assert_eq!(parse_u16(b"+"), None);
    assert_eq!(parse_u16(b"12a"), None);
    assert_eq!(parse_size("512"), Some((512, 512)));
    assert_eq!(parse_size("640x480"), Some((640, 480)));
    assert_eq!(parse_size("1x1"), Some((1, 1)));
    assert_eq!(parse_size("x480"), None);
    assert_eq!(parse_size("640x"), None);
    assert_eq!(parse_size("ax480"), None);
    assert_eq!(parse_size(""), None);
}
