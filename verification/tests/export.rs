use echocad::base64::base64_encode;

#[test]
fn base64_roundtrip_matches_known_vectors() {
    // "Man" -> "TWFu", well-known base64 vector.
    assert_eq!(base64_encode(b"Man"), "TWFu");
    assert_eq!(base64_encode(b"Ma"), "TWE=");
    assert_eq!(base64_encode(b"M"), "TQ==");
    assert_eq!(base64_encode(b""), "");
    assert_eq!(base64_encode(&[0u8; 3]), "AAAA");
}

#[test]
fn base64_longer_inputs_and_high_bytes() {
    assert_eq!(base64_encode(b"hello world"), "aGVsbG8gd29ybGQ=");
    assert_eq!(base64_encode(&[0xffu8, 0xfe, 0xfd, 0xfc]), "//79/A==");
    assert_eq!(base64_encode(&[0xfbu8, 0xff]), "+/8=");
}

#[test]
fn base64_length_is_four_per_started_triple() {
    for n in 0..20usize {
        let bytes = vec![0x5au8; n];
        assert_eq!(base64_encode(&bytes).len(), (n + 2) / 3 * 4);
    }
}

use echocad::export::{gltf_buffer, gltf_layout, stl_binary, AccessorType};
use echocad::mesh::Mesh;

fn bits(v: &[f32]) -> Vec<u32> {
    v.iter().map(|x| x.to_bits()).collect()
}

fn quad_mesh() -> Mesh {
    Mesh {
        positions: bits(&[0.0, 0.0, 0.0, 1.0, 0.0, 0.0, 1.0, 1.0, 0.0, 0.0, 1.0, 0.0]),
        normals: bits(&[0.0, 0.0, 1.0, 0.0, 0.0, 1.0, 0.0, 0.0, 1.0, 0.0, 0.0, 1.0]),
        indices: vec![0, 1, 2, 0, 2, 3],
    }
}

fn empty_mesh() -> Mesh {
    Mesh { positions: Vec::new(), normals: Vec::new(), indices: Vec::new() }
}

/// Unit facet normals of the complete triangles, as `f32` bits.
fn facet_normals(mesh: &Mesh) -> Vec<u32> {
    let p = |i: u32, c: usize| f32::from_bits(mesh.positions[i as usize * 3 + c]);
    let mut out = Vec::new();
    for t in mesh.indices.chunks_exact(3) {
        let u = [p(t[1], 0) - p(t[0], 0), p(t[1], 1) - p(t[0], 1), p(t[1], 2) - p(t[0], 2)];
        let v = [p(t[2], 0) - p(t[0], 0), p(t[2], 1) - p(t[0], 1), p(t[2], 2) - p(t[0], 2)];
        let n = [u[1] * v[2] - u[2] * v[1], u[2] * v[0] - u[0] * v[2], u[0] * v[1] - u[1] * v[0]];
        let len = (n[0] * n[0] + n[1] * n[1] + n[2] * n[2]).sqrt();
        let n = if len > 0.0 { [n[0] / len, n[1] / len, n[2] / len] } else { [0.0, 0.0, 1.0] };
        out.extend(n.iter().map(|x| x.to_bits()));
    }
    out
}

#[test]
fn export_binary_stl_header_and_count() {
    let mesh = quad_mesh();
    let buf = stl_binary(&mesh, &facet_normals(&mesh));

    // 80-byte header + 4-byte count + 50 bytes per triangle.
    assert_eq!(buf.len(), 80 + 4 + 2 * 50);

    // Header carries our label and does not start with "solid".
    assert!(!buf.starts_with(b"solid"));
    assert_eq!(&buf[..7], b"EchoCAD");

    // Triangle count is the little-endian u32 immediately after the header.
    let count = u32::from_le_bytes(buf[80..84].try_into().unwrap());
    assert_eq!(count, 2);

    // First triangle's first vertex should read back as (0, 0, 0): the
    // normal (12B) sits at offset 84, then the three vertices (36B).
    let v0x = f32::from_le_bytes(buf[96..100].try_into().unwrap());
    let v0y = f32::from_le_bytes(buf[100..104].try_into().unwrap());
    let v0z = f32::from_le_bytes(buf[104..108].try_into().unwrap());
    assert!(v0x.abs() < 1e-5 && v0y.abs() < 1e-5 && v0z.abs() < 1e-5);
}

#[test]
fn export_binary_stl_empty_mesh_is_valid() {
    let mesh = empty_mesh();
    let buf = stl_binary(&mesh, &facet_normals(&mesh));
    // Header + zero triangle count, nothing more.
    assert_eq!(buf.len(), 84);
    let count = u32::from_le_bytes(buf[80..84].try_into().unwrap());
    assert_eq!(count, 0);
}

#[test]
fn export_binary_stl_drops_partial_triple() {
    // Five indices: two full triangles + one stray index. The stray must
    // be ignored, not panic.
    let mut mesh = quad_mesh();
    mesh.indices.push(7);
    let buf = stl_binary(&mesh, &facet_normals(&mesh));
    let count = u32::from_le_bytes(buf[80..84].try_into().unwrap());
    assert_eq!(count, 2);
}

#[test]
fn stl_facet_bytes_are_normal_vertices_and_zero_attribute() {
    let mesh = quad_mesh();
    let buf = stl_binary(&mesh, &facet_normals(&mesh));
    let f = |off: usize| f32::from_le_bytes(buf[off..off + 4].try_into().unwrap());
    // First facet: normal (0, 0, 1), vertices 0, 1, 2.
    assert_eq!((f(84), f(88), f(92)), (0.0, 0.0, 1.0));
    assert_eq!((f(108), f(112), f(116)), (1.0, 0.0, 0.0));
    assert_eq!((f(120), f(124), f(128)), (1.0, 1.0, 0.0));
    assert_eq!(&buf[132..134], &[0, 0]);
    // Second facet starts 50 bytes later with vertices 0, 2, 3.
    assert_eq!((f(134 + 12 + 24), f(134 + 12 + 28)), (0.0, 1.0));
    assert_eq!(&buf[182..184], &[0, 0]);
    assert_eq!(&buf[7..18], b" binary STL");
    assert!(buf[18..80].iter().all(|b| *b == 0));
}

#[test]
fn gltf_buffer_packs_positions_indices_then_normals() {
    let mesh = quad_mesh();
    let buf = gltf_buffer(&mesh);
    assert_eq!(buf.len(), 4 * (12 + 6 + 12));
    assert_eq!(&buf[12..16], &1.0f32.to_le_bytes());
    // Indices start after the 48 position bytes.
    let idx: Vec<u32> = buf[48..72].chunks(4).map(|c| u32::from_le_bytes(c.try_into().unwrap())).collect();
    assert_eq!(idx, vec![0, 1, 2, 0, 2, 3]);
    assert_eq!(&buf[72 + 8..72 + 12], &1.0f32.to_le_bytes());
}

#[test]
fn gltf_buffer_leaves_out_incomplete_normals() {
    let mut mesh = quad_mesh();
    mesh.normals.truncate(6);
    assert_eq!(gltf_buffer(&mesh).len(), 4 * (12 + 6));
    mesh.normals.clear();
    assert_eq!(gltf_buffer(&mesh).len(), 4 * (12 + 6));
    assert_eq!(gltf_buffer(&empty_mesh()).len(), 0);
}

#[test]
fn gltf_layout_of_quad_with_normals() {
    let l = gltf_layout(&quad_mesh());
    assert_eq!(l.views.len(), 3);
    assert_eq!(l.accessors.len(), 3);
    assert_eq!((l.views[0].byte_offset, l.views[0].byte_length, l.views[0].target), (0, 48, 34962));
    assert_eq!((l.views[1].byte_offset, l.views[1].byte_length, l.views[1].target), (48, 24, 34963));
    assert_eq!((l.views[2].byte_offset, l.views[2].byte_length, l.views[2].target), (72, 48, 34962));
    assert_eq!((l.accessors[0].component_type, l.accessors[0].count), (5126, 4));
    assert_eq!(l.accessors[0].kind, AccessorType::Vec3);
    assert_eq!((l.accessors[1].buffer_view, l.accessors[1].component_type, l.accessors[1].count), (1, 5125, 6));
    assert_eq!(l.accessors[1].kind, AccessorType::Scalar);
    assert_eq!((l.accessors[2].buffer_view, l.accessors[2].count), (2, 4));
    assert_eq!(l.indices, Some(1));
    assert_eq!(l.normal, Some(2));
}

#[test]
fn gltf_layout_without_indices_or_normals() {
    let mut mesh = quad_mesh();
    mesh.normals.clear();
    let l = gltf_layout(&mesh);
    assert_eq!(l.views.len(), 2);
    assert_eq!(l.normal, None);

    let l = gltf_layout(&empty_mesh());
    assert_eq!(l.views.len(), 1);
    assert_eq!((l.views[0].byte_offset, l.views[0].byte_length), (0, 0));
    assert_eq!(l.accessors[0].count, 0);
    assert_eq!(l.indices, None);
    assert_eq!(l.normal, None);

    let mut mesh = quad_mesh();
    mesh.indices.clear();
    let l = gltf_layout(&mesh);
    assert_eq!(l.views.len(), 2);
    assert_eq!(l.indices, None);
    assert_eq!(l.normal, Some(1));
    assert_eq!((l.views[1].byte_offset, l.views[1].byte_length), (48, 48));
}
