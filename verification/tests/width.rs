//! Triangle index width selection at the 65535/65536 boundary, and the
//! per-vertex stride: fixed by the settings register, with no padding.

use sia_codec::decode;

fn le32(v: u32) -> Vec<u8> {
    v.to_le_bytes().to_vec()
}

fn push_str32(out: &mut Vec<u8>, s: &[u8]) {
    out.extend_from_slice(&(s.len() as u32).to_le_bytes());
    out.extend_from_slice(s);
}

/// A one-mesh document with `n` position-only vertices and one triangle,
/// whose indices are 2 bytes each when `n <= 65535` and 4 bytes otherwise.
fn file_with_vertices(n: u32, wide: bool) -> Vec<u8> {
    let mut b: Vec<u8> = Vec::new();
    b.extend_from_slice(b"SHSM");
    b.extend_from_slice(&le32(1));
    push_str32(&mut b, b"w");
    b.extend_from_slice(&[0u8; 12]);
    b.extend_from_slice(&le32(0));
    for _ in 0..6 {
        b.extend_from_slice(&le32(0));
    }
    b.extend_from_slice(&le32(1));
    b.extend_from_slice(&le32(0));
    b.extend_from_slice(&le32(n)); // vertices
    b.extend_from_slice(&le32(0));
    b.extend_from_slice(&le32(3)); // one triangle
    b.extend_from_slice(&le32(1));
    b.extend_from_slice(&[0u8; 8]);
    b.extend_from_slice(&le32(1));
    b.extend_from_slice(&[0u8; 16]);
    push_str32(&mut b, b"m");
    b.push(0); // no materials
    b.extend_from_slice(&[0u8; 64]);
    b.extend_from_slice(&le32(n));
    b.extend_from_slice(&le32(1)); // position only
    b.extend_from_slice(&vec![0u8; n as usize * 12]);
    b.extend_from_slice(&le32(3));
    if wide {
        b.extend_from_slice(&le32(0));
        b.extend_from_slice(&le32(1));
        b.extend_from_slice(&le32(2));
    } else {
        b.extend_from_slice(&0u16.to_le_bytes());
        b.extend_from_slice(&1u16.to_le_bytes());
        b.extend_from_slice(&2u16.to_le_bytes());
    }
    b.extend_from_slice(&le32(0));
    b.extend_from_slice(&le32(0));
    b.push(0);
    b.extend_from_slice(&le32(0));
    b.extend_from_slice(b"EHSM");
    b
}

#[test]
fn boundary_total_uses_narrow_indices() {
    let bytes = file_with_vertices(65535, false);
    let doc = decode(&bytes).expect("65535 vertices with 2-byte indices should decode");
    assert_eq!(doc.vertices_total_num, 65535);
    assert_eq!(doc.meshes[0].triangles[0].2, 2);
    assert_eq!(doc.encode(), bytes);
}

#[test]
fn above_boundary_uses_wide_indices() {
    let bytes = file_with_vertices(65536, true);
    let doc = decode(&bytes).expect("65536 vertices with 4-byte indices should decode");
    assert_eq!(doc.vertices_total_num, 65536);
    assert_eq!(doc.meshes[0].triangles[0].2, 2);
    assert_eq!(doc.encode(), bytes);
}

#[test]
fn narrow_file_with_wide_indices_misparses() {
    // The same 65535-vertex document written with 4-byte indices is not the
    // narrow encoding and must not decode to it silently.
    let bytes = file_with_vertices(65535, true);
    assert!(decode(&bytes).is_err());
}

/// A document with `n` vertices under the given settings register, no
/// triangles, no materials.
fn file_with_layout(bits: u32, n: u32, vertex_bytes: &[u8]) -> Vec<u8> {
    let mut b: Vec<u8> = Vec::new();
    b.extend_from_slice(b"SHSM");
    b.extend_from_slice(&le32(1));
    push_str32(&mut b, b"s");
    b.extend_from_slice(&[0u8; 12]);
    b.extend_from_slice(&le32(0));
    for _ in 0..6 {
        b.extend_from_slice(&le32(0));
    }
    b.extend_from_slice(&le32(1));
    b.extend_from_slice(&le32(0));
    b.extend_from_slice(&le32(n));
    b.extend_from_slice(&le32(0));
    b.extend_from_slice(&le32(0));
    b.extend_from_slice(&le32(1));
    b.extend_from_slice(&[0u8; 8]);
    b.extend_from_slice(&le32(1));
    b.extend_from_slice(&[0u8; 16]);
    push_str32(&mut b, b"m");
    b.push(0);
    b.extend_from_slice(&[0u8; 64]);
    b.extend_from_slice(&le32(n));
    b.extend_from_slice(&le32(bits));
    b.extend_from_slice(vertex_bytes);
    b.extend_from_slice(&le32(0));
    b.extend_from_slice(&le32(0));
    b.extend_from_slice(&le32(0));
    b.push(0);
    b.extend_from_slice(&le32(0));
    b.extend_from_slice(b"EHSM");
    b
}

#[test]
fn stride_of_position_normal_uv_layout() {
    // position + normal + first UV set: 12 + 12 + 8 = 32 bytes per vertex.
    let one = file_with_layout(0b111, 1, &[0u8; 32]);
    let two = file_with_layout(0b111, 2, &[0u8; 64]);
    let d1 = decode(&one).expect("one-vertex file should decode");
    let d2 = decode(&two).expect("two-vertex file should decode");
    assert_eq!(d1.encode().len() + 32, d2.encode().len());
}

#[test]
fn stride_of_skinned_tangent_layout() {
    // position + tangent (+ its 4-byte tail) + skin: 12 + 16 + 20 = 48.
    let bits: u32 = 0x1 | 0x20 | 0x40;
    let one = file_with_layout(bits, 1, &[0u8; 48]);
    let two = file_with_layout(bits, 2, &[0u8; 96]);
    let d1 = decode(&one).expect("one-vertex skinned file should decode");
    let d2 = decode(&two).expect("two-vertex skinned file should decode");
    assert_eq!(d1.encode().len() + 48, d2.encode().len());
    assert_eq!(d1.meshes[0].vertices[0].bone.ids.len(), 4);
    assert_eq!(d1.meshes[0].vertices[0].tangent_unknown.len(), 4);
}

#[test]
fn absent_uv_set_occupies_no_bytes() {
    // position only: 12 bytes per vertex; the zero-filled UV slot in memory
    // takes no wire bytes.
    let one = file_with_layout(0b1, 1, &[0u8; 12]);
    let d1 = decode(&one).expect("position-only file should decode");
    assert_eq!(d1.meshes[0].vertices[0].texture_coords.len(), 1);
    assert_eq!(d1.meshes[0].vertices[0].texture_coords[0].x, 0);
    assert_eq!(d1.encode(), one);
}
