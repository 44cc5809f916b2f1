//! A document with two meshes, every vertex attribute enabled, skinning
//! data, and both UV sets: the section-major layout reassembles each mesh
//! correctly and the whole file round-trips byte for byte.

use sia_codec::decode;

fn le32(v: u32) -> Vec<u8> {
    v.to_le_bytes().to_vec()
}

fn push_str32(out: &mut Vec<u8>, s: &[u8]) {
    out.extend_from_slice(&(s.len() as u32).to_le_bytes());
    out.extend_from_slice(s);
}

/// One vertex under the all-flags layout: 108 bytes, filled with a marker.
fn full_vertex(marker: u8) -> Vec<u8> {
    vec![marker; 108]
}

fn two_mesh_file() -> Vec<u8> {
    let mut b: Vec<u8> = Vec::new();
    b.extend_from_slice(b"SHSM");
    b.extend_from_slice(&le32(2));
    push_str32(&mut b, b"mm");
    b.extend_from_slice(&[0u8; 12]);
    b.extend_from_slice(&le32(0));
    for _ in 0..6 {
        b.extend_from_slice(&le32(0));
    }
    b.extend_from_slice(&le32(2)); // two meshes
    // first mesh header: one vertex, one triangle
    b.extend_from_slice(&le32(0));
    b.extend_from_slice(&le32(1));
    b.extend_from_slice(&le32(0));
    b.extend_from_slice(&le32(3));
    b.extend_from_slice(&le32(10));
    b.extend_from_slice(&[1u8; 8]);
    // second mesh header: two vertices, two triangles
    b.extend_from_slice(&le32(0));
    b.extend_from_slice(&le32(2));
    b.extend_from_slice(&le32(0));
    b.extend_from_slice(&le32(6));
    b.extend_from_slice(&le32(11));
    b.extend_from_slice(&[2u8; 8]);
    b.extend_from_slice(&le32(2)); // meshes_num
    // first detail block: one material without textures
    b.extend_from_slice(&[0u8; 16]);
    push_str32(&mut b, b"a");
    b.push(1);
    push_str32(&mut b, b"a");
    b.push(0);
    b.extend_from_slice(&[3u8; 64]);
    // second detail block: no materials
    b.extend_from_slice(&[0u8; 16]);
    push_str32(&mut b, b"b");
    b.push(0);
    b.extend_from_slice(&[4u8; 64]);
    // totals and the all-flags layout
    b.extend_from_slice(&le32(3));
    b.extend_from_slice(&le32(0x3FF));
    b.extend_from_slice(&full_vertex(0x11));
    b.extend_from_slice(&full_vertex(0x22));
    b.extend_from_slice(&full_vertex(0x33));
    // triangles: nine indices over both meshes, narrow width
    b.extend_from_slice(&le32(9));
    for i in [0u16, 0, 0, 0, 1, 1, 1, 0, 0] {
        b.extend_from_slice(&i.to_le_bytes());
    }
    // skinning: one bone
    b.extend_from_slice(&le32(1));
    b.extend_from_slice(&le32(1));
    b.extend_from_slice(&[9u8; 4]);
    b.extend_from_slice(&[8u8; 56]);
    b.push(0);
    b.extend_from_slice(&le32(0));
    b.extend_from_slice(b"EHSM");
    b
}

#[test]
fn two_meshes_reassemble_in_order() {
    let bytes = two_mesh_file();
    let doc = decode(&bytes).expect("two-mesh file should decode");
    assert_eq!(doc.meshes.len(), 2);
    assert_eq!(doc.meshes[0].id, 10);
    assert_eq!(doc.meshes[1].id, 11);
    assert_eq!(doc.meshes[0].vertices.len(), 1);
    assert_eq!(doc.meshes[1].vertices.len(), 2);
    assert_eq!(doc.meshes[0].triangles.len(), 1);
    assert_eq!(doc.meshes[1].triangles.len(), 2);
    assert_eq!(doc.meshes[0].materials.len(), 1);
    assert_eq!(doc.meshes[1].materials.len(), 0);
    assert_eq!(doc.meshes[0].unknown, vec![1u8; 8]);
    assert_eq!(doc.meshes[1].unknown4, vec![4u8; 64]);
}

#[test]
fn all_flags_vertex_fields_are_populated() {
    let bytes = two_mesh_file();
    let doc = decode(&bytes).expect("two-mesh file should decode");
    let v = &doc.meshes[1].vertices[0];
    assert_eq!(v.position.x, u32::from_le_bytes([0x22; 4]));
    assert_eq!(v.texture_coords.len(), 2);
    assert_eq!(v.unknown1, vec![0x22; 8]);
    assert_eq!(v.tangent_unknown, vec![0x22; 4]);
    assert_eq!(v.bone.ids, vec![0x22; 4]);
    assert_eq!(v.bone.influences.len(), 4);
    assert_eq!(v.unknown3, vec![0x22; 20]);
    assert_eq!(v.unknown4, vec![0x22; 4]);
}

#[test]
fn two_mesh_file_round_trips() {
    let bytes = two_mesh_file();
    let doc = decode(&bytes).expect("two-mesh file should decode");
    assert_eq!(doc.encode(), bytes);
    let doc2 = decode(&doc.encode()).expect("re-encoded bytes should decode");
    assert_eq!(doc2, doc);
}
