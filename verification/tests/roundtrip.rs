//! Round-trip behaviour: a decoded buffer re-encodes byte for byte, and
//! re-decoding an encoded document gives the same document.

use sia_codec::decode;
use sia_codec::types::EndKind;

fn le32(v: u32) -> Vec<u8> {
    v.to_le_bytes().to_vec()
}

fn push_str32(out: &mut Vec<u8>, s: &[u8]) {
    out.extend_from_slice(&(s.len() as u32).to_le_bytes());
    out.extend_from_slice(s);
}

/// The minimal synthetic document: header, version 1, name "x", empty
/// tables, position-only layout, terminal record absent, footer.
fn minimal_file() -> Vec<u8> {
    let mut b: Vec<u8> = Vec::new();
    b.extend_from_slice(b"SHSM");
    b.extend_from_slice(&le32(1)); // version
    push_str32(&mut b, b"x"); // name
    b.extend_from_slice(&[0u8; 12]); // preamble blob
    b.extend_from_slice(&le32(0)); // scale (bits of 0.0)
    for _ in 0..6 {
        b.extend_from_slice(&le32(0)); // bounding box
    }
    b.extend_from_slice(&le32(0)); // objects_num
    b.extend_from_slice(&le32(0)); // meshes_num
    b.extend_from_slice(&le32(0)); // vertices_total
    b.extend_from_slice(&le32(1)); // layout: position only
    b.extend_from_slice(&le32(0)); // triangle index count
    b.extend_from_slice(&le32(0)); // skinned
    b.extend_from_slice(&le32(0)); // bones
    b.push(0); // terminal record kind: absent
    b.extend_from_slice(&le32(0)); // instances
    b.extend_from_slice(b"EHSM");
    b
}

/// A document with one mesh, two vertices (position/normal/one UV set), one
/// triangle, one material with one texture, and one placement record.
fn featured_file() -> Vec<u8> {
    let mut b: Vec<u8> = Vec::new();
    b.extend_from_slice(b"SHSM");
    b.extend_from_slice(&le32(7));
    push_str32(&mut b, b"model");
    b.extend_from_slice(&[1, 2, 3, 4, 5, 6, 7, 8, 9, 10, 11, 12]);
    b.extend_from_slice(&le32(0x3f800000)); // scale bits of 1.0
    for i in 0..6u32 {
        b.extend_from_slice(&le32(i + 1));
    }
    b.extend_from_slice(&le32(1)); // objects_num
    // mesh skeleton
    b.extend_from_slice(&le32(100)); // vertex offset
    b.extend_from_slice(&le32(2)); // vertices
    b.extend_from_slice(&le32(200)); // triangle offset
    b.extend_from_slice(&le32(3)); // index count (1 triangle)
    b.extend_from_slice(&le32(5)); // id
    b.extend_from_slice(&[9u8; 8]);
    b.extend_from_slice(&le32(1)); // meshes_num
    // mesh detail
    b.extend_from_slice(&[0xAA; 4]);
    b.extend_from_slice(&[0xBB; 4]);
    b.extend_from_slice(&[0xCC; 4]);
    b.extend_from_slice(&[0xDD; 4]);
    push_str32(&mut b, b"base");
    b.push(1); // one material
    push_str32(&mut b, b"base");
    b.push(1); // one texture
    b.push(0); // albedo
    push_str32(&mut b, b"tex/a");
    b.extend_from_slice(&[0xEE; 64]);
    // totals and layout
    b.extend_from_slice(&le32(2));
    b.extend_from_slice(&le32(0b111)); // position | normal | uv set 1
    // two vertices, 32 bytes each
    for v in 0..2u32 {
        for c in 0..8u32 {
            b.extend_from_slice(&le32(v * 100 + c));
        }
    }
    // triangles
    b.extend_from_slice(&le32(3));
    b.extend_from_slice(&1u16.to_le_bytes());
    b.extend_from_slice(&0u16.to_le_bytes());
    b.extend_from_slice(&1u16.to_le_bytes());
    // skinning
    b.extend_from_slice(&le32(0));
    b.extend_from_slice(&le32(0));
    // terminal record: is_banner = 1
    b.push(42);
    b.push(9);
    b.extend_from_slice(b"is_banner");
    b.push(1);
    // one instance
    b.extend_from_slice(&le32(1));
    b.extend_from_slice(&le32(3)); // kind
    for i in 0..14u32 {
        b.extend_from_slice(&le32(i));
    }
    b.extend_from_slice(&[7u8; 24]);
    b.extend_from_slice(&le32(1)); // one position group
    for i in 0..12u32 {
        b.extend_from_slice(&le32(i));
    }
    push_str32(&mut b, b"inst");
    push_str32(&mut b, b"path/p");
    b.extend_from_slice(b"EHSM");
    b
}

#[test]
fn minimal_document_decodes_empty() {
    let bytes = minimal_file();
    let doc = decode(&bytes).expect("minimal file should decode");
    assert_eq!(doc.version_maybe, 1);
    assert_eq!(doc.name, b"x".to_vec());
    assert_eq!(doc.meshes.len(), 0);
    assert_eq!(doc.instances.len(), 0);
    assert!(doc.settings.position);
    assert!(!doc.settings.normal);
    assert_eq!(doc.end, EndKind::Unknown);
}

#[test]
fn minimal_document_round_trips() {
    let bytes = minimal_file();
    let doc = decode(&bytes).expect("minimal file should decode");
    assert_eq!(doc.encode(), bytes);
}

#[test]
fn featured_document_fields() {
    let bytes = featured_file();
    let doc = decode(&bytes).expect("featured file should decode");
    assert_eq!(doc.meshes.len(), 1);
    let mesh = &doc.meshes[0];
    assert_eq!(mesh.vertices.len(), 2);
    assert_eq!(mesh.triangles.len(), 1);
    assert_eq!(mesh.id, 5);
    assert_eq!(mesh.materials.len(), 1);
    assert_eq!(mesh.materials[0].textures.len(), 1);
    assert_eq!(mesh.materials[0].textures[0].path, b"tex/a".to_vec());
    assert_eq!(mesh.vertices[1].position.x, 100);
    assert_eq!(mesh.vertices[0].texture_coords.len(), 1);
    assert_eq!(mesh.triangles[0].0, 1);
    assert_eq!(mesh.triangles[0].1, 0);
    assert_eq!(doc.end, EndKind::IsBanner(1));
    assert_eq!(doc.instances.len(), 1);
    assert_eq!(doc.instances[0].positions.len(), 4);
    assert_eq!(doc.instances[0].name, b"inst".to_vec());
}

#[test]
fn featured_document_round_trips() {
    let bytes = featured_file();
    let doc = decode(&bytes).expect("featured file should decode");
    assert_eq!(doc.encode(), bytes);
}

#[test]
fn re_decode_is_identity() {
    let bytes = featured_file();
    let doc = decode(&bytes).expect("featured file should decode");
    let encoded = doc.encode();
    let doc2 = decode(&encoded).expect("re-encoded file should decode");
    assert_eq!(doc2, doc);
}

#[test]
fn reserved_settings_bits_are_preserved() {
    // Like the minimal file, but with every reserved settings bit set.
    let mut b: Vec<u8> = Vec::new();
    b.extend_from_slice(b"SHSM");
    b.extend_from_slice(&le32(1));
    push_str32(&mut b, b"x");
    b.extend_from_slice(&[0u8; 12]);
    b.extend_from_slice(&le32(0));
    for _ in 0..6 {
        b.extend_from_slice(&le32(0));
    }
    b.extend_from_slice(&le32(0));
    b.extend_from_slice(&le32(0));
    b.extend_from_slice(&le32(0));
    b.extend_from_slice(&le32(0xFFFF_FC01)); // position plus all reserved bits
    b.extend_from_slice(&le32(0));
    b.extend_from_slice(&le32(0));
    b.extend_from_slice(&le32(0));
    b.push(0);
    b.extend_from_slice(&le32(0));
    b.extend_from_slice(b"EHSM");
    let doc = decode(&b).expect("reserved bits should be accepted");
    assert!(doc.settings.position);
    assert_eq!(doc.settings.reserved, 0x3FFFFF);
    assert_eq!(doc.encode(), b);
}

#[test]
fn instance_with_two_position_groups_round_trips() {
    let mut b: Vec<u8> = Vec::new();
    b.extend_from_slice(b"SHSM");
    b.extend_from_slice(&le32(1));
    push_str32(&mut b, b"i");
    b.extend_from_slice(&[0u8; 12]);
    b.extend_from_slice(&le32(0));
    for _ in 0..6 {
        b.extend_from_slice(&le32(0));
    }
    b.extend_from_slice(&le32(0));
    b.extend_from_slice(&le32(0));
    b.extend_from_slice(&le32(0));
    b.extend_from_slice(&le32(1));
    b.extend_from_slice(&le32(0));
    b.extend_from_slice(&le32(0));
    b.extend_from_slice(&le32(0));
    b.push(0);
    b.extend_from_slice(&le32(1)); // one instance
    b.extend_from_slice(&le32(2)); // kind
    for i in 0..14u32 {
        b.extend_from_slice(&le32(i));
    }
    b.extend_from_slice(&[0u8; 24]);
    b.extend_from_slice(&le32(2)); // two position groups
    for i in 0..24u32 {
        b.extend_from_slice(&le32(i)); // eight vectors
    }
    push_str32(&mut b, b"n");
    push_str32(&mut b, b"q");
    b.extend_from_slice(b"EHSM");
    let doc = decode(&b).expect("two-group instance should decode");
    assert_eq!(doc.instances[0].num1, 2);
    assert_eq!(doc.instances[0].positions.len(), 8);
    assert_eq!(doc.instances[0].positions[7].z, 23);
    assert_eq!(doc.encode(), b);
}

#[test]
fn skinned_document_round_trips() {
    let mut b: Vec<u8> = Vec::new();
    b.extend_from_slice(b"SHSM");
    b.extend_from_slice(&le32(1));
    push_str32(&mut b, b"s");
    b.extend_from_slice(&[0u8; 12]);
    b.extend_from_slice(&le32(0));
    for _ in 0..6 {
        b.extend_from_slice(&le32(0));
    }
    b.extend_from_slice(&le32(0));
    b.extend_from_slice(&le32(0));
    b.extend_from_slice(&le32(0));
    b.extend_from_slice(&le32(1));
    b.extend_from_slice(&le32(0));
    b.extend_from_slice(&le32(1)); // skinned
    b.extend_from_slice(&le32(2)); // two bones
    b.extend_from_slice(&[0xAB; 4]); // root bone hash
    b.extend_from_slice(&[1u8; 56]);
    b.extend_from_slice(&[2u8; 56]);
    b.push(0);
    b.extend_from_slice(&le32(0));
    b.extend_from_slice(b"EHSM");
    let doc = decode(&b).expect("skinned file should decode");
    assert!(doc.is_skinned);
    assert_eq!(doc.number_of_bones, 2);
    assert_eq!(doc.bones.len(), 2);
    assert_eq!(doc.bones[0].data, vec![1u8; 56]);
    assert_eq!(doc.encode(), b);
}
