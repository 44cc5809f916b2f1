//! Rejection behaviour: unknown discriminants, out-of-range triangle
//! indices, bad framing tags, truncation, trailing bytes, and count
//! disagreements all abort the decode with the matching error.

use sia_codec::decode;
use sia_codec::types::SiaParseError;

fn le32(v: u32) -> Vec<u8> {
    v.to_le_bytes().to_vec()
}

fn push_str32(out: &mut Vec<u8>, s: &[u8]) {
    out.extend_from_slice(&(s.len() as u32).to_le_bytes());
    out.extend_from_slice(s);
}

/// A one-mesh document with three position-only vertices and one triangle.
/// Returns the bytes together with the offsets of the texture kind byte and
/// of the triangle record.
fn mesh_file(tex_kind: u8, tri: [u16; 3]) -> (Vec<u8>, usize, usize) {
    let mut b: Vec<u8> = Vec::new();
    b.extend_from_slice(b"SHSM");
    b.extend_from_slice(&le32(1));
    push_str32(&mut b, b"e");
    b.extend_from_slice(&[0u8; 12]);
    b.extend_from_slice(&le32(0));
    for _ in 0..6 {
        b.extend_from_slice(&le32(0));
    }
    b.extend_from_slice(&le32(1)); // objects_num
    b.extend_from_slice(&le32(0)); // vertex offset
    b.extend_from_slice(&le32(3)); // vertices
    b.extend_from_slice(&le32(0)); // triangle offset
    b.extend_from_slice(&le32(3)); // index count
    b.extend_from_slice(&le32(1)); // id
    b.extend_from_slice(&[0u8; 8]);
    b.extend_from_slice(&le32(1)); // meshes_num
    b.extend_from_slice(&[0u8; 16]); // detail blobs
    push_str32(&mut b, b"m");
    b.push(1); // one material
    push_str32(&mut b, b"m");
    b.push(1); // one texture
    let tex_kind_offset = b.len();
    b.push(tex_kind);
    push_str32(&mut b, b"p");
    b.extend_from_slice(&[0u8; 64]);
    b.extend_from_slice(&le32(3)); // vertex total
    b.extend_from_slice(&le32(1)); // position only
    b.extend_from_slice(&[0u8; 36]); // three vertices
    b.extend_from_slice(&le32(3)); // index count
    let tri_offset = b.len();
    for i in tri {
        b.extend_from_slice(&i.to_le_bytes());
    }
    b.extend_from_slice(&le32(0));
    b.extend_from_slice(&le32(0));
    b.push(0);
    b.extend_from_slice(&le32(0));
    b.extend_from_slice(b"EHSM");
    (b, tex_kind_offset, tri_offset)
}

fn minimal_with(settings: u32, terminal: &[u8], footer: &[u8]) -> Vec<u8> {
    let mut b: Vec<u8> = Vec::new();
    b.extend_from_slice(b"SHSM");
    b.extend_from_slice(&le32(1));
    push_str32(&mut b, b"x");
    b.extend_from_slice(&[0u8; 12]);
    b.extend_from_slice(&le32(0));
    for _ in 0..6 {
        b.extend_from_slice(&le32(0));
    }
    b.extend_from_slice(&le32(0));
    b.extend_from_slice(&le32(0));
    b.extend_from_slice(&le32(0));
    b.extend_from_slice(&le32(settings));
    b.extend_from_slice(&le32(0));
    b.extend_from_slice(&le32(0));
    b.extend_from_slice(&le32(0));
    b.extend_from_slice(terminal);
    b.extend_from_slice(&le32(0));
    b.extend_from_slice(footer);
    b
}

#[test]
fn good_mesh_file_decodes() {
    let (bytes, _, _) = mesh_file(0, [0, 1, 2]);
    let doc = decode(&bytes).expect("valid mesh file should decode");
    assert_eq!(doc.meshes[0].triangles[0].2, 2);
    assert_eq!(doc.encode(), bytes);
}

#[test]
fn unknown_texture_kind_is_rejected() {
    let (bytes, tex_kind_offset, _) = mesh_file(99, [0, 1, 2]);
    let err = decode(&bytes).expect_err("texture kind 99 must be rejected");
    assert_eq!(
        err,
        SiaParseError::UnknownTextureKind { value: 99, offset: tex_kind_offset }
    );
}

#[test]
fn out_of_range_triangle_index_is_rejected() {
    let (bytes, _, tri_offset) = mesh_file(0, [5, 0, 0]);
    let err = decode(&bytes).expect_err("index 5 of 3 vertices must be rejected");
    assert_eq!(
        err,
        SiaParseError::FaceVertexIndexOutOfRange { index: 5, vertices: 3, offset: tri_offset }
    );
}

#[test]
fn bad_header_is_rejected() {
    let mut bytes = minimal_with(1, &[0], b"EHSM");
    bytes[0] = b'X';
    let err = decode(&bytes).expect_err("bad header must be rejected");
    assert!(matches!(err, SiaParseError::BadHeader { offset: 0, .. }));
}

#[test]
fn short_buffer_is_rejected() {
    let bytes = vec![b'S', b'H'];
    let err = decode(&bytes).expect_err("two bytes are not a container");
    assert!(matches!(err, SiaParseError::UnexpectedEof { .. }));
}

#[test]
fn truncated_body_is_rejected() {
    let mut bytes = minimal_with(1, &[0], b"EHSM");
    bytes.truncate(20);
    let err = decode(&bytes).expect_err("truncated body must be rejected");
    assert!(matches!(err, SiaParseError::UnexpectedEof { .. }));
}

#[test]
fn bad_footer_is_rejected() {
    let bytes = minimal_with(1, &[0], b"XHSM");
    let err = decode(&bytes).expect_err("bad footer must be rejected");
    match err {
        SiaParseError::BadFooter { found, offset } => {
            assert_eq!(found, b"XHSM".to_vec());
            assert_eq!(offset, bytes.len() - 4);
        },
        other => panic!("expected BadFooter, got {:?}", other),
    }
}

#[test]
fn trailing_bytes_are_rejected() {
    let mut bytes = minimal_with(1, &[0], b"EHSM");
    let end = bytes.len();
    bytes.push(0);
    let err = decode(&bytes).expect_err("trailing bytes must be rejected");
    assert_eq!(err, SiaParseError::TrailingData { offset: end });
}

#[test]
fn unknown_terminal_record_kind_is_rejected() {
    let bytes = minimal_with(1, &[7], b"EHSM");
    let err = decode(&bytes).expect_err("terminal kind 7 must be rejected");
    assert!(matches!(
        err,
        SiaParseError::UnknownTerminalRecordKind { value: 7, .. }
    ));
}

#[test]
fn unknown_kind_string_is_rejected() {
    let mut terminal = vec![42u8, 5];
    terminal.extend_from_slice(b"bogus");
    let bytes = minimal_with(1, &terminal, b"EHSM");
    let err = decode(&bytes).expect_err("kind string bogus must be rejected");
    match err {
        SiaParseError::UnknownKindType { kind, .. } => assert_eq!(kind, b"bogus".to_vec()),
        other => panic!("expected UnknownKindType, got {:?}", other),
    }
}

#[test]
fn unknown_mesh_sub_type_is_rejected() {
    let mut terminal = vec![42u8, 9];
    terminal.extend_from_slice(b"mesh_type");
    terminal.push(99);
    let bytes = minimal_with(1, &terminal, b"EHSM");
    let err = decode(&bytes).expect_err("mesh sub-type 99 must be rejected");
    assert!(matches!(err, SiaParseError::UnknownMeshSubType { value: 99, .. }));
}

#[test]
fn mesh_count_disagreement_is_rejected() {
    // objects_num = 0 but meshes_num = 1.
    let mut b: Vec<u8> = Vec::new();
    b.extend_from_slice(b"SHSM");
    b.extend_from_slice(&le32(1));
    push_str32(&mut b, b"x");
    b.extend_from_slice(&[0u8; 12]);
    b.extend_from_slice(&le32(0));
    for _ in 0..6 {
        b.extend_from_slice(&le32(0));
    }
    b.extend_from_slice(&le32(0)); // objects_num
    b.extend_from_slice(&le32(1)); // meshes_num disagrees
    let err = decode(&b).expect_err("mesh table size disagreement must be rejected");
    assert!(matches!(
        err,
        SiaParseError::InconsistentCount { stored: 1, expected: 0, .. }
    ));
}

#[test]
fn vertex_total_disagreement_is_rejected() {
    // Empty mesh table but a stored vertex total of 7.
    let mut b: Vec<u8> = Vec::new();
    b.extend_from_slice(b"SHSM");
    b.extend_from_slice(&le32(1));
    push_str32(&mut b, b"x");
    b.extend_from_slice(&[0u8; 12]);
    b.extend_from_slice(&le32(0));
    for _ in 0..6 {
        b.extend_from_slice(&le32(0));
    }
    b.extend_from_slice(&le32(0));
    b.extend_from_slice(&le32(0));
    b.extend_from_slice(&le32(7)); // vertex total disagrees with empty table
    let err = decode(&b).expect_err("vertex total disagreement must be rejected");
    assert!(matches!(
        err,
        SiaParseError::InconsistentCount { stored: 7, expected: 0, .. }
    ));
}

#[test]
fn non_multiple_index_count_is_rejected() {
    // Empty mesh table but a global index count of 4 (not a multiple of 3).
    let mut b: Vec<u8> = Vec::new();
    b.extend_from_slice(b"SHSM");
    b.extend_from_slice(&le32(1));
    push_str32(&mut b, b"x");
    b.extend_from_slice(&[0u8; 12]);
    b.extend_from_slice(&le32(0));
    for _ in 0..6 {
        b.extend_from_slice(&le32(0));
    }
    b.extend_from_slice(&le32(0));
    b.extend_from_slice(&le32(0));
    b.extend_from_slice(&le32(0));
    b.extend_from_slice(&le32(1));
    b.extend_from_slice(&le32(4)); // index count not a multiple of three
    let err = decode(&b).expect_err("index count 4 must be rejected");
    assert!(matches!(err, SiaParseError::InconsistentCount { stored: 4, .. }));
}

#[test]
fn skinning_flag_outside_zero_one_is_rejected() {
    let mut b: Vec<u8> = Vec::new();
    b.extend_from_slice(b"SHSM");
    b.extend_from_slice(&le32(1));
    push_str32(&mut b, b"x");
    b.extend_from_slice(&[0u8; 12]);
    b.extend_from_slice(&le32(0));
    for _ in 0..6 {
        b.extend_from_slice(&le32(0));
    }
    b.extend_from_slice(&le32(0));
    b.extend_from_slice(&le32(0));
    b.extend_from_slice(&le32(0));
    b.extend_from_slice(&le32(1));
    b.extend_from_slice(&le32(0));
    b.extend_from_slice(&le32(2)); // skinning flag outside {0, 1}
    let err = decode(&b).expect_err("skinning flag 2 must be rejected");
    assert!(matches!(
        err,
        SiaParseError::InconsistentCount { stored: 2, expected: 1, .. }
    ));
}
