//! Terminal record variants: for each defined record-kind / kind-string /
//! sub-type combination, a minimal synthetic file decodes to the matching
//! variant and re-encodes identically.

use sia_codec::decode;
use sia_codec::types::EndKind;
use sia_codec::types::MeshType;

fn le32(v: u32) -> Vec<u8> {
    v.to_le_bytes().to_vec()
}

fn push_str32(out: &mut Vec<u8>, s: &[u8]) {
    out.extend_from_slice(&(s.len() as u32).to_le_bytes());
    out.extend_from_slice(s);
}

/// A minimal empty document whose terminal record holds the given bytes.
fn file_with_terminal(terminal: &[u8]) -> Vec<u8> {
    let mut b: Vec<u8> = Vec::new();
    b.extend_from_slice(b"SHSM");
    b.extend_from_slice(&le32(1));
    push_str32(&mut b, b"t");
    b.extend_from_slice(&[0u8; 12]);
    b.extend_from_slice(&le32(0));
    for _ in 0..6 {
        b.extend_from_slice(&le32(0));
    }
    b.extend_from_slice(&le32(0));
    b.extend_from_slice(&le32(0));
    b.extend_from_slice(&le32(0));
    b.extend_from_slice(&le32(1));
    b.extend_from_slice(&le32(0));
    b.extend_from_slice(&le32(0));
    b.extend_from_slice(&le32(0));
    b.extend_from_slice(terminal);
    b.extend_from_slice(&le32(0));
    b.extend_from_slice(b"EHSM");
    b
}

fn mesh_type_terminal(sub: u8, payload: &[u8]) -> Vec<u8> {
    let mut t: Vec<u8> = Vec::new();
    t.push(42);
    t.push(9);
    t.extend_from_slice(b"mesh_type");
    t.push(sub);
    t.extend_from_slice(payload);
    t
}

fn check(terminal: &[u8], expected: EndKind) {
    let bytes = file_with_terminal(terminal);
    let doc = decode(&bytes).expect("terminal variant should decode");
    assert_eq!(doc.end, expected);
    assert_eq!(doc.encode(), bytes);
}

#[test]
fn terminal_absent() {
    check(&[0], EndKind::Unknown);
}

#[test]
fn terminal_opaque_payload() {
    let mut t = vec![2u8];
    t.extend_from_slice(&[5u8; 16]);
    check(&t, EndKind::Opaque16(vec![5u8; 16]));
}

#[test]
fn terminal_variable_length() {
    let mut payload: Vec<u8> = Vec::new();
    push_str32(&mut payload, b"abc");
    check(
        &mesh_type_terminal(8, &payload),
        EndKind::MeshType(MeshType::VariableLength(b"abc".to_vec())),
    );
}

#[test]
fn terminal_render_flags() {
    let mut payload: Vec<u8> = vec![1, 2, 3, 4];
    payload.push(2);
    payload.extend_from_slice(b"rf");
    check(
        &mesh_type_terminal(2, &payload),
        EndKind::MeshType(MeshType::RenderFlags(vec![1, 2, 3, 4], b"rf".to_vec())),
    );
}

#[test]
fn terminal_body_part() {
    check(
        &mesh_type_terminal(88, b"Body"),
        EndKind::MeshType(MeshType::BodyPart(b"Body".to_vec())),
    );
}

#[test]
fn terminal_rear_cap() {
    check(
        &mesh_type_terminal(152, b"RearCap!"),
        EndKind::MeshType(MeshType::RearCap(b"RearCap!".to_vec())),
    );
}

#[test]
fn terminal_glasses() {
    check(
        &mesh_type_terminal(136, b"Glasses"),
        EndKind::MeshType(MeshType::Glasses(b"Glasses".to_vec())),
    );
}

#[test]
fn terminal_stadium_roof() {
    check(
        &mesh_type_terminal(216, b"StadiumRoof!"),
        EndKind::MeshType(MeshType::StadiumRoof(b"StadiumRoof!".to_vec())),
    );
}

#[test]
fn terminal_player_tunnel() {
    check(
        &mesh_type_terminal(232, b"PlayerTunnel!"),
        EndKind::MeshType(MeshType::PlayerTunnel(b"PlayerTunnel!".to_vec())),
    );
}

#[test]
fn terminal_side_cap() {
    check(
        &mesh_type_terminal(248, b"SideCapSideCap"),
        EndKind::MeshType(MeshType::SideCap(b"SideCapSideCap".to_vec())),
    );
}

#[test]
fn terminal_is_banner() {
    let mut t = vec![42u8, 9];
    t.extend_from_slice(b"is_banner");
    t.push(1);
    check(&t, EndKind::IsBanner(1));
}

#[test]
fn terminal_is_comp_banner() {
    let mut t = vec![42u8, 14];
    t.extend_from_slice(b"is_comp_banner");
    t.push(0);
    check(&t, EndKind::IsCompBanner(0));
}

#[test]
fn terminal_is_match_ball() {
    let mut t = vec![42u8, 13];
    t.extend_from_slice(b"is_match_ball");
    t.push(1);
    check(&t, EndKind::IsMatchBall(1));
}

#[test]
fn terminal_is_team_logo() {
    let mut t = vec![42u8, 12];
    t.extend_from_slice(b"is_team_logo");
    t.push(1);
    check(&t, EndKind::IsTeamLogo(1));
}
