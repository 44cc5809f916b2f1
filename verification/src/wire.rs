//! The wire format, as one specification-level serialization function.
//!
//! [`ser_file`] maps a document to the exact byte sequence of its container.
//! The encoder is proved to return `ser_file` of its input, and the decoder is
//! proved to accept a buffer only if the document it builds maps back to that
//! buffer under `ser_file`; the two directions therefore agree byte for byte.
//!
//! Every count on the wire is recomputed here from the collection it
//! describes, never taken from a stored count field.

use vstd::prelude::*;
use vstd::bytes::spec_u16_to_le_bytes;
use vstd::bytes::spec_u32_to_le_bytes;
use crate::types::EndKind;
use crate::types::MeshType;
use crate::types::SiaFile;
use crate::types::SiaInstance;
use crate::types::SiaMaterial;
use crate::types::SiaMesh;
use crate::types::SiaTexture;
use crate::types::SiaSettings;
use crate::types::SiaTriangle;
use crate::types::SiaVector2;
use crate::types::SiaVector3;
use crate::types::SiaVertex;
use crate::types::BoundingBox;
use crate::types::settings_to_bits;
use crate::types::texture_kind_byte;
use crate::types::total_triangles;
use crate::types::total_vertices;

verus! {

/// A 32-bit value in little-endian order.
pub open spec fn le32(x: u32) -> Seq<u8> {
    spec_u32_to_le_bytes(x)
}

/// A 16-bit value in little-endian order.
pub open spec fn le16(x: u16) -> Seq<u8> {
    spec_u16_to_le_bytes(x)
}

/// A string as a 4-byte little-endian length prefix followed by its bytes.
pub open spec fn ser_str32(s: Seq<u8>) -> Seq<u8>
    recommends
        s.len() <= u32::MAX,
{
    le32(s.len() as u32) + s
}

/// A string as a 1-byte length prefix followed by its bytes.
pub open spec fn ser_str8(s: Seq<u8>) -> Seq<u8>
    recommends
        s.len() <= 255,
{
    seq![s.len() as u8] + s
}

/// The opening tag `SHSM`.
pub open spec fn header_tag() -> Seq<u8> {
    seq![0x53u8, 0x48u8, 0x53u8, 0x4du8]
}

/// The closing tag `EHSM`.
pub open spec fn footer_tag() -> Seq<u8> {
    seq![0x45u8, 0x48u8, 0x53u8, 0x4du8]
}

/// The kind string of the `mesh_type` terminal record.
pub open spec fn kind_mesh_type() -> Seq<u8> {
    seq![0x6du8, 0x65u8, 0x73u8, 0x68u8, 0x5fu8, 0x74u8, 0x79u8, 0x70u8, 0x65u8]
}

/// The kind string of the `is_banner` terminal record.
pub open spec fn kind_is_banner() -> Seq<u8> {
    seq![0x69u8, 0x73u8, 0x5fu8, 0x62u8, 0x61u8, 0x6eu8, 0x6eu8, 0x65u8, 0x72u8]
}

/// The kind string of the `is_comp_banner` terminal record.
pub open spec fn kind_is_comp_banner() -> Seq<u8> {
    seq![
        0x69u8,
        0x73u8,
        0x5fu8,
        0x63u8,
        0x6fu8,
        0x6du8,
        0x70u8,
        0x5fu8,
        0x62u8,
        0x61u8,
        0x6eu8,
        0x6eu8,
        0x65u8,
        0x72u8,
    ]
}

/// The kind string of the `is_match_ball` terminal record.
pub open spec fn kind_is_match_ball() -> Seq<u8> {
    seq![
        0x69u8,
        0x73u8,
        0x5fu8,
        0x6du8,
        0x61u8,
        0x74u8,
        0x63u8,
        0x68u8,
        0x5fu8,
        0x62u8,
        0x61u8,
        0x6cu8,
        0x6cu8,
    ]
}

/// The kind string of the `is_team_logo` terminal record.
pub open spec fn kind_is_team_logo() -> Seq<u8> {
    seq![
        0x69u8,
        0x73u8,
        0x5fu8,
        0x74u8,
        0x65u8,
        0x61u8,
        0x6du8,
        0x5fu8,
        0x6cu8,
        0x6fu8,
        0x67u8,
        0x6fu8,
    ]
}

/// The sub-type byte of each `mesh_type` variant.
pub open spec fn mesh_type_byte(mt: MeshType) -> u8 {
    match mt {
        MeshType::RenderFlags(_, _) => 2,
        MeshType::VariableLength(_) => 8,
        MeshType::BodyPart(_) => 88,
        MeshType::RearCap(_) => 152,
        MeshType::Glasses(_) => 136,
        MeshType::StadiumRoof(_) => 216,
        MeshType::PlayerTunnel(_) => 232,
        MeshType::SideCap(_) => 248,
    }
}

/// Three float bit patterns.
pub open spec fn ser_vec3(v: SiaVector3) -> Seq<u8> {
    le32(v.x) + le32(v.y) + le32(v.z)
}

/// Two float bit patterns.
pub open spec fn ser_vec2(v: SiaVector2) -> Seq<u8> {
    le32(v.x) + le32(v.y)
}

/// The six bounding-box components in wire order.
pub open spec fn ser_bbox(b: BoundingBox) -> Seq<u8> {
    le32(b.min_x) + le32(b.min_y) + le32(b.min_z) + le32(b.max_x) + le32(b.max_y) + le32(b.max_z)
}

/// A sequence of 32-bit values, each little-endian.
pub open spec fn ser_u32s(vs: Seq<u32>) -> Seq<u8>
    decreases vs.len(),
{
    if vs.len() == 0 {
        Seq::empty()
    } else {
        ser_u32s(vs.drop_last()) + le32(vs.last())
    }
}

/// A sequence of position vectors.
pub open spec fn ser_vec3s(vs: Seq<SiaVector3>) -> Seq<u8>
    decreases vs.len(),
{
    if vs.len() == 0 {
        Seq::empty()
    } else {
        ser_vec3s(vs.drop_last()) + ser_vec3(vs.last())
    }
}

/// One vertex: exactly the attribute blocks the settings enable, in the fixed
/// wire order. The first UV set has a slot whether or not its flag is set
/// (zero-filled on decode when absent), but occupies wire bytes only when the
/// flag is set.
pub open spec fn ser_vertex(v: SiaVertex, s: SiaSettings) -> Seq<u8> {
    (if s.position {
        ser_vec3(v.position)
    } else {
        Seq::empty()
    }) + (if s.normal {
        ser_vec3(v.normal)
    } else {
        Seq::empty()
    }) + (if s.uv_set1 {
        ser_vec2(v.texture_coords@[0])
    } else {
        Seq::empty()
    }) + (if s.uv_set2 {
        ser_vec2(v.texture_coords@[1])
    } else {
        Seq::empty()
    }) + (if s.unknown1 {
        v.unknown1@
    } else {
        Seq::empty()
    }) + (if s.tangent {
        ser_vec3(v.tangent) + v.tangent_unknown@
    } else {
        Seq::empty()
    }) + (if s.skinned {
        v.bone.ids@ + ser_u32s(v.bone.influences@)
    } else {
        Seq::empty()
    }) + (if s.unknown3 {
        v.unknown3@
    } else {
        Seq::empty()
    }) + (if s.unknown4 {
        v.unknown4@
    } else {
        Seq::empty()
    })
}

/// All vertices of one mesh.
pub open spec fn ser_vertices(vs: Seq<SiaVertex>, s: SiaSettings) -> Seq<u8>
    decreases vs.len(),
{
    if vs.len() == 0 {
        Seq::empty()
    } else {
        ser_vertices(vs.drop_last(), s) + ser_vertex(vs.last(), s)
    }
}

/// The vertex streams of all meshes, in mesh order.
pub open spec fn ser_mesh_vertices(ms: Seq<SiaMesh>, s: SiaSettings) -> Seq<u8>
    decreases ms.len(),
{
    if ms.len() == 0 {
        Seq::empty()
    } else {
        ser_mesh_vertices(ms.drop_last(), s) + ser_vertices(ms.last().vertices@, s)
    }
}

/// One triangle: three indices, each 4 wire bytes when `wide`, else 2.
pub open spec fn ser_triangle(t: SiaTriangle, wide: bool) -> Seq<u8> {
    if wide {
        le32(t.0) + le32(t.1) + le32(t.2)
    } else {
        le16(t.0 as u16) + le16(t.1 as u16) + le16(t.2 as u16)
    }
}

/// All triangles of one mesh.
pub open spec fn ser_triangles(ts: Seq<SiaTriangle>, wide: bool) -> Seq<u8>
    decreases ts.len(),
{
    if ts.len() == 0 {
        Seq::empty()
    } else {
        ser_triangles(ts.drop_last(), wide) + ser_triangle(ts.last(), wide)
    }
}

/// The triangle streams of all meshes, in mesh order, all with the same
/// document-global index width.
pub open spec fn ser_mesh_triangles(ms: Seq<SiaMesh>, wide: bool) -> Seq<u8>
    decreases ms.len(),
{
    if ms.len() == 0 {
        Seq::empty()
    } else {
        ser_mesh_triangles(ms.drop_last(), wide) + ser_triangles(ms.last().triangles@, wide)
    }
}

/// One mesh's fixed-size header: offsets, vertex count, triangle count stored
/// as an index count (three per triangle), id, and an 8-byte blob.
pub open spec fn ser_mesh_skeleton(m: SiaMesh) -> Seq<u8> {
    le32(m.vertex_offset) + le32(m.vertices@.len() as u32) + le32(m.triangle_offset) + le32(
        (m.triangles@.len() * 3) as u32,
    ) + le32(m.id) + m.unknown@
}

/// The mesh headers in order.
pub open spec fn ser_mesh_skeletons(ms: Seq<SiaMesh>) -> Seq<u8>
    decreases ms.len(),
{
    if ms.len() == 0 {
        Seq::empty()
    } else {
        ser_mesh_skeletons(ms.drop_last()) + ser_mesh_skeleton(ms.last())
    }
}

/// One texture reference: its kind byte and its path string.
pub open spec fn ser_texture(t: SiaTexture) -> Seq<u8> {
    seq![texture_kind_byte(t.kind)] + ser_str32(t.path@)
}

/// The texture list of one material.
pub open spec fn ser_textures(ts: Seq<SiaTexture>) -> Seq<u8>
    decreases ts.len(),
{
    if ts.len() == 0 {
        Seq::empty()
    } else {
        ser_textures(ts.drop_last()) + ser_texture(ts.last())
    }
}

/// One material: kind string, 1-byte texture count, and the textures.
pub open spec fn ser_material(m: SiaMaterial) -> Seq<u8> {
    ser_str32(m.kind@) + seq![m.textures@.len() as u8] + ser_textures(m.textures@)
}

/// The material list of one mesh.
pub open spec fn ser_materials(ms: Seq<SiaMaterial>) -> Seq<u8>
    decreases ms.len(),
{
    if ms.len() == 0 {
        Seq::empty()
    } else {
        ser_materials(ms.drop_last()) + ser_material(ms.last())
    }
}

/// One mesh's detail block without its trailing blob: four opaque blobs, the
/// mesh-level material kind string, the 1-byte material count, and the
/// materials. The trailing 64-byte blob follows in [`ser_mesh_details`].
pub open spec fn ser_mesh_detail(m: SiaMesh) -> Seq<u8> {
    m.maybe_hash@ + m.unknown1@ + m.unknown2@ + m.unknown3@ + ser_str32(m.material_type@) + seq![
        m.materials@.len() as u8,
    ] + ser_materials(m.materials@)
}

/// The detail blocks of all meshes, in mesh order, each with its trailing blob.
pub open spec fn ser_mesh_details(ms: Seq<SiaMesh>) -> Seq<u8>
    decreases ms.len(),
{
    if ms.len() == 0 {
        Seq::empty()
    } else {
        ser_mesh_details(ms.drop_last()) + ser_mesh_detail(ms.last()) + ms.last().unknown4@
    }
}

/// The skinning section, from its parts: the flag as a 32-bit 0/1, the bone
/// count, and — only when the flag is set — a 4-byte hash and the 56-byte
/// bone records.
pub open spec fn ser_skinning_parts(
    is_skinned: bool,
    number_of_bones: u32,
    hash: Seq<u8>,
    bones: Seq<crate::types::SiaBone>,
) -> Seq<u8> {
    le32(
        if is_skinned {
            1u32
        } else {
            0u32
        },
    ) + le32(number_of_bones) + (if is_skinned {
        hash + ser_bones(bones)
    } else {
        Seq::empty()
    })
}

/// The skinning section of a document.
pub open spec fn ser_skinning(f: SiaFile) -> Seq<u8> {
    ser_skinning_parts(f.is_skinned, f.number_of_bones, f.root_bone_hash_maybe@, f.bones@)
}

/// The opaque bone records in order.
pub open spec fn ser_bones(bs: Seq<crate::types::SiaBone>) -> Seq<u8>
    decreases bs.len(),
{
    if bs.len() == 0 {
        Seq::empty()
    } else {
        ser_bones(bs.drop_last()) + bs.last().data@
    }
}

/// The terminal record: its kind byte, then the shape the variant dictates.
pub open spec fn ser_end(e: EndKind) -> Seq<u8> {
    match e {
        EndKind::Unknown => seq![0u8],
        EndKind::Opaque16(d) => seq![2u8] + d@,
        EndKind::MeshType(mt) => seq![42u8] + ser_str8(kind_mesh_type()) + seq![mesh_type_byte(mt)]
            + ser_mesh_type_payload(mt),
        EndKind::IsBanner(v) => seq![42u8] + ser_str8(kind_is_banner()) + seq![v],
        EndKind::IsCompBanner(v) => seq![42u8] + ser_str8(kind_is_comp_banner()) + seq![v],
        EndKind::IsMatchBall(v) => seq![42u8] + ser_str8(kind_is_match_ball()) + seq![v],
        EndKind::IsTeamLogo(v) => seq![42u8] + ser_str8(kind_is_team_logo()) + seq![v],
    }
}

/// The payload of a `mesh_type` terminal record, after its sub-type byte.
pub open spec fn ser_mesh_type_payload(mt: MeshType) -> Seq<u8> {
    match mt {
        MeshType::RenderFlags(blob, s) => blob@ + ser_str8(s@),
        MeshType::VariableLength(s) => ser_str32(s@),
        MeshType::BodyPart(s) => s@,
        MeshType::RearCap(s) => s@,
        MeshType::Glasses(s) => s@,
        MeshType::StadiumRoof(s) => s@,
        MeshType::PlayerTunnel(s) => s@,
        MeshType::SideCap(s) => s@,
    }
}

/// One placement record. The group count is recomputed from the position
/// list: four positions per group.
pub open spec fn ser_instance(i: SiaInstance) -> Seq<u8> {
    le32(i.kind) + ser_u32s(i.matrix_values_and_unknown@) + i.unknown@ + le32(
        (i.positions@.len() / 4) as u32,
    ) + ser_vec3s(i.positions@) + ser_str32(i.name@) + ser_str32(i.path@)
}

/// The placement records in order.
pub open spec fn ser_instances(is: Seq<SiaInstance>) -> Seq<u8>
    decreases is.len(),
{
    if is.len() == 0 {
        Seq::empty()
    } else {
        ser_instances(is.drop_last()) + ser_instance(is.last())
    }
}

/// The whole container: header tag, scalar fields, mesh headers, mesh
/// details, the vertex total and settings register, vertex streams, the
/// index total and triangle streams, skinning, the terminal record, the
/// placement records, and the footer tag. Every count is recomputed from the
/// collection it describes.
pub open spec fn ser_file(f: SiaFile) -> Seq<u8> {
    header_tag() + le32(f.version_maybe) + ser_str32(f.name@) + f.unknown1@ + le32(f.maybe_scale)
        + ser_bbox(f.bounding_box) + le32(f.meshes@.len() as u32) + ser_mesh_skeletons(f.meshes@)
        + le32(f.meshes@.len() as u32) + ser_mesh_details(f.meshes@) + le32(
        total_vertices(f.meshes@) as u32,
    ) + le32(settings_to_bits(f.settings)) + ser_mesh_vertices(f.meshes@, f.settings) + le32(
        (total_triangles(f.meshes@) * 3) as u32,
    ) + ser_mesh_triangles(f.meshes@, f.wide_indices()) + ser_skinning(f) + ser_end(f.end) + le32(
        f.instances@.len() as u32,
    ) + ser_instances(f.instances@) + footer_tag()
}

/// Concatenation of byte sequences is associative.
pub(crate) proof fn seq_concat_assoc<T>(a: Seq<T>, b: Seq<T>, c: Seq<T>)
    ensures
        (a + b) + c == a + (b + c),
{
    assert((a + b) + c =~= a + (b + c));
}

/// Builds the opening tag as a buffer.
pub(crate) fn exec_header_tag() -> (r: Vec<u8>)
    ensures
        r@ == header_tag(),
{
    let mut v: Vec<u8> = Vec::new();
    v.push(0x53);
    v.push(0x48);
    v.push(0x53);
    v.push(0x4d);
    proof {
        assert(v@ =~= header_tag());
    }
    v
}

/// Builds the closing tag as a buffer.
pub(crate) fn exec_footer_tag() -> (r: Vec<u8>)
    ensures
        r@ == footer_tag(),
{
    let mut v: Vec<u8> = Vec::new();
    v.push(0x45);
    v.push(0x48);
    v.push(0x53);
    v.push(0x4d);
    proof {
        assert(v@ =~= footer_tag());
    }
    v
}

/// Builds the kind string `mesh_type` as a buffer.
pub(crate) fn exec_kind_mesh_type() -> (r: Vec<u8>)
    ensures
        r@ == kind_mesh_type(),
{
    let mut v: Vec<u8> = Vec::new();
    v.push(0x6d);
    v.push(0x65);
    v.push(0x73);
    v.push(0x68);
    v.push(0x5f);
    v.push(0x74);
    v.push(0x79);
    v.push(0x70);
    v.push(0x65);
    proof {
        assert(v@ =~= kind_mesh_type());
    }
    v
}

/// Builds the kind string `is_banner` as a buffer.
pub(crate) fn exec_kind_is_banner() -> (r: Vec<u8>)
    ensures
        r@ == kind_is_banner(),
{
    let mut v: Vec<u8> = Vec::new();
    v.push(0x69);
    v.push(0x73);
    v.push(0x5f);
    v.push(0x62);
    v.push(0x61);
    v.push(0x6e);
    v.push(0x6e);
    v.push(0x65);
    v.push(0x72);
    proof {
        assert(v@ =~= kind_is_banner());
    }
    v
}

/// Builds the kind string `is_comp_banner` as a buffer.
pub(crate) fn exec_kind_is_comp_banner() -> (r: Vec<u8>)
    ensures
        r@ == kind_is_comp_banner(),
{
    let mut v: Vec<u8> = Vec::new();
    v.push(0x69);
    v.push(0x73);
    v.push(0x5f);
    v.push(0x63);
    v.push(0x6f);
    v.push(0x6d);
    v.push(0x70);
    v.push(0x5f);
    v.push(0x62);
    v.push(0x61);
    v.push(0x6e);
    v.push(0x6e);
    v.push(0x65);
    v.push(0x72);
    proof {
        assert(v@ =~= kind_is_comp_banner());
    }
    v
}

/// Builds the kind string `is_match_ball` as a buffer.
pub(crate) fn exec_kind_is_match_ball() -> (r: Vec<u8>)
    ensures
        r@ == kind_is_match_ball(),
{
    let mut v: Vec<u8> = Vec::new();
    v.push(0x69);
    v.push(0x73);
    v.push(0x5f);
    v.push(0x6d);
    v.push(0x61);
    v.push(0x74);
    v.push(0x63);
    v.push(0x68);
    v.push(0x5f);
    v.push(0x62);
    v.push(0x61);
    v.push(0x6c);
    v.push(0x6c);
    proof {
        assert(v@ =~= kind_is_match_ball());
    }
    v
}

/// Builds the kind string `is_team_logo` as a buffer.
pub(crate) fn exec_kind_is_team_logo() -> (r: Vec<u8>)
    ensures
        r@ == kind_is_team_logo(),
{
    let mut v: Vec<u8> = Vec::new();
    v.push(0x69);
    v.push(0x73);
    v.push(0x5f);
    v.push(0x74);
    v.push(0x65);
    v.push(0x61);
    v.push(0x6d);
    v.push(0x5f);
    v.push(0x6c);
    v.push(0x6f);
    v.push(0x67);
    v.push(0x6f);
    proof {
        assert(v@ =~= kind_is_team_logo());
    }
    v
}

} // verus!
