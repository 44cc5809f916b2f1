//! The decoder: a single forward pass over an in-memory buffer.
//!
//! Decoding succeeds only on a buffer the document can reproduce: the
//! decoder's postcondition states that [`crate::wire::ser_file`] of the
//! returned document equals the input byte for byte, so a decode followed by
//! an encode is the identity on the buffer. Every stored count is checked
//! against the lengths it must describe and any disagreement is rejected,
//! since a document violating them could not re-serialize to the same bytes.
//!
//! The wire layout is section-major (all mesh headers, then all detail
//! blocks, then all vertex streams, ...), so the decoder gathers each
//! section into its own list and assembles the meshes at the end.

use vstd::prelude::*;
use crate::prim::bytes_eq;
use crate::prim::read_bytes;
use crate::prim::read_str32;
use crate::prim::read_str8;
use crate::prim::read_u16;
use crate::prim::read_u32;
use crate::prim::read_u8;
use crate::types::BoundingBox;
use crate::types::EndKind;
use crate::types::MeshType;
use crate::types::SiaBone;
use crate::types::SiaFile;
use crate::types::SiaInstance;
use crate::types::SiaMaterial;
use crate::types::SiaMesh;
use crate::types::SiaParseError;
use crate::types::SiaSettings;
use crate::types::SiaSettingsBitField;
use crate::types::SiaTexture;
use crate::types::SiaTriangle;
use crate::types::SiaVector2;
use crate::types::SiaVector3;
use crate::types::SiaVertex;
use crate::types::TextureKind;
use crate::types::total_triangles;
use crate::types::total_vertices;
use crate::wire::exec_footer_tag;
use crate::wire::exec_header_tag;
use crate::wire::exec_kind_is_banner;
use crate::wire::exec_kind_is_comp_banner;
use crate::wire::exec_kind_is_match_ball;
use crate::wire::exec_kind_is_team_logo;
use crate::wire::exec_kind_mesh_type;
use crate::wire::header_tag;
use crate::wire::footer_tag;
use crate::wire::kind_mesh_type;
use crate::wire::ser_skinning;
use crate::types::settings_to_bits;
use crate::wire::le32;
use crate::wire::ser_bbox;
use crate::wire::ser_bones;
use crate::wire::ser_end;
use crate::wire::ser_file;
use crate::wire::ser_instance;
use crate::wire::ser_instances;
use crate::wire::ser_material;
use crate::wire::ser_materials;
use crate::wire::ser_mesh_detail;
use crate::wire::ser_mesh_details;
use crate::wire::ser_mesh_skeleton;
use crate::wire::ser_mesh_skeletons;
use crate::wire::ser_mesh_triangles;
use crate::wire::ser_mesh_vertices;
use crate::wire::ser_str32;
use crate::wire::ser_texture;
use crate::wire::ser_textures;
use crate::wire::ser_triangle;
use crate::wire::ser_triangles;
use crate::wire::ser_u32s;
use crate::wire::ser_vec2;
use crate::wire::ser_vec3;
use crate::wire::ser_vec3s;
use crate::wire::ser_vertex;
use crate::wire::ser_vertices;

verus! {

/// Two neighbouring byte ranges concatenate to the enclosing range.
proof fn lemma_stitch(bytes: Seq<u8>, a: int, b: int, c: int)
    requires
        0 <= a <= b <= c <= bytes.len(),
    ensures
        bytes.subrange(a, c) == bytes.subrange(a, b) + bytes.subrange(b, c),
{
    assert(bytes.subrange(a, c) =~= bytes.subrange(a, b) + bytes.subrange(b, c));
}

/// The fixed-size header of one mesh, as stored in the first mesh table.
/// `triangles_num` already holds the primitive count (the wire stores the
/// index count, three per triangle).
struct MeshSkel {
    vertex_offset: u32,
    vertices_num: u32,
    triangle_offset: u32,
    triangles_num: u32,
    id: u32,
    unknown: Vec<u8>,
}

/// The wire bytes of one stored mesh header.
spec fn ser_skel(k: MeshSkel) -> Seq<u8> {
    le32(k.vertex_offset) + le32(k.vertices_num) + le32(k.triangle_offset) + le32(
        (k.triangles_num * 3) as u32,
    ) + le32(k.id) + k.unknown@
}

/// The wire bytes of the stored mesh headers in order.
spec fn ser_skels(ks: Seq<MeshSkel>) -> Seq<u8>
    decreases ks.len(),
{
    if ks.len() == 0 {
        Seq::empty()
    } else {
        ser_skels(ks.drop_last()) + ser_skel(ks.last())
    }
}

/// The vertex count over all stored mesh headers.
spec fn skel_vertex_total(ks: Seq<MeshSkel>) -> int
    decreases ks.len(),
{
    if ks.len() == 0 {
        0
    } else {
        skel_vertex_total(ks.drop_last()) + ks.last().vertices_num
    }
}

/// The triangle count over all stored mesh headers.
spec fn skel_triangle_total(ks: Seq<MeshSkel>) -> int
    decreases ks.len(),
{
    if ks.len() == 0 {
        0
    } else {
        skel_triangle_total(ks.drop_last()) + ks.last().triangles_num
    }
}

/// The detail block of one mesh: blobs, the material table, and the trailing
/// 64-byte blob.
struct MeshDetail {
    maybe_hash: Vec<u8>,
    unknown1: Vec<u8>,
    unknown2: Vec<u8>,
    unknown3: Vec<u8>,
    material_type: Vec<u8>,
    materials: Vec<SiaMaterial>,
    unknown4: Vec<u8>,
}

/// The wire bytes of one detail block, trailing blob included.
spec fn ser_detail(d: MeshDetail) -> Seq<u8> {
    d.maybe_hash@ + d.unknown1@ + d.unknown2@ + d.unknown3@ + ser_str32(d.material_type@) + seq![
        d.materials@.len() as u8,
    ] + ser_materials(d.materials@) + d.unknown4@
}

/// The wire bytes of the detail blocks in order.
spec fn ser_details(ds: Seq<MeshDetail>) -> Seq<u8>
    decreases ds.len(),
{
    if ds.len() == 0 {
        Seq::empty()
    } else {
        ser_details(ds.drop_last()) + ser_detail(ds.last())
    }
}

/// Structural soundness of one decoded detail block.
spec fn detail_wf(d: MeshDetail) -> bool {
    &&& d.maybe_hash@.len() == 4
    &&& d.unknown1@.len() == 4
    &&& d.unknown2@.len() == 4
    &&& d.unknown3@.len() == 4
    &&& d.material_type@.len() <= u32::MAX
    &&& d.materials@.len() <= 255
    &&& d.unknown4@.len() == 64
    &&& forall|i: int| 0 <= i < d.materials@.len() ==> (#[trigger] d.materials@[i]).wf()
}

/// The wire bytes of the per-mesh vertex streams in order.
spec fn ser_vertex_lists(vls: Seq<Vec<SiaVertex>>, s: SiaSettings) -> Seq<u8>
    decreases vls.len(),
{
    if vls.len() == 0 {
        Seq::empty()
    } else {
        ser_vertex_lists(vls.drop_last(), s) + ser_vertices(vls.last()@, s)
    }
}

/// The wire bytes of the per-mesh triangle streams in order.
spec fn ser_triangle_lists(tls: Seq<Vec<SiaTriangle>>, wide: bool) -> Seq<u8>
    decreases tls.len(),
{
    if tls.len() == 0 {
        Seq::empty()
    } else {
        ser_triangle_lists(tls.drop_last(), wide) + ser_triangles(tls.last()@, wide)
    }
}

/// Reads the six bounding-box components.
fn decode_bbox(bytes: &Vec<u8>, pos: &mut usize) -> (r: Result<BoundingBox, SiaParseError>)
    requires
        *old(pos) <= bytes@.len(),
    ensures
        r matches Ok(b) ==> {
            &&& *final(pos) <= bytes@.len()
            &&& *old(pos) <= *final(pos)
            &&& bytes@.subrange(*old(pos) as int, *final(pos) as int) == ser_bbox(b)
        },
        r matches Err(e) ==> e matches SiaParseError::UnexpectedEof { .. },
        bytes@.len() - *old(pos) >= 24 ==> r is Ok,
{
    let o = *pos;
    let min_x = read_u32(bytes, pos)?;
    let min_y = read_u32(bytes, pos)?;
    let min_z = read_u32(bytes, pos)?;
    let max_x = read_u32(bytes, pos)?;
    let max_y = read_u32(bytes, pos)?;
    let max_z = read_u32(bytes, pos)?;
    let b = BoundingBox { min_x, min_y, min_z, max_x, max_y, max_z };
    proof {
        assert(bytes@.subrange(o as int, *pos as int) =~= ser_bbox(b));
    }
    Ok(b)
}

/// Reads one stored mesh header, rejecting an index count that is not a
/// multiple of three: such a count cannot round-trip.
fn decode_skeleton(bytes: &Vec<u8>, pos: &mut usize) -> (r: Result<MeshSkel, SiaParseError>)
    requires
        *old(pos) <= bytes@.len(),
    ensures
        r matches Ok(k) ==> {
            &&& *final(pos) <= bytes@.len()
            &&& *old(pos) <= *final(pos)
            &&& bytes@.subrange(*old(pos) as int, *final(pos) as int) == ser_skel(k)
            &&& k.unknown@.len() == 8
            &&& k.triangles_num * 3 <= u32::MAX
        },
        r matches Err(e) ==> e matches SiaParseError::UnexpectedEof { .. } || (e matches
            SiaParseError::InconsistentCount { stored, expected, .. } && stored % 3 != 0
            && expected == stored / 3 * 3),
{
    let o = *pos;
    let vertex_offset = read_u32(bytes, pos)?;
    let vertices_num = read_u32(bytes, pos)?;
    let triangle_offset = read_u32(bytes, pos)?;
    let index_count = read_u32(bytes, pos)?;
    let id = read_u32(bytes, pos)?;
    let unknown = read_bytes(bytes, pos, 8)?;
    if index_count % 3 != 0 {
        return Err(
            SiaParseError::InconsistentCount {
                stored: index_count,
                expected: index_count / 3 * 3,
                offset: o,
            },
        );
    }
    let k = MeshSkel {
        vertex_offset,
        vertices_num,
        triangle_offset,
        triangles_num: index_count / 3,
        id,
        unknown,
    };
    proof {
        assert(k.triangles_num * 3 == index_count);
        assert(bytes@.subrange(o as int, *pos as int) =~= ser_skel(k));
    }
    Ok(k)
}

/// Reads the stored mesh headers.
fn decode_skeletons(bytes: &Vec<u8>, pos: &mut usize, count: u32) -> (r: Result<
    Vec<MeshSkel>,
    SiaParseError,
>)
    requires
        *old(pos) <= bytes@.len(),
    ensures
        r matches Ok(ks) ==> {
            &&& ks@.len() == count
            &&& *final(pos) <= bytes@.len()
            &&& *old(pos) <= *final(pos)
            &&& bytes@.subrange(*old(pos) as int, *final(pos) as int) == ser_skels(ks@)
            &&& forall|i: int|
                0 <= i < ks@.len() ==> (#[trigger] ks@[i]).unknown@.len() == 8 && ks@[i].triangles_num
                    * 3 <= u32::MAX
        },
        r matches Err(e) ==> e matches SiaParseError::UnexpectedEof { .. } || (e matches
            SiaParseError::InconsistentCount { stored, expected, .. } && stored % 3 != 0
            && expected == stored / 3 * 3),
        count == 0 ==> r is Ok,
{
    let o = *pos;
    let mut ks: Vec<MeshSkel> = Vec::new();
    let mut i: u32 = 0;
    while i < count
        invariant
            i <= count,
            ks@.len() == i,
            *pos <= bytes@.len(),
            o <= *pos,
            bytes@.subrange(o as int, *pos as int) == ser_skels(ks@),
            forall|j: int|
                0 <= j < ks@.len() ==> (#[trigger] ks@[j]).unknown@.len() == 8 && ks@[j].triangles_num
                    * 3 <= u32::MAX,
        decreases count - i,
    {
        let ghost pp = *pos;
        let ghost gks = ks@;
        let k = decode_skeleton(bytes, pos)?;
        ks.push(k);
        proof {
            lemma_stitch(bytes@, o as int, pp as int, *pos as int);
            assert(ks@.drop_last() =~= gks);
        }
        i = i + 1;
    }
    Ok(ks)
}

/// Reads one texture reference. A kind byte outside the understood set is
/// rejected, and accepted kind bytes map to the kind whose wire byte they
/// are.
fn decode_texture(bytes: &Vec<u8>, pos: &mut usize) -> (r: Result<SiaTexture, SiaParseError>)
    requires
        *old(pos) <= bytes@.len(),
    ensures
        r matches Ok(t) ==> {
            &&& *final(pos) <= bytes@.len()
            &&& *old(pos) <= *final(pos)
            &&& bytes@.subrange(*old(pos) as int, *final(pos) as int) == ser_texture(t)
            &&& t.path@.len() <= u32::MAX
        },
        r matches Err(e) ==> e matches SiaParseError::UnexpectedEof { .. } || (e matches
            SiaParseError::UnknownTextureKind {
            value,
            offset,
        } && offset == *old(pos) && offset < bytes@.len() && bytes@[*old(pos) as int] == value && !(
        value == 0 || value == 1 || value == 2 || value == 5 || value == 6 || value == 7)),
{
    let o = *pos;
    let kind_byte = read_u8(bytes, pos)?;
    let kind = match TextureKind::from_byte(kind_byte) {
        Some(k) => k,
        None => {
            proof {
                assert(bytes@.subrange(o as int, o + 1 as int)[0] == bytes@[o as int]);
            }
            return Err(SiaParseError::UnknownTextureKind { value: kind_byte, offset: o });
        },
    };
    let path = read_str32(bytes, pos)?;
    let t = SiaTexture { kind, path };
    proof {
        assert(bytes@.subrange(o as int, *pos as int) =~= ser_texture(t));
    }
    Ok(t)
}

/// Reads one material: kind string, texture count, textures.
fn decode_material(bytes: &Vec<u8>, pos: &mut usize) -> (r: Result<SiaMaterial, SiaParseError>)
    requires
        *old(pos) <= bytes@.len(),
    ensures
        r matches Ok(m) ==> {
            &&& *final(pos) <= bytes@.len()
            &&& *old(pos) <= *final(pos)
            &&& bytes@.subrange(*old(pos) as int, *final(pos) as int) == ser_material(m)
            &&& m.wf()
        },
        r matches Err(e) ==> e matches SiaParseError::UnexpectedEof { .. } || (e matches
            SiaParseError::UnknownTextureKind { value, offset } && !(value == 0 || value == 1
            || value == 2 || value == 5 || value == 6 || value == 7) && offset < bytes@.len()
            && bytes@[offset as int] == value),
{
    let o = *pos;
    let kind = read_str32(bytes, pos)?;
    let ghost p1 = *pos;
    let texture_num = read_u8(bytes, pos)?;
    let ghost p2 = *pos;
    let mut textures: Vec<SiaTexture> = Vec::new();
    let mut i: u8 = 0;
    while i < texture_num
        invariant
            i <= texture_num,
            textures@.len() == i,
            *pos <= bytes@.len(),
            p2 <= *pos,
            bytes@.subrange(p2 as int, *pos as int) == ser_textures(textures@),
            forall|j: int|
                0 <= j < textures@.len() ==> (#[trigger] textures@[j]).path@.len() <= u32::MAX,
        decreases texture_num - i,
    {
        let ghost pp = *pos;
        let ghost gts = textures@;
        let t = decode_texture(bytes, pos)?;
        textures.push(t);
        proof {
            lemma_stitch(bytes@, p2 as int, pp as int, *pos as int);
            assert(textures@.drop_last() =~= gts);
        }
        i = i + 1;
    }
    let m = SiaMaterial { kind, texture_num, textures };
    proof {
        lemma_stitch(bytes@, o as int, p1 as int, p2 as int);
        lemma_stitch(bytes@, o as int, p2 as int, *pos as int);
        assert(bytes@.subrange(p1 as int, p2 as int) =~= seq![m.textures@.len() as u8]);
        assert(bytes@.subrange(o as int, *pos as int) == ser_material(m));
    }
    Ok(m)
}

/// Reads one mesh detail block, trailing blob included.
fn decode_detail(bytes: &Vec<u8>, pos: &mut usize) -> (r: Result<MeshDetail, SiaParseError>)
    requires
        *old(pos) <= bytes@.len(),
    ensures
        r matches Ok(d) ==> {
            &&& *final(pos) <= bytes@.len()
            &&& *old(pos) <= *final(pos)
            &&& bytes@.subrange(*old(pos) as int, *final(pos) as int) == ser_detail(d)
            &&& detail_wf(d)
        },
        r matches Err(e) ==> e matches SiaParseError::UnexpectedEof { .. } || (e matches
            SiaParseError::UnknownTextureKind { value, offset } && !(value == 0 || value == 1
            || value == 2 || value == 5 || value == 6 || value == 7) && offset < bytes@.len()
            && bytes@[offset as int] == value),
{
    let o = *pos;
    let maybe_hash = read_bytes(bytes, pos, 4)?;
    let unknown1 = read_bytes(bytes, pos, 4)?;
    let unknown2 = read_bytes(bytes, pos, 4)?;
    let unknown3 = read_bytes(bytes, pos, 4)?;
    let material_type = read_str32(bytes, pos)?;
    let ghost p5 = *pos;
    let materials_num = read_u8(bytes, pos)?;
    let ghost p6 = *pos;
    let mut materials: Vec<SiaMaterial> = Vec::new();
    let mut i: u8 = 0;
    while i < materials_num
        invariant
            i <= materials_num,
            materials@.len() == i,
            *pos <= bytes@.len(),
            p6 <= *pos,
            bytes@.subrange(p6 as int, *pos as int) == ser_materials(materials@),
            forall|j: int| 0 <= j < materials@.len() ==> (#[trigger] materials@[j]).wf(),
        decreases materials_num - i,
    {
        let ghost pp = *pos;
        let ghost gms = materials@;
        let m = decode_material(bytes, pos)?;
        materials.push(m);
        proof {
            lemma_stitch(bytes@, p6 as int, pp as int, *pos as int);
            assert(materials@.drop_last() =~= gms);
        }
        i = i + 1;
    }
    let ghost p7 = *pos;
    let unknown4 = read_bytes(bytes, pos, 64)?;
    let d = MeshDetail { maybe_hash, unknown1, unknown2, unknown3, material_type, materials, unknown4 };
    proof {
        lemma_stitch(bytes@, p5 as int, p6 as int, p7 as int);
        lemma_stitch(bytes@, o as int, p5 as int, p7 as int);
        lemma_stitch(bytes@, o as int, p7 as int, *pos as int);
        assert(bytes@.subrange(p5 as int, p6 as int) =~= seq![d.materials@.len() as u8]);
        assert(bytes@.subrange(o as int, p5 as int) =~= d.maybe_hash@ + d.unknown1@ + d.unknown2@
            + d.unknown3@ + ser_str32(d.material_type@));
        assert(bytes@.subrange(o as int, *pos as int) =~= ser_detail(d));
    }
    Ok(d)
}

/// Reads the detail blocks of all meshes.
fn decode_details(bytes: &Vec<u8>, pos: &mut usize, count: u32) -> (r: Result<
    Vec<MeshDetail>,
    SiaParseError,
>)
    requires
        *old(pos) <= bytes@.len(),
    ensures
        r matches Ok(ds) ==> {
            &&& ds@.len() == count
            &&& *final(pos) <= bytes@.len()
            &&& *old(pos) <= *final(pos)
            &&& bytes@.subrange(*old(pos) as int, *final(pos) as int) == ser_details(ds@)
            &&& forall|i: int| 0 <= i < ds@.len() ==> detail_wf(#[trigger] ds@[i])
        },
        r matches Err(e) ==> e matches SiaParseError::UnexpectedEof { .. } || (e matches
            SiaParseError::UnknownTextureKind { value, offset } && !(value == 0 || value == 1
            || value == 2 || value == 5 || value == 6 || value == 7) && offset < bytes@.len()
            && bytes@[offset as int] == value),
        count == 0 ==> r is Ok,
{
    let o = *pos;
    let mut ds: Vec<MeshDetail> = Vec::new();
    let mut i: u32 = 0;
    while i < count
        invariant
            i <= count,
            ds@.len() == i,
            *pos <= bytes@.len(),
            o <= *pos,
            bytes@.subrange(o as int, *pos as int) == ser_details(ds@),
            forall|j: int| 0 <= j < ds@.len() ==> detail_wf(#[trigger] ds@[j]),
        decreases count - i,
    {
        let ghost pp = *pos;
        let ghost gds = ds@;
        let d = decode_detail(bytes, pos)?;
        ds.push(d);
        proof {
            lemma_stitch(bytes@, o as int, pp as int, *pos as int);
            assert(ds@.drop_last() =~= gds);
        }
        i = i + 1;
    }
    Ok(ds)
}

/// Reads three float bit patterns.
fn decode_vec3(bytes: &Vec<u8>, pos: &mut usize) -> (r: Result<SiaVector3, SiaParseError>)
    requires
        *old(pos) <= bytes@.len(),
    ensures
        r matches Ok(v) ==> {
            &&& *final(pos) <= bytes@.len()
            &&& *old(pos) <= *final(pos)
            &&& bytes@.subrange(*old(pos) as int, *final(pos) as int) == ser_vec3(v)
        },
        r matches Err(e) ==> e matches SiaParseError::UnexpectedEof { .. },
{
    let o = *pos;
    let x = read_u32(bytes, pos)?;
    let y = read_u32(bytes, pos)?;
    let z = read_u32(bytes, pos)?;
    let v = SiaVector3 { x, y, z };
    proof {
        assert(bytes@.subrange(o as int, *pos as int) =~= ser_vec3(v));
    }
    Ok(v)
}

/// Reads two float bit patterns.
fn decode_vec2(bytes: &Vec<u8>, pos: &mut usize) -> (r: Result<SiaVector2, SiaParseError>)
    requires
        *old(pos) <= bytes@.len(),
    ensures
        r matches Ok(v) ==> {
            &&& *final(pos) <= bytes@.len()
            &&& *old(pos) <= *final(pos)
            &&& bytes@.subrange(*old(pos) as int, *final(pos) as int) == ser_vec2(v)
        },
        r matches Err(e) ==> e matches SiaParseError::UnexpectedEof { .. },
{
    let o = *pos;
    let x = read_u32(bytes, pos)?;
    let y = read_u32(bytes, pos)?;
    let v = SiaVector2 { x, y };
    proof {
        assert(bytes@.subrange(o as int, *pos as int) =~= ser_vec2(v));
    }
    Ok(v)
}

/// Reads a run of 32-bit values.
fn decode_u32s(bytes: &Vec<u8>, pos: &mut usize, n: usize) -> (r: Result<Vec<u32>, SiaParseError>)
    requires
        *old(pos) <= bytes@.len(),
    ensures
        r matches Ok(vs) ==> {
            &&& vs@.len() == n
            &&& *final(pos) <= bytes@.len()
            &&& *old(pos) <= *final(pos)
            &&& bytes@.subrange(*old(pos) as int, *final(pos) as int) == ser_u32s(vs@)
        },
        r matches Err(e) ==> e matches SiaParseError::UnexpectedEof { .. },
{
    let o = *pos;
    let mut vs: Vec<u32> = Vec::new();
    let mut i: usize = 0;
    while i < n
        invariant
            i <= n,
            vs@.len() == i,
            *pos <= bytes@.len(),
            o <= *pos,
            bytes@.subrange(o as int, *pos as int) == ser_u32s(vs@),
        decreases n - i,
    {
        let ghost pp = *pos;
        let ghost gvs = vs@;
        let v = read_u32(bytes, pos)?;
        vs.push(v);
        proof {
            lemma_stitch(bytes@, o as int, pp as int, *pos as int);
            assert(vs@.drop_last() =~= gvs);
        }
        i = i + 1;
    }
    Ok(vs)
}

/// Reads one vertex: exactly the attribute blocks the settings enable, in
/// wire order, zero-filling the first UV set when its flag is clear.
#[verifier::rlimit(60)]
fn decode_vertex(bytes: &Vec<u8>, pos: &mut usize, s: &SiaSettings) -> (r: Result<
    SiaVertex,
    SiaParseError,
>)
    requires
        *old(pos) <= bytes@.len(),
    ensures
        r matches Ok(v) ==> {
            &&& v.wf(*s)
            &&& v.absent_fields_default(*s)
            &&& *final(pos) <= bytes@.len()
            &&& *old(pos) <= *final(pos)
            &&& bytes@.subrange(*old(pos) as int, *final(pos) as int) == ser_vertex(v, *s)
        },
        r matches Err(e) ==> e matches SiaParseError::UnexpectedEof { .. },
{
    let o = *pos;
    let ghost mut acc = Seq::<u8>::empty();
    let position = if s.position {
        decode_vec3(bytes, pos)?
    } else {
        SiaVector3 { x: 0, y: 0, z: 0 }
    };
    proof {
        let c = if s.position {
            ser_vec3(position)
        } else {
            Seq::<u8>::empty()
        };
        acc = c;
        assert(bytes@.subrange(o as int, *pos as int) =~= acc);
    }
    let ghost p1 = *pos;
    let normal = if s.normal {
        decode_vec3(bytes, pos)?
    } else {
        SiaVector3 { x: 0, y: 0, z: 0 }
    };
    proof {
        let c = if s.normal {
            ser_vec3(normal)
        } else {
            Seq::<u8>::empty()
        };
        lemma_stitch(bytes@, o as int, p1 as int, *pos as int);
        if !s.normal {
            assert(acc + c =~= acc);
        }
        acc = acc + c;
        assert(bytes@.subrange(o as int, *pos as int) == acc);
    }
    let ghost p2 = *pos;
    let mut texture_coords: Vec<SiaVector2> = Vec::new();
    if s.uv_set1 {
        let uv = decode_vec2(bytes, pos)?;
        texture_coords.push(uv);
    } else {
        texture_coords.push(SiaVector2 { x: 0, y: 0 });
    }
    proof {
        let c = if s.uv_set1 {
            ser_vec2(texture_coords@[0])
        } else {
            Seq::<u8>::empty()
        };
        lemma_stitch(bytes@, o as int, p2 as int, *pos as int);
        if !s.uv_set1 {
            assert(acc + c =~= acc);
        }
        acc = acc + c;
        assert(bytes@.subrange(o as int, *pos as int) == acc);
    }
    let ghost p3 = *pos;
    if s.uv_set2 {
        let uv = decode_vec2(bytes, pos)?;
        texture_coords.push(uv);
    }
    proof {
        let c = if s.uv_set2 {
            ser_vec2(texture_coords@[1])
        } else {
            Seq::<u8>::empty()
        };
        lemma_stitch(bytes@, o as int, p3 as int, *pos as int);
        if !s.uv_set2 {
            assert(acc + c =~= acc);
        }
        acc = acc + c;
        assert(bytes@.subrange(o as int, *pos as int) == acc);
    }
    let ghost p4 = *pos;
    let unknown1 = if s.unknown1 {
        read_bytes(bytes, pos, 8)?
    } else {
        Vec::new()
    };
    proof {
        let c = if s.unknown1 {
            unknown1@
        } else {
            Seq::<u8>::empty()
        };
        lemma_stitch(bytes@, o as int, p4 as int, *pos as int);
        if !s.unknown1 {
            assert(acc + c =~= acc);
        }
        acc = acc + c;
        assert(bytes@.subrange(o as int, *pos as int) == acc);
    }
    let ghost p5 = *pos;
    let mut tangent = SiaVector3 { x: 0, y: 0, z: 0 };
    let mut tangent_unknown: Vec<u8> = Vec::new();
    if s.tangent {
        tangent = decode_vec3(bytes, pos)?;
        let ghost pm = *pos;
        tangent_unknown = read_bytes(bytes, pos, 4)?;
        proof {
            lemma_stitch(bytes@, p5 as int, pm as int, *pos as int);
        }
    }
    proof {
        let c = if s.tangent {
            ser_vec3(tangent) + tangent_unknown@
        } else {
            Seq::<u8>::empty()
        };
        lemma_stitch(bytes@, o as int, p5 as int, *pos as int);
        if !s.tangent {
            assert(acc + c =~= acc);
        }
        acc = acc + c;
        assert(bytes@.subrange(o as int, *pos as int) == acc);
    }
    let ghost p6 = *pos;
    let mut bone_ids: Vec<u8> = Vec::new();
    let mut bone_influences: Vec<u32> = Vec::new();
    if s.skinned {
        bone_ids = read_bytes(bytes, pos, 4)?;
        let ghost pm = *pos;
        bone_influences = decode_u32s(bytes, pos, 4)?;
        proof {
            lemma_stitch(bytes@, p6 as int, pm as int, *pos as int);
        }
    }
    proof {
        let c = if s.skinned {
            bone_ids@ + ser_u32s(bone_influences@)
        } else {
            Seq::<u8>::empty()
        };
        lemma_stitch(bytes@, o as int, p6 as int, *pos as int);
        if !s.skinned {
            assert(acc + c =~= acc);
        }
        acc = acc + c;
        assert(bytes@.subrange(o as int, *pos as int) == acc);
    }
    let ghost p7 = *pos;
    let unknown3 = if s.unknown3 {
        read_bytes(bytes, pos, 20)?
    } else {
        Vec::new()
    };
    proof {
        let c = if s.unknown3 {
            unknown3@
        } else {
            Seq::<u8>::empty()
        };
        lemma_stitch(bytes@, o as int, p7 as int, *pos as int);
        if !s.unknown3 {
            assert(acc + c =~= acc);
        }
        acc = acc + c;
        assert(bytes@.subrange(o as int, *pos as int) == acc);
    }
    let ghost p8 = *pos;
    let unknown4 = if s.unknown4 {
        read_bytes(bytes, pos, 4)?
    } else {
        Vec::new()
    };
    let v = SiaVertex {
        position,
        normal,
        texture_coords,
        tangent,
        unknown1,
        tangent_unknown,
        unknown3,
        unknown4,
        bone: crate::types::SiaBoneVertex { ids: bone_ids, influences: bone_influences },
    };
    proof {
        let c = if s.unknown4 {
            unknown4@
        } else {
            Seq::<u8>::empty()
        };
        lemma_stitch(bytes@, o as int, p8 as int, *pos as int);
        if !s.unknown4 {
            assert(acc + c =~= acc);
        }
        acc = acc + c;
        assert(bytes@.subrange(o as int, *pos as int) == acc);
        assert(acc == ser_vertex(v, *s));
    }
    Ok(v)
}

/// Reads the vertex stream of one mesh.
fn decode_vertices(bytes: &Vec<u8>, pos: &mut usize, n: u32, s: &SiaSettings) -> (r: Result<
    Vec<SiaVertex>,
    SiaParseError,
>)
    requires
        *old(pos) <= bytes@.len(),
    ensures
        r matches Ok(vs) ==> {
            &&& vs@.len() == n
            &&& *final(pos) <= bytes@.len()
            &&& *old(pos) <= *final(pos)
            &&& bytes@.subrange(*old(pos) as int, *final(pos) as int) == ser_vertices(vs@, *s)
            &&& forall|i: int| 0 <= i < vs@.len() ==> (#[trigger] vs@[i]).wf(*s)
            &&& forall|i: int| 0 <= i < vs@.len() ==> (#[trigger] vs@[i]).absent_fields_default(*s)
        },
        r matches Err(e) ==> e matches SiaParseError::UnexpectedEof { .. },
{
    let o = *pos;
    let mut vs: Vec<SiaVertex> = Vec::new();
    let mut i: u32 = 0;
    while i < n
        invariant
            i <= n,
            vs@.len() == i,
            *pos <= bytes@.len(),
            o <= *pos,
            bytes@.subrange(o as int, *pos as int) == ser_vertices(vs@, *s),
            forall|j: int| 0 <= j < vs@.len() ==> (#[trigger] vs@[j]).wf(*s),
            forall|j: int| 0 <= j < vs@.len() ==> (#[trigger] vs@[j]).absent_fields_default(*s),
        decreases n - i,
    {
        let ghost pp = *pos;
        let ghost gvs = vs@;
        let v = decode_vertex(bytes, pos, s)?;
        vs.push(v);
        proof {
            lemma_stitch(bytes@, o as int, pp as int, *pos as int);
            assert(vs@.drop_last() =~= gvs);
        }
        i = i + 1;
    }
    Ok(vs)
}

/// Reads the vertex streams of all meshes, one per stored header, with the
/// vertex count each header names.
fn decode_vertex_streams(bytes: &Vec<u8>, pos: &mut usize, ks: &Vec<MeshSkel>, s: &SiaSettings) -> (r:
    Result<Vec<Vec<SiaVertex>>, SiaParseError>)
    requires
        *old(pos) <= bytes@.len(),
    ensures
        r matches Ok(vls) ==> {
            &&& vls@.len() == ks@.len()
            &&& *final(pos) <= bytes@.len()
            &&& *old(pos) <= *final(pos)
            &&& bytes@.subrange(*old(pos) as int, *final(pos) as int) == ser_vertex_lists(vls@, *s)
            &&& forall|i: int| 0 <= i < vls@.len() ==> (#[trigger] vls@[i])@.len() == ks@[i].vertices_num
            &&& forall|i: int, j: int|
                #![auto]
                0 <= i < vls@.len() && 0 <= j < vls@[i]@.len() ==> vls@[i]@[j].wf(*s)
            &&& forall|i: int, j: int|
                #![auto]
                0 <= i < vls@.len() && 0 <= j < vls@[i]@.len() ==> vls@[i]@[j].absent_fields_default(
                    *s,
                )
        },
        r matches Err(e) ==> e matches SiaParseError::UnexpectedEof { .. },
        ks@.len() == 0 ==> r is Ok,
{
    let o = *pos;
    let mut vls: Vec<Vec<SiaVertex>> = Vec::new();
    let mut i: usize = 0;
    while i < ks.len()
        invariant
            i <= ks@.len(),
            vls@.len() == i,
            *pos <= bytes@.len(),
            o <= *pos,
            bytes@.subrange(o as int, *pos as int) == ser_vertex_lists(vls@, *s),
            forall|k: int| 0 <= k < vls@.len() ==> (#[trigger] vls@[k])@.len() == ks@[k].vertices_num,
            forall|k: int, j: int|
                #![auto]
                0 <= k < vls@.len() && 0 <= j < vls@[k]@.len() ==> vls@[k]@[j].wf(*s),
            forall|k: int, j: int|
                #![auto]
                0 <= k < vls@.len() && 0 <= j < vls@[k]@.len() ==> vls@[k]@[j].absent_fields_default(
                    *s,
                ),
        decreases ks@.len() - i,
    {
        let ghost pp = *pos;
        let ghost gvls = vls@;
        let vs = decode_vertices(bytes, pos, ks[i].vertices_num, s)?;
        vls.push(vs);
        proof {
            lemma_stitch(bytes@, o as int, pp as int, *pos as int);
            assert(vls@.drop_last() =~= gvls);
        }
        i = i + 1;
    }
    Ok(vls)
}

/// Reads one triangle at the document-global index width.
fn decode_triangle(bytes: &Vec<u8>, pos: &mut usize, wide: bool) -> (r: Result<
    SiaTriangle,
    SiaParseError,
>)
    requires
        *old(pos) <= bytes@.len(),
    ensures
        r matches Ok(t) ==> {
            &&& *final(pos) <= bytes@.len()
            &&& *old(pos) <= *final(pos)
            &&& bytes@.subrange(*old(pos) as int, *final(pos) as int) == ser_triangle(t, wide)
            &&& (!wide ==> t.0 <= 0xFFFF && t.1 <= 0xFFFF && t.2 <= 0xFFFF)
        },
        r matches Err(e) ==> e matches SiaParseError::UnexpectedEof { .. },
{
    let o = *pos;
    let t = if wide {
        let a = read_u32(bytes, pos)?;
        let b = read_u32(bytes, pos)?;
        let c = read_u32(bytes, pos)?;
        SiaTriangle(a, b, c)
    } else {
        let a = read_u16(bytes, pos)?;
        let b = read_u16(bytes, pos)?;
        let c = read_u16(bytes, pos)?;
        SiaTriangle(a as u32, b as u32, c as u32)
    };
    proof {
        assert(bytes@.subrange(o as int, *pos as int) =~= ser_triangle(t, wide));
    }
    Ok(t)
}

/// Reads the triangle stream of one mesh, rejecting any index at or beyond
/// the mesh's vertex count.
fn decode_triangles(
    bytes: &Vec<u8>,
    pos: &mut usize,
    n: u32,
    wide: bool,
    vertices: u32,
) -> (r: Result<Vec<SiaTriangle>, SiaParseError>)
    requires
        *old(pos) <= bytes@.len(),
    ensures
        r matches Ok(ts) ==> {
            &&& ts@.len() == n
            &&& *final(pos) <= bytes@.len()
            &&& *old(pos) <= *final(pos)
            &&& bytes@.subrange(*old(pos) as int, *final(pos) as int) == ser_triangles(ts@, wide)
            &&& forall|i: int| 0 <= i < ts@.len() ==> (#[trigger] ts@[i]).wf(vertices as int)
            &&& (!wide ==> forall|i: int|
                0 <= i < ts@.len() ==> (#[trigger] ts@[i]).0 <= 0xFFFF && ts@[i].1 <= 0xFFFF
                    && ts@[i].2 <= 0xFFFF)
        },
        r matches Err(e) ==> e matches SiaParseError::UnexpectedEof { .. } || (e matches
            SiaParseError::FaceVertexIndexOutOfRange { index, vertices: found, .. } && found
            == vertices && index >= vertices),
{
    let o = *pos;
    let mut ts: Vec<SiaTriangle> = Vec::new();
    let mut i: u32 = 0;
    while i < n
        invariant
            i <= n,
            ts@.len() == i,
            *pos <= bytes@.len(),
            o <= *pos,
            bytes@.subrange(o as int, *pos as int) == ser_triangles(ts@, wide),
            forall|j: int| 0 <= j < ts@.len() ==> (#[trigger] ts@[j]).wf(vertices as int),
            !wide ==> forall|j: int|
                0 <= j < ts@.len() ==> (#[trigger] ts@[j]).0 <= 0xFFFF && ts@[j].1 <= 0xFFFF
                    && ts@[j].2 <= 0xFFFF,
        decreases n - i,
    {
        let ghost pp = *pos;
        let ghost gts = ts@;
        let start = *pos;
        let t = decode_triangle(bytes, pos, wide)?;
        if t.0 >= vertices {
            return Err(
                SiaParseError::FaceVertexIndexOutOfRange { index: t.0, vertices, offset: start },
            );
        }
        if t.1 >= vertices {
            return Err(
                SiaParseError::FaceVertexIndexOutOfRange { index: t.1, vertices, offset: start },
            );
        }
        if t.2 >= vertices {
            return Err(
                SiaParseError::FaceVertexIndexOutOfRange { index: t.2, vertices, offset: start },
            );
        }
        ts.push(t);
        proof {
            lemma_stitch(bytes@, o as int, pp as int, *pos as int);
            assert(ts@.drop_last() =~= gts);
        }
        i = i + 1;
    }
    Ok(ts)
}

/// Reads the triangle streams of all meshes, one per stored header, all at
/// one document-global width.
fn decode_triangle_streams(
    bytes: &Vec<u8>,
    pos: &mut usize,
    ks: &Vec<MeshSkel>,
    wide: bool,
) -> (r: Result<Vec<Vec<SiaTriangle>>, SiaParseError>)
    requires
        *old(pos) <= bytes@.len(),
    ensures
        r matches Ok(tls) ==> {
            &&& tls@.len() == ks@.len()
            &&& *final(pos) <= bytes@.len()
            &&& *old(pos) <= *final(pos)
            &&& bytes@.subrange(*old(pos) as int, *final(pos) as int) == ser_triangle_lists(
                tls@,
                wide,
            )
            &&& forall|i: int| 0 <= i < tls@.len() ==> (#[trigger] tls@[i])@.len() == ks@[i].triangles_num
            &&& forall|i: int, j: int|
                #![auto]
                0 <= i < tls@.len() && 0 <= j < tls@[i]@.len() ==> tls@[i]@[j].wf(
                    ks@[i].vertices_num as int,
                )
        },
        r matches Err(e) ==> e matches SiaParseError::UnexpectedEof { .. } || (e matches
            SiaParseError::FaceVertexIndexOutOfRange { index, vertices, .. } && index >= vertices),
        ks@.len() == 0 ==> r is Ok,
{
    let o = *pos;
    let mut tls: Vec<Vec<SiaTriangle>> = Vec::new();
    let mut i: usize = 0;
    while i < ks.len()
        invariant
            i <= ks@.len(),
            tls@.len() == i,
            *pos <= bytes@.len(),
            o <= *pos,
            bytes@.subrange(o as int, *pos as int) == ser_triangle_lists(tls@, wide),
            forall|k: int| 0 <= k < tls@.len() ==> (#[trigger] tls@[k])@.len() == ks@[k].triangles_num,
            forall|k: int, j: int|
                #![auto]
                0 <= k < tls@.len() && 0 <= j < tls@[k]@.len() ==> tls@[k]@[j].wf(
                    ks@[k].vertices_num as int,
                ),
        decreases ks@.len() - i,
    {
        let ghost pp = *pos;
        let ghost gtls = tls@;
        let ts = decode_triangles(bytes, pos, ks[i].triangles_num, wide, ks[i].vertices_num)?;
        tls.push(ts);
        proof {
            lemma_stitch(bytes@, o as int, pp as int, *pos as int);
            assert(tls@.drop_last() =~= gtls);
        }
        i = i + 1;
    }
    Ok(tls)
}

/// Reads the opaque 56-byte bone records.
fn decode_bones(bytes: &Vec<u8>, pos: &mut usize, count: u32) -> (r: Result<
    Vec<SiaBone>,
    SiaParseError,
>)
    requires
        *old(pos) <= bytes@.len(),
    ensures
        r matches Ok(bs) ==> {
            &&& bs@.len() == count
            &&& *final(pos) <= bytes@.len()
            &&& *old(pos) <= *final(pos)
            &&& bytes@.subrange(*old(pos) as int, *final(pos) as int) == ser_bones(bs@)
            &&& forall|i: int| 0 <= i < bs@.len() ==> (#[trigger] bs@[i]).data@.len() == 56
        },
        r matches Err(e) ==> e matches SiaParseError::UnexpectedEof { .. },
{
    let o = *pos;
    let mut bs: Vec<SiaBone> = Vec::new();
    let mut i: u32 = 0;
    while i < count
        invariant
            i <= count,
            bs@.len() == i,
            *pos <= bytes@.len(),
            o <= *pos,
            bytes@.subrange(o as int, *pos as int) == ser_bones(bs@),
            forall|j: int| 0 <= j < bs@.len() ==> (#[trigger] bs@[j]).data@.len() == 56,
        decreases count - i,
    {
        let ghost pp = *pos;
        let ghost gbs = bs@;
        let data = read_bytes(bytes, pos, 56)?;
        bs.push(SiaBone { data });
        proof {
            lemma_stitch(bytes@, o as int, pp as int, *pos as int);
            assert(bs@.drop_last() =~= gbs);
        }
        i = i + 1;
    }
    Ok(bs)
}

/// Reads the terminal record. The kind byte, the kind string and the
/// `mesh_type` sub-type byte are each closed sets; anything outside them is
/// rejected with the error naming the offending value and offset.
fn decode_end(bytes: &Vec<u8>, pos: &mut usize) -> (r: Result<EndKind, SiaParseError>)
    requires
        *old(pos) <= bytes@.len(),
    ensures
        r matches Ok(e) ==> {
            &&& e.wf()
            &&& *final(pos) <= bytes@.len()
            &&& *old(pos) <= *final(pos)
            &&& bytes@.subrange(*old(pos) as int, *final(pos) as int) == ser_end(e)
        },
        r matches Err(e) ==> (e matches SiaParseError::UnexpectedEof { .. } || (e matches
            SiaParseError::UnknownTerminalRecordKind { value, offset } && !(value == 0 || value
            == 2 || value == 42) && offset == *old(pos) && offset < bytes@.len() && bytes@[offset
            as int] == value) || (e matches SiaParseError::UnknownKindType { kind, offset } && kind@
            != kind_mesh_type() && kind@ != crate::wire::kind_is_banner() && kind@
            != crate::wire::kind_is_comp_banner() && kind@ != crate::wire::kind_is_match_ball()
            && kind@ != crate::wire::kind_is_team_logo() && offset + 1 + kind@.len()
            <= bytes@.len() && bytes@.subrange(offset as int, offset + 1 + kind@.len())
            == crate::wire::ser_str8(kind@)) || (e matches SiaParseError::UnknownMeshSubType {
            value,
            offset,
        } && !(value == 2 || value == 8 || value == 88 || value == 152 || value == 136 || value
            == 216 || value == 232 || value == 248) && offset < bytes@.len() && bytes@[offset
            as int] == value)),
        bytes@.len() > *old(pos) && bytes@[*old(pos) as int] == 0 ==> r is Ok,
        bytes@.len() > *old(pos) && !(bytes@[*old(pos) as int] == 0 || bytes@[*old(pos) as int]
            == 2 || bytes@[*old(pos) as int] == 42) ==> (r matches
        Err(SiaParseError::UnknownTerminalRecordKind { value, offset }) ==> value == bytes@[*old(
            pos,
        ) as int] && offset == *old(pos)) && (r matches Err(
            SiaParseError::UnknownTerminalRecordKind { .. },
        )),
{
    let o = *pos;
    let kind_byte = read_u8(bytes, pos)?;
    proof {
        assert(bytes@.subrange(o as int, o + 1 as int)[0] == bytes@[o as int]);
    }
    if kind_byte == 0 {
        let e = EndKind::Unknown;
        proof {
            assert(bytes@.subrange(o as int, *pos as int) =~= ser_end(e));
        }
        Ok(e)
    } else if kind_byte == 2 {
        let data = read_bytes(bytes, pos, 16)?;
        let e = EndKind::Opaque16(data);
        proof {
            lemma_stitch(bytes@, o as int, o + 1 as int, *pos as int);
            assert(bytes@.subrange(o as int, *pos as int) == ser_end(e));
        }
        Ok(e)
    } else if kind_byte == 42 {
        let p1 = *pos;
        let kind = read_str8(bytes, pos)?;
        let p2 = *pos;
        if bytes_eq(&kind, &exec_kind_mesh_type()) {
            let sub = read_u8(bytes, pos)?;
            let ghost p3 = *pos;
            let mt = if sub == 2 {
                let blob = read_bytes(bytes, pos, 4)?;
                let ghost pm = *pos;
                let s = read_str8(bytes, pos)?;
                proof {
                    lemma_stitch(bytes@, p3 as int, pm as int, *pos as int);
                }
                MeshType::RenderFlags(blob, s)
            } else if sub == 8 {
                let s = read_str32(bytes, pos)?;
                MeshType::VariableLength(s)
            } else if sub == 88 {
                MeshType::BodyPart(read_bytes(bytes, pos, 4)?)
            } else if sub == 152 {
                MeshType::RearCap(read_bytes(bytes, pos, 8)?)
            } else if sub == 136 {
                MeshType::Glasses(read_bytes(bytes, pos, 7)?)
            } else if sub == 216 {
                MeshType::StadiumRoof(read_bytes(bytes, pos, 12)?)
            } else if sub == 232 {
                MeshType::PlayerTunnel(read_bytes(bytes, pos, 13)?)
            } else if sub == 248 {
                MeshType::SideCap(read_bytes(bytes, pos, 14)?)
            } else {
                proof {
                    assert(bytes@.subrange(p2 as int, p2 + 1 as int)[0] == bytes@[p2 as int]);
                }
                return Err(SiaParseError::UnknownMeshSubType { value: sub, offset: p2 });
            };
            let e = EndKind::MeshType(mt);
            proof {
                lemma_stitch(bytes@, o as int, o + 1 as int, p2 as int);
                lemma_stitch(bytes@, o as int, p2 as int, p3 as int);
                lemma_stitch(bytes@, o as int, p3 as int, *pos as int);
                assert(bytes@.subrange(o as int, o + 1 as int) =~= seq![42u8]);
                assert(bytes@.subrange(p2 as int, p3 as int) =~= seq![
                    crate::wire::mesh_type_byte(e->MeshType_0),
                ]);
                assert(bytes@.subrange(o as int, *pos as int) == ser_end(e));
            }
            Ok(e)
        } else if bytes_eq(&kind, &exec_kind_is_banner()) {
            let v = read_u8(bytes, pos)?;
            let e = EndKind::IsBanner(v);
            proof {
                lemma_stitch(bytes@, o as int, o + 1 as int, p2 as int);
                lemma_stitch(bytes@, o as int, p2 as int, *pos as int);
                assert(bytes@.subrange(o as int, o + 1 as int) =~= seq![42u8]);
                assert(bytes@.subrange(o as int, *pos as int) == ser_end(e));
            }
            Ok(e)
        } else if bytes_eq(&kind, &exec_kind_is_comp_banner()) {
            let v = read_u8(bytes, pos)?;
            let e = EndKind::IsCompBanner(v);
            proof {
                lemma_stitch(bytes@, o as int, o + 1 as int, p2 as int);
                lemma_stitch(bytes@, o as int, p2 as int, *pos as int);
                assert(bytes@.subrange(o as int, o + 1 as int) =~= seq![42u8]);
                assert(bytes@.subrange(o as int, *pos as int) == ser_end(e));
            }
            Ok(e)
        } else if bytes_eq(&kind, &exec_kind_is_match_ball()) {
            let v = read_u8(bytes, pos)?;
            let e = EndKind::IsMatchBall(v);
            proof {
                lemma_stitch(bytes@, o as int, o + 1 as int, p2 as int);
                lemma_stitch(bytes@, o as int, p2 as int, *pos as int);
                assert(bytes@.subrange(o as int, o + 1 as int) =~= seq![42u8]);
                assert(bytes@.subrange(o as int, *pos as int) == ser_end(e));
            }
            Ok(e)
        } else if bytes_eq(&kind, &exec_kind_is_team_logo()) {
            let v = read_u8(bytes, pos)?;
            let e = EndKind::IsTeamLogo(v);
            proof {
                lemma_stitch(bytes@, o as int, o + 1 as int, p2 as int);
                lemma_stitch(bytes@, o as int, p2 as int, *pos as int);
                assert(bytes@.subrange(o as int, o + 1 as int) =~= seq![42u8]);
                assert(bytes@.subrange(o as int, *pos as int) == ser_end(e));
            }
            Ok(e)
        } else {
            Err(SiaParseError::UnknownKindType { kind, offset: p1 })
        }
    } else {
        Err(SiaParseError::UnknownTerminalRecordKind { value: kind_byte, offset: o })
    }
}

/// Reads one placement record: kind, 14 float entries, a 24-byte blob, the
/// group count, the position groups (four vectors each), and two strings.
fn decode_instance(bytes: &Vec<u8>, pos: &mut usize) -> (r: Result<SiaInstance, SiaParseError>)
    requires
        *old(pos) <= bytes@.len(),
    ensures
        r matches Ok(i) ==> {
            &&& i.wf()
            &&& *final(pos) <= bytes@.len()
            &&& *old(pos) <= *final(pos)
            &&& bytes@.subrange(*old(pos) as int, *final(pos) as int) == ser_instance(i)
        },
        r matches Err(e) ==> e matches SiaParseError::UnexpectedEof { .. },
{
    let o = *pos;
    let kind = read_u32(bytes, pos)?;
    let ghost p1 = *pos;
    let matrix_values_and_unknown = decode_u32s(bytes, pos, 14)?;
    let ghost p2 = *pos;
    let unknown = read_bytes(bytes, pos, 24)?;
    let ghost p3 = *pos;
    let num1 = read_u32(bytes, pos)?;
    let ghost p4 = *pos;
    let mut positions: Vec<SiaVector3> = Vec::new();
    let mut g: u32 = 0;
    while g < num1
        invariant
            g <= num1,
            positions@.len() == 4 * g,
            *pos <= bytes@.len(),
            p4 <= *pos,
            bytes@.subrange(p4 as int, *pos as int) == ser_vec3s(positions@),
        decreases num1 - g,
    {
        let mut j: u32 = 0;
        while j < 4
            invariant
                j <= 4,
                g < num1,
                positions@.len() == 4 * g + j,
                *pos <= bytes@.len(),
                p4 <= *pos,
                bytes@.subrange(p4 as int, *pos as int) == ser_vec3s(positions@),
            decreases 4 - j,
        {
            let ghost pp = *pos;
            let ghost gps = positions@;
            let v = decode_vec3(bytes, pos)?;
            positions.push(v);
            proof {
                lemma_stitch(bytes@, p4 as int, pp as int, *pos as int);
                assert(positions@.drop_last() =~= gps);
            }
            j = j + 1;
        }
        g = g + 1;
    }
    let ghost p5 = *pos;
    let name = read_str32(bytes, pos)?;
    let ghost p6 = *pos;
    let path = read_str32(bytes, pos)?;
    let inst = SiaInstance { kind, matrix_values_and_unknown, unknown, num1, positions, name, path };
    proof {
        lemma_stitch(bytes@, o as int, p1 as int, p2 as int);
        lemma_stitch(bytes@, o as int, p2 as int, p3 as int);
        lemma_stitch(bytes@, o as int, p3 as int, p4 as int);
        lemma_stitch(bytes@, o as int, p4 as int, p5 as int);
        lemma_stitch(bytes@, o as int, p5 as int, p6 as int);
        lemma_stitch(bytes@, o as int, p6 as int, *pos as int);
        assert((4 * num1 as int) / 4 == num1 as int);
        assert(bytes@.subrange(o as int, *pos as int) == ser_instance(inst));
    }
    Ok(inst)
}

/// Reads the placement records.
fn decode_instances(bytes: &Vec<u8>, pos: &mut usize, count: u32) -> (r: Result<
    Vec<SiaInstance>,
    SiaParseError,
>)
    requires
        *old(pos) <= bytes@.len(),
    ensures
        r matches Ok(is) ==> {
            &&& is@.len() == count
            &&& *final(pos) <= bytes@.len()
            &&& *old(pos) <= *final(pos)
            &&& bytes@.subrange(*old(pos) as int, *final(pos) as int) == ser_instances(is@)
            &&& forall|i: int| 0 <= i < is@.len() ==> (#[trigger] is@[i]).wf()
        },
        r matches Err(e) ==> e matches SiaParseError::UnexpectedEof { .. },
        count == 0 ==> r is Ok,
{
    let o = *pos;
    let mut is: Vec<SiaInstance> = Vec::new();
    let mut i: u32 = 0;
    while i < count
        invariant
            i <= count,
            is@.len() == i,
            *pos <= bytes@.len(),
            o <= *pos,
            bytes@.subrange(o as int, *pos as int) == ser_instances(is@),
            forall|j: int| 0 <= j < is@.len() ==> (#[trigger] is@[j]).wf(),
        decreases count - i,
    {
        let ghost pp = *pos;
        let ghost gis = is@;
        let inst = decode_instance(bytes, pos)?;
        is.push(inst);
        proof {
            lemma_stitch(bytes@, o as int, pp as int, *pos as int);
            assert(is@.drop_last() =~= gis);
        }
        i = i + 1;
    }
    Ok(is)
}

/// Extending a prefix of stored headers by one adds its vertex count.
proof fn lemma_skel_vertex_take_succ(ks: Seq<MeshSkel>, i: int)
    requires
        0 <= i < ks.len(),
    ensures
        skel_vertex_total(ks.take(i + 1)) == skel_vertex_total(ks.take(i)) + ks[i].vertices_num,
{
    assert(ks.take(i + 1).drop_last() =~= ks.take(i));
    assert(ks.take(i + 1).last() == ks[i]);
}

/// A prefix never counts more vertices than the whole.
proof fn lemma_skel_vertex_take_le(ks: Seq<MeshSkel>, i: int)
    requires
        0 <= i <= ks.len(),
    ensures
        skel_vertex_total(ks.take(i)) <= skel_vertex_total(ks),
    decreases ks.len() - i,
{
    if i == ks.len() {
        assert(ks.take(i) =~= ks);
    } else {
        lemma_skel_vertex_take_succ(ks, i);
        lemma_skel_vertex_take_le(ks, i + 1);
    }
}

/// Extending a prefix of stored headers by one adds its triangle count.
proof fn lemma_skel_triangle_take_succ(ks: Seq<MeshSkel>, i: int)
    requires
        0 <= i < ks.len(),
    ensures
        skel_triangle_total(ks.take(i + 1)) == skel_triangle_total(ks.take(i)) + ks[i].triangles_num,
{
    assert(ks.take(i + 1).drop_last() =~= ks.take(i));
    assert(ks.take(i + 1).last() == ks[i]);
}

/// A prefix never counts more triangles than the whole.
proof fn lemma_skel_triangle_take_le(ks: Seq<MeshSkel>, i: int)
    requires
        0 <= i <= ks.len(),
    ensures
        skel_triangle_total(ks.take(i)) <= skel_triangle_total(ks),
    decreases ks.len() - i,
{
    if i == ks.len() {
        assert(ks.take(i) =~= ks);
    } else {
        lemma_skel_triangle_take_succ(ks, i);
        lemma_skel_triangle_take_le(ks, i + 1);
    }
}

/// Sums the vertex counts of the stored headers; `None` when the sum leaves
/// the 32-bit range, in which case it can match no stored total.
fn skel_vertex_sum(ks: &Vec<MeshSkel>) -> (r: Option<u32>)
    ensures
        r matches Some(v) ==> v == skel_vertex_total(ks@),
        r is None ==> skel_vertex_total(ks@) > u32::MAX,
{
    let mut sum: u32 = 0;
    let mut i: usize = 0;
    while i < ks.len()
        invariant
            i <= ks@.len(),
            sum == skel_vertex_total(ks@.take(i as int)),
        decreases ks@.len() - i,
    {
        let v = ks[i].vertices_num;
        proof {
            lemma_skel_vertex_take_succ(ks@, i as int);
        }
        if v > u32::MAX - sum {
            proof {
                lemma_skel_vertex_take_le(ks@, i + 1 as int);
            }
            return None;
        }
        sum = sum + v;
        i = i + 1;
    }
    proof {
        assert(ks@.take(ks@.len() as int) =~= ks@);
    }
    Some(sum)
}

/// Sums the triangle counts of the stored headers; `None` when the sum
/// leaves the 32-bit range.
fn skel_triangle_sum(ks: &Vec<MeshSkel>) -> (r: Option<u32>)
    ensures
        r matches Some(v) ==> v == skel_triangle_total(ks@),
        r is None ==> skel_triangle_total(ks@) > u32::MAX,
{
    let mut sum: u32 = 0;
    let mut i: usize = 0;
    while i < ks.len()
        invariant
            i <= ks@.len(),
            sum == skel_triangle_total(ks@.take(i as int)),
        decreases ks@.len() - i,
    {
        let v = ks[i].triangles_num;
        proof {
            lemma_skel_triangle_take_succ(ks@, i as int);
        }
        if v > u32::MAX - sum {
            proof {
                lemma_skel_triangle_take_le(ks@, i + 1 as int);
            }
            return None;
        }
        sum = sum + v;
        i = i + 1;
    }
    proof {
        assert(ks@.take(ks@.len() as int) =~= ks@);
    }
    Some(sum)
}

/// The mesh assembled from its four decoded sections.
spec fn mesh_from_parts(
    k: MeshSkel,
    d: MeshDetail,
    vs: Vec<SiaVertex>,
    ts: Vec<SiaTriangle>,
) -> SiaMesh {
    SiaMesh {
        materials_num: d.materials@.len() as u8,
        vertices_num: k.vertices_num,
        triangles_num: k.triangles_num,
        vertex_offset: k.vertex_offset,
        triangle_offset: k.triangle_offset,
        id: k.id,
        unknown: k.unknown,
        maybe_hash: d.maybe_hash,
        unknown1: d.unknown1,
        unknown2: d.unknown2,
        unknown3: d.unknown3,
        unknown4: d.unknown4,
        material_type: d.material_type,
        materials: d.materials,
        vertices: vs,
        triangles: ts,
    }
}

/// Meshes assembled from the four section lists serialize, section by
/// section, to the very bytes those sections were decoded from, and their
/// totals are the stored header totals.
proof fn lemma_assemble(
    ms: Seq<SiaMesh>,
    ks: Seq<MeshSkel>,
    ds: Seq<MeshDetail>,
    vls: Seq<Vec<SiaVertex>>,
    tls: Seq<Vec<SiaTriangle>>,
    s: SiaSettings,
    wide: bool,
)
    requires
        ms.len() == ks.len(),
        ms.len() == ds.len(),
        ms.len() == vls.len(),
        ms.len() == tls.len(),
        forall|j: int|
            0 <= j < ms.len() ==> #[trigger] ms[j] == mesh_from_parts(ks[j], ds[j], vls[j], tls[j]),
        forall|j: int| 0 <= j < ms.len() ==> (#[trigger] vls[j])@.len() == ks[j].vertices_num,
        forall|j: int| 0 <= j < ms.len() ==> (#[trigger] tls[j])@.len() == ks[j].triangles_num,
    ensures
        ser_mesh_skeletons(ms) == ser_skels(ks),
        ser_mesh_details(ms) == ser_details(ds),
        ser_mesh_vertices(ms, s) == ser_vertex_lists(vls, s),
        ser_mesh_triangles(ms, wide) == ser_triangle_lists(tls, wide),
        total_vertices(ms) == skel_vertex_total(ks),
        total_triangles(ms) == skel_triangle_total(ks),
    decreases ms.len(),
{
    if ms.len() > 0 {
        let n = ms.len() - 1;
        lemma_assemble(
            ms.drop_last(),
            ks.drop_last(),
            ds.drop_last(),
            vls.drop_last(),
            tls.drop_last(),
            s,
            wide,
        );
        assert(ms[n] == mesh_from_parts(ks[n], ds[n], vls[n], tls[n]));
        assert(ser_mesh_skeleton(ms.last()) == ser_skel(ks.last()));
        crate::wire::seq_concat_assoc(
            ser_mesh_details(ms.drop_last()),
            ser_mesh_detail(ms.last()),
            ms.last().unknown4@,
        );
        assert(ser_mesh_detail(ms.last()) + ms.last().unknown4@ == ser_detail(ds.last()));
    }
}

/// Reads the skinning section: the 0/1 flag (any other stored value is
/// rejected), the bone count, and — when skinned — the root hash and the
/// bone records, whose number must match the count.
fn decode_skinning(bytes: &Vec<u8>, pos: &mut usize) -> (r: Result<
    (bool, u32, Vec<u8>, Vec<SiaBone>),
    SiaParseError,
>)
    requires
        *old(pos) <= bytes@.len(),
    ensures
        r matches Ok(t) ==> {
            &&& *final(pos) <= bytes@.len()
            &&& *old(pos) <= *final(pos)
            &&& bytes@.subrange(*old(pos) as int, *final(pos) as int)
                == crate::wire::ser_skinning_parts(t.0, t.1, t.2@, t.3@)
            &&& (t.0 ==> t.2@.len() == 4 && t.3@.len() == t.1 && forall|i: int|
                0 <= i < t.3@.len() ==> (#[trigger] t.3@[i]).data@.len() == 56)
            &&& (!t.0 ==> t.3@.len() == 0 && t.2@.len() == 0)
        },
        r matches Err(e) ==> e matches SiaParseError::UnexpectedEof { .. } || (e matches
            SiaParseError::InconsistentCount { stored, expected, .. } && stored > 1 && expected
            == 1),
        bytes@.len() - *old(pos) >= 8 && bytes@.subrange(*old(pos) as int, *old(pos) + 4 as int)
            == le32(0) ==> r is Ok,
{
    let o = *pos;
    let flag = read_u32(bytes, pos)?;
    proof {
        vstd::bytes::lemma_auto_spec_u32_to_from_le_bytes();
    }
    if flag > 1 {
        proof {
            if bytes@.subrange(o as int, o + 4 as int) == le32(0) {
                assert(le32(flag).len() == 4);
                assert(le32(0).len() == 4);
                assert(vstd::bytes::spec_u32_from_le_bytes(le32(flag)) == flag);
                assert(vstd::bytes::spec_u32_from_le_bytes(le32(0)) == 0);
            }
        }
        return Err(SiaParseError::InconsistentCount { stored: flag, expected: 1, offset: o });
    }
    let is_skinned = flag == 1;
    let ghost p1 = *pos;
    let number_of_bones = read_u32(bytes, pos)?;
    let ghost p2 = *pos;
    let mut hash: Vec<u8> = Vec::new();
    let mut bones: Vec<SiaBone> = Vec::new();
    if is_skinned {
        hash = read_bytes(bytes, pos, 4)?;
        let ghost pm = *pos;
        bones = decode_bones(bytes, pos, number_of_bones)?;
        proof {
            lemma_stitch(bytes@, p2 as int, pm as int, *pos as int);
        }
    }
    proof {
        lemma_stitch(bytes@, o as int, p1 as int, p2 as int);
        lemma_stitch(bytes@, o as int, p2 as int, *pos as int);
        assert(bytes@.subrange(o as int, *pos as int) == crate::wire::ser_skinning_parts(
            is_skinned,
            number_of_bones,
            hash@,
            bones@,
        ));
    }
    Ok((is_skinned, number_of_bones, hash, bones))
}

/// A well-formed document whose tables are all empty: no meshes, no
/// skinning, no placement records, and an absent terminal record. Its
/// serialization is the scalar sections alone, so [`decode`] owes success on
/// any buffer such a document serializes to.
pub open spec fn plain_document(f: SiaFile) -> bool {
    &&& f.wf()
    &&& f.meshes@.len() == 0
    &&& !f.is_skinned
    &&& f.instances@.len() == 0
    &&& f.end == EndKind::Unknown
}

/// In a buffer that starts with `a + b`, the bytes up to `a.len()` are `a`
/// and the bytes from there to `hi` are `b`.
proof fn lemma_chunk(bytes: Seq<u8>, a: Seq<u8>, b: Seq<u8>, hi: int)
    requires
        hi == a.len() + b.len(),
        hi <= bytes.len(),
        bytes.subrange(0, hi) == a + b,
    ensures
        bytes.subrange(0, a.len() as int) == a,
        bytes.subrange(a.len() as int, hi) == b,
{
    assert forall|i: int| 0 <= i < a.len() implies bytes.subrange(0, a.len() as int)[i]
        == a[i] by {
        assert(bytes.subrange(0, hi)[i] == (a + b)[i]);
    }
    assert(bytes.subrange(0, a.len() as int) =~= a);
    assert forall|i: int| 0 <= i < b.len() implies bytes.subrange(a.len() as int, hi)[i]
        == b[i] by {
        assert(bytes.subrange(a.len() as int, hi)[i] == bytes[a.len() + i]);
        assert(bytes.subrange(0, hi)[a.len() + i] == bytes[a.len() + i]);
        assert(bytes.subrange(0, hi)[a.len() + i] == (a + b)[a.len() + i]);
        assert((a + b)[a.len() + i] == b[i]);
    }
    assert(bytes.subrange(a.len() as int, hi) =~= b);
}

/// Little-endian words are injective: equal byte sequences mean equal values.
proof fn lemma_le32_injective(a: u32, b: u32)
    requires
        le32(a) == le32(b),
    ensures
        a == b,
{
    vstd::bytes::lemma_auto_spec_u32_to_from_le_bytes();
    assert(le32(a).len() == 4);
    assert(le32(b).len() == 4);
    assert(vstd::bytes::spec_u32_from_le_bytes(le32(a)) == a);
    assert(vstd::bytes::spec_u32_from_le_bytes(le32(b)) == b);
}

/// A range that holds a word followed by a rest starts with that word.
proof fn lemma_first_word(bytes: Seq<u8>, lo: int, hi: int, v: u32, rest: Seq<u8>)
    requires
        0 <= lo <= hi <= bytes.len(),
        bytes.subrange(lo, hi) == le32(v) + rest,
    ensures
        lo + 4 <= hi,
        bytes.subrange(lo, lo + 4) == le32(v),
{
    vstd::bytes::lemma_auto_spec_u32_to_from_le_bytes();
    assert(le32(v).len() == 4);
    assert(bytes.subrange(lo, hi).len() == hi - lo);
    assert((le32(v) + rest).len() == 4 + rest.len());
    assert(lo + 4 <= hi);
    assert forall|i: int| 0 <= i < 4 implies bytes.subrange(lo, lo + 4)[i] == le32(v)[i] by {
        assert(bytes.subrange(lo, lo + 4)[i] == bytes[lo + i]);
        assert(bytes.subrange(lo, hi)[i] == bytes[lo + i]);
        assert(bytes.subrange(lo, hi)[i] == (le32(v) + rest)[i]);
        assert((le32(v) + rest)[i] == le32(v)[i]);
    }
    assert(bytes.subrange(lo, lo + 4) =~= le32(v));
}

/// The six bounding-box words occupy 24 bytes.
proof fn lemma_bbox_len(b: BoundingBox)
    ensures
        crate::wire::ser_bbox(b).len() == 24,
{
    vstd::bytes::lemma_auto_spec_u32_to_from_le_bytes();
    assert(le32(b.min_x).len() == 4);
    assert(le32(b.min_y).len() == 4);
    assert(le32(b.min_z).len() == 4);
    assert(le32(b.max_x).len() == 4);
    assert(le32(b.max_y).len() == 4);
    assert(le32(b.max_z).len() == 4);
}

/// A terminal record whose first wire byte is zero is the absent record.
proof fn lemma_end_absent(e: EndKind)
    requires
        ser_end(e).len() > 0,
        ser_end(e)[0] == 0,
    ensures
        e == EndKind::Unknown,
        ser_end(e) == seq![0u8],
{
    match e {
        EndKind::Unknown => {},
        EndKind::Opaque16(d) => {
            assert(ser_end(e)[0] == 2);
        },
        EndKind::MeshType(mt) => {
            assert(ser_end(e)[0] == 42);
        },
        EndKind::IsBanner(v) => {
            assert(ser_end(e)[0] == 42);
        },
        EndKind::IsCompBanner(v) => {
            assert(ser_end(e)[0] == 42);
        },
        EndKind::IsMatchBall(v) => {
            assert(ser_end(e)[0] == 42);
        },
        EndKind::IsTeamLogo(v) => {
            assert(ser_end(e)[0] == 42);
        },
    }
}

/// The byte layout of a table-free document's serialization: the buffer is
/// 89 bytes plus the name, and every count field, the terminal byte and the
/// framing tags sit at fixed offsets from the name length.
proof fn lemma_plain_layout(bytes: Seq<u8>, w: SiaFile)
    requires
        plain_document(w),
        ser_file(w) == bytes,
    ensures
        w.name@.len() <= u32::MAX,
        bytes.len() == 89 + w.name@.len(),
        bytes.subrange(0, 4) == header_tag(),
        bytes.subrange(8, 12) == le32(w.name@.len() as u32),
        bytes.subrange(52 + w.name@.len() as int, 56 + w.name@.len() as int) == le32(0),
        bytes.subrange(56 + w.name@.len() as int, 60 + w.name@.len() as int) == le32(0),
        bytes.subrange(60 + w.name@.len() as int, 64 + w.name@.len() as int) == le32(0),
        bytes.subrange(68 + w.name@.len() as int, 72 + w.name@.len() as int) == le32(0),
        bytes.subrange(72 + w.name@.len() as int, 76 + w.name@.len() as int) == le32(0),
        bytes[80 + w.name@.len() as int] == 0,
        bytes.subrange(81 + w.name@.len() as int, 85 + w.name@.len() as int) == le32(0),
        bytes.subrange(85 + w.name@.len() as int, 89 + w.name@.len() as int) == footer_tag(),
{
    vstd::bytes::lemma_auto_spec_u32_to_from_le_bytes();
    let nl = w.name@.len() as int;
    assert(ser_mesh_skeletons(w.meshes@) == Seq::<u8>::empty());
    assert(ser_mesh_details(w.meshes@) == Seq::<u8>::empty());
    assert(ser_mesh_vertices(w.meshes@, w.settings) == Seq::<u8>::empty());
    assert(ser_mesh_triangles(w.meshes@, w.wide_indices()) == Seq::<u8>::empty());
    assert(ser_instances(w.instances@) == Seq::<u8>::empty());
    assert(total_vertices(w.meshes@) == 0);
    assert(total_triangles(w.meshes@) == 0);
    assert(ser_end(w.end) == seq![0u8]);
    assert(le32(w.version_maybe).len() == 4);
    assert(le32(w.maybe_scale).len() == 4);
    assert(le32(w.meshes@.len() as u32).len() == 4);
    assert(le32(total_vertices(w.meshes@) as u32).len() == 4);
    assert(le32(settings_to_bits(w.settings)).len() == 4);
    assert(le32((total_triangles(w.meshes@) * 3) as u32).len() == 4);
    assert(le32(w.number_of_bones).len() == 4);
    assert(le32(w.instances@.len() as u32).len() == 4);
    assert(le32(0).len() == 4);
    assert(le32(w.name@.len() as u32).len() == 4);
    assert(le32(w.bounding_box.min_x).len() == 4);
    assert(le32(w.bounding_box.min_y).len() == 4);
    assert(le32(w.bounding_box.min_z).len() == 4);
    assert(le32(w.bounding_box.max_x).len() == 4);
    assert(le32(w.bounding_box.max_y).len() == 4);
    assert(le32(w.bounding_box.max_z).len() == 4);
    assert(ser_bbox(w.bounding_box).len() == 24);
    assert(ser_str32(w.name@).len() == 4 + nl);
    assert(ser_skinning(w) == le32(0) + le32(w.number_of_bones) + Seq::<u8>::empty());
    assert(ser_skinning(w).len() == 8);
    let s1 = header_tag();
    let s2 = s1 + le32(w.version_maybe);
    let s3 = s2 + ser_str32(w.name@);
    let s4 = s3 + w.unknown1@;
    let s5 = s4 + le32(w.maybe_scale);
    let s6 = s5 + ser_bbox(w.bounding_box);
    let s7 = s6 + le32(w.meshes@.len() as u32);
    let s8 = s7 + ser_mesh_skeletons(w.meshes@);
    let s9 = s8 + le32(w.meshes@.len() as u32);
    let s10 = s9 + ser_mesh_details(w.meshes@);
    let s11 = s10 + le32(total_vertices(w.meshes@) as u32);
    let s12 = s11 + le32(settings_to_bits(w.settings));
    let s13 = s12 + ser_mesh_vertices(w.meshes@, w.settings);
    let s14 = s13 + le32((total_triangles(w.meshes@) * 3) as u32);
    let s15 = s14 + ser_mesh_triangles(w.meshes@, w.wide_indices());
    let s16 = s15 + ser_skinning(w);
    let s17 = s16 + ser_end(w.end);
    let s18 = s17 + le32(w.instances@.len() as u32);
    let s19 = s18 + ser_instances(w.instances@);
    assert(bytes == s19 + footer_tag());
    assert(s19.len() == 85 + nl);
    assert(bytes.len() == 89 + nl);
    assert(bytes.subrange(0, 89 + nl) =~= bytes);
    lemma_chunk(bytes, s19, footer_tag(), 89 + nl);
    assert(s19 =~= s18);
    lemma_chunk(bytes, s17, le32(w.instances@.len() as u32), 85 + nl);
    assert(w.instances@.len() as u32 == 0);
    lemma_chunk(bytes, s16, ser_end(w.end), 81 + nl);
    assert(bytes[80 + nl] == bytes.subrange(80 + nl, 81 + nl)[0]);
    lemma_chunk(bytes, s15, ser_skinning(w), 80 + nl);
    assert(bytes.subrange(72 + nl, 76 + nl) =~= le32(0));
    assert(s15 =~= s14);
    lemma_chunk(bytes, s13, le32((total_triangles(w.meshes@) * 3) as u32), 72 + nl);
    assert((total_triangles(w.meshes@) * 3) as u32 == 0);
    assert(s13 =~= s12);
    lemma_chunk(bytes, s11, le32(settings_to_bits(w.settings)), 68 + nl);
    lemma_chunk(bytes, s10, le32(total_vertices(w.meshes@) as u32), 64 + nl);
    assert(total_vertices(w.meshes@) as u32 == 0);
    assert(s10 =~= s9);
    lemma_chunk(bytes, s8, le32(w.meshes@.len() as u32), 60 + nl);
    assert(w.meshes@.len() as u32 == 0);
    assert(s8 =~= s7);
    lemma_chunk(bytes, s6, le32(w.meshes@.len() as u32), 56 + nl);
    lemma_chunk(bytes, s5, ser_bbox(w.bounding_box), 52 + nl);
    lemma_chunk(bytes, s4, le32(w.maybe_scale), 28 + nl);
    lemma_chunk(bytes, s3, w.unknown1@, 24 + nl);
    lemma_chunk(bytes, s2, ser_str32(w.name@), 12 + nl);
    assert(bytes.subrange(8, 12) =~= le32(w.name@.len() as u32));
    lemma_chunk(bytes, s1, le32(w.version_maybe), 8);
}

/// Decodes a whole container.
///
/// On success the returned document is well formed and — the central
/// guarantee — serializes back to the input buffer byte for byte:
/// `ser_file(document) == bytes`, so an unmodified round-trip is
/// byte-identical. A buffer whose stored counts disagree with the data they
/// describe, whose discriminants fall outside the understood sets, whose
/// framing tags are wrong, or which ends early or carries trailing bytes, is
/// rejected with an error naming the offset.
///
/// Success is owed at least on every buffer that a table-free document
/// serializes to (see [`plain_document`]); buffers holding meshes, skinning
/// data, instances or a terminal payload are accepted as well, but their
/// acceptance is demonstrated by tests, not owed by the contract.
#[verifier::rlimit(100)]
pub fn decode(bytes: &Vec<u8>) -> (r: Result<SiaFile, SiaParseError>)
    ensures
        r matches Ok(f) ==> f.wf() && f.absent_fields_default() && ser_file(f) == bytes@,
        (exists|f: SiaFile| plain_document(f) && ser_file(f) == bytes@) ==> r is Ok,
        bytes@.len() < 4 ==> r matches Err(SiaParseError::UnexpectedEof { .. }),
        bytes@.len() >= 4 && bytes@.subrange(0, 4) != header_tag() ==> r matches Err(
            SiaParseError::BadHeader { .. },
        ),
        r matches Err(SiaParseError::UnknownTextureKind { value, offset }) ==> !(value == 0
            || value == 1 || value == 2 || value == 5 || value == 6 || value == 7) && offset
            < bytes@.len() && bytes@[offset as int] == value,
        r matches Err(SiaParseError::FaceVertexIndexOutOfRange { index, vertices, .. }) ==> index
            >= vertices,
        r matches Err(SiaParseError::UnknownTerminalRecordKind { value, offset }) ==> !(value == 0
            || value == 2 || value == 42) && offset < bytes@.len() && bytes@[offset as int]
            == value,
        r matches Err(SiaParseError::UnknownMeshSubType { value, offset }) ==> !(value == 2
            || value == 8 || value == 88 || value == 152 || value == 136 || value == 216 || value
            == 232 || value == 248) && offset < bytes@.len() && bytes@[offset as int] == value,
        r matches Err(SiaParseError::UnknownKindType { kind, offset }) ==> kind@
            != kind_mesh_type() && kind@ != crate::wire::kind_is_banner() && kind@
            != crate::wire::kind_is_comp_banner() && kind@ != crate::wire::kind_is_match_ball()
            && kind@ != crate::wire::kind_is_team_logo() && offset + 1 + kind@.len()
            <= bytes@.len() && bytes@.subrange(offset as int, offset + 1 + kind@.len())
            == crate::wire::ser_str8(kind@),
        r matches Err(SiaParseError::BadHeader { found, offset }) ==> offset == 0 && bytes@.len()
            >= 4 && found@ == bytes@.subrange(0, 4) && found@ != header_tag(),
        r matches Err(SiaParseError::BadFooter { found, offset }) ==> offset + 4 <= bytes@.len()
            && found@ == bytes@.subrange(offset as int, offset + 4 as int) && found@
            != footer_tag(),
        r matches Err(SiaParseError::TrailingData { offset }) ==> 4 <= offset < bytes@.len()
            && bytes@.subrange(offset - 4, offset as int) == footer_tag(),
{
    let ghost owed = exists|f: SiaFile| plain_document(f) && ser_file(f) == bytes@;
    let ghost w = choose|f: SiaFile| plain_document(f) && ser_file(f) == bytes@;
    let ghost nl = w.name@.len() as int;
    proof {
        if owed {
            lemma_plain_layout(bytes@, w);
            vstd::bytes::lemma_auto_spec_u32_to_from_le_bytes();
            assert(le32(w.name@.len() as u32).len() == 4);
            assert(vstd::bytes::spec_u32_from_le_bytes(le32(w.name@.len() as u32)) == w.name@.len()
                as u32);
        }
    }
    let mut pos: usize = 0;
    let hdr = read_bytes(bytes, &mut pos, 4)?;
    if !bytes_eq(&hdr, &exec_header_tag()) {
        return Err(SiaParseError::BadHeader { found: hdr, offset: 0 });
    }
    let p1 = pos;
    let version_maybe = read_u32(bytes, &mut pos)?;
    let ghost p2 = pos as int;
    let name = read_str32(bytes, &mut pos)?;
    proof {
        if owed {
            lemma_first_word(bytes@, 8, pos as int, name@.len() as u32, name@);
            lemma_le32_injective(name@.len() as u32, w.name@.len() as u32);
            assert(name@.len() == nl);
            assert(pos == 12 + nl);
        }
    }
    let ghost p3 = pos as int;
    let unknown1 = read_bytes(bytes, &mut pos, 12)?;
    let ghost p4 = pos as int;
    let maybe_scale = read_u32(bytes, &mut pos)?;
    let ghost p5 = pos as int;
    let bounding_box = decode_bbox(bytes, &mut pos)?;
    proof {
        if owed {
            lemma_bbox_len(bounding_box);
            assert(pos == 52 + nl);
        }
    }
    let ghost p6 = pos as int;
    let objects_num = read_u32(bytes, &mut pos)?;
    proof {
        if owed {
            assert(bytes@.subrange(52 + nl, 56 + nl) == le32(objects_num));
            lemma_le32_injective(objects_num, 0);
        }
    }
    let ghost p7 = pos as int;
    let mut skels = decode_skeletons(bytes, &mut pos, objects_num)?;
    let p8 = pos;
    let meshes_num = read_u32(bytes, &mut pos)?;
    proof {
        if owed {
            assert(bytes@.subrange(56 + nl, 60 + nl) == le32(meshes_num));
            lemma_le32_injective(meshes_num, 0);
        }
    }
    if meshes_num != objects_num {
        return Err(
            SiaParseError::InconsistentCount {
                stored: meshes_num,
                expected: objects_num,
                offset: p8,
            },
        );
    }
    let ghost p9 = pos as int;
    let mut details = decode_details(bytes, &mut pos, objects_num)?;
    let p10 = pos;
    let vertices_total_num = read_u32(bytes, &mut pos)?;
    proof {
        if owed {
            assert(bytes@.subrange(60 + nl, 64 + nl) == le32(vertices_total_num));
            lemma_le32_injective(vertices_total_num, 0);
            assert(skels@.len() == 0);
            assert(skel_vertex_total(skels@) == 0);
            assert(skel_triangle_total(skels@) == 0);
        }
    }
    let sum_v = match skel_vertex_sum(&skels) {
        Some(v) => v,
        None => {
            // The real total leaves the 32-bit range, so no stored total can
            // match it; the expected field saturates.
            return Err(
                SiaParseError::InconsistentCount {
                    stored: vertices_total_num,
                    expected: u32::MAX,
                    offset: p10,
                },
            );
        },
    };
    if vertices_total_num != sum_v {
        return Err(
            SiaParseError::InconsistentCount {
                stored: vertices_total_num,
                expected: sum_v,
                offset: p10,
            },
        );
    }
    let ghost p11 = pos as int;
    let raw_settings = read_u32(bytes, &mut pos)?;
    let settings = SiaSettings::from_bitfield(SiaSettingsBitField::from_bits(raw_settings));
    let ghost p12 = pos as int;
    let mut vls = decode_vertex_streams(bytes, &mut pos, &skels, &settings)?;
    let p13 = pos;
    let index_total = read_u32(bytes, &mut pos)?;
    proof {
        if owed {
            assert(bytes@.subrange(68 + nl, 72 + nl) == le32(index_total));
            lemma_le32_injective(index_total, 0);
        }
    }
    if index_total % 3 != 0 {
        return Err(
            SiaParseError::InconsistentCount {
                stored: index_total,
                expected: index_total / 3 * 3,
                offset: p13,
            },
        );
    }
    let sum_t = match skel_triangle_sum(&skels) {
        Some(v) => v,
        None => {
            // As with the vertex total: a sum beyond the 32-bit range can
            // match no stored count.
            return Err(
                SiaParseError::InconsistentCount {
                    stored: index_total,
                    expected: u32::MAX,
                    offset: p13,
                },
            );
        },
    };
    if index_total / 3 != sum_t {
        return Err(
            SiaParseError::InconsistentCount {
                stored: index_total / 3,
                expected: sum_t,
                offset: p13,
            },
        );
    }
    let wide = vertices_total_num > 0xFFFF;
    let ghost p14 = pos as int;
    let mut tls = decode_triangle_streams(bytes, &mut pos, &skels, wide)?;
    let ghost p15 = pos as int;
    let skinning = decode_skinning(bytes, &mut pos)?;
    proof {
        if owed {
            let flagword: u32 = if skinning.0 {
                1u32
            } else {
                0u32
            };
            crate::wire::seq_concat_assoc(
                le32(flagword),
                le32(skinning.1),
                if skinning.0 {
                    skinning.2@ + crate::wire::ser_bones(skinning.3@)
                } else {
                    Seq::<u8>::empty()
                },
            );
            lemma_first_word(
                bytes@,
                72 + nl,
                pos as int,
                flagword,
                le32(skinning.1) + (if skinning.0 {
                    skinning.2@ + crate::wire::ser_bones(skinning.3@)
                } else {
                    Seq::<u8>::empty()
                }),
            );
            lemma_le32_injective(flagword, 0);
            assert(!skinning.0);
            assert(le32(skinning.1).len() == 4);
            assert(le32(flagword).len() == 4);
            assert(pos == 80 + nl);
        }
    }
    let is_skinned = skinning.0;
    let number_of_bones = skinning.1;
    let root_bone_hash_maybe = skinning.2;
    let bones = skinning.3;
    let ghost p16 = pos as int;
    let end = decode_end(bytes, &mut pos)?;
    proof {
        if owed {
            assert(bytes@.subrange(80 + nl, pos as int) == ser_end(end));
            assert(bytes@.subrange(80 + nl, pos as int)[0] == bytes@[80 + nl]);
            lemma_end_absent(end);
            assert(pos == 81 + nl);
        }
    }
    let ghost p17 = pos as int;
    let instances_num = read_u32(bytes, &mut pos)?;
    proof {
        if owed {
            assert(bytes@.subrange(81 + nl, 85 + nl) == le32(instances_num));
            lemma_le32_injective(instances_num, 0);
        }
    }
    let ghost p18 = pos as int;
    let instances = decode_instances(bytes, &mut pos, instances_num)?;
    let p19 = pos;
    let ftr = read_bytes(bytes, &mut pos, 4)?;
    if !bytes_eq(&ftr, &exec_footer_tag()) {
        return Err(SiaParseError::BadFooter { found: ftr, offset: p19 });
    }
    if pos != bytes.len() {
        return Err(SiaParseError::TrailingData { offset: pos });
    }
    let ghost gskels = skels@;
    let ghost gdetails = details@;
    let ghost gvls = vls@;
    let ghost gtls = tls@;
    let n = skels.len();
    let mut meshes: Vec<SiaMesh> = Vec::new();
    let mut i: usize = 0;
    while i < n
        invariant
            i <= n,
            n == gskels.len(),
            gdetails.len() == n,
            gvls.len() == n,
            gtls.len() == n,
            skels@ == gskels.skip(i as int),
            details@ == gdetails.skip(i as int),
            vls@ == gvls.skip(i as int),
            tls@ == gtls.skip(i as int),
            meshes@.len() == i,
            forall|j: int|
                0 <= j < i ==> #[trigger] meshes@[j] == mesh_from_parts(
                    gskels[j],
                    gdetails[j],
                    gvls[j],
                    gtls[j],
                ),
            forall|j: int| 0 <= j < i ==> (#[trigger] meshes@[j]).wf(settings),
            forall|j: int|
                0 <= j < gskels.len() ==> (#[trigger] gskels[j]).unknown@.len() == 8
                    && gskels[j].triangles_num * 3 <= u32::MAX,
            forall|j: int| 0 <= j < gdetails.len() ==> detail_wf(#[trigger] gdetails[j]),
            forall|j: int| 0 <= j < gvls.len() ==> (#[trigger] gvls[j])@.len() == gskels[j].vertices_num,
            forall|j: int, k: int|
                #![auto]
                0 <= j < gvls.len() && 0 <= k < gvls[j]@.len() ==> gvls[j]@[k].wf(settings),
            forall|j: int, k: int|
                #![auto]
                0 <= j < gvls.len() && 0 <= k < gvls[j]@.len() ==> gvls[j]@[k].absent_fields_default(
                    settings,
                ),
            forall|j: int, k: int|
                #![auto]
                0 <= j < i && 0 <= k < meshes@[j].vertices@.len()
                    ==> meshes@[j].vertices@[k].absent_fields_default(settings),
            forall|j: int| 0 <= j < gtls.len() ==> (#[trigger] gtls[j])@.len() == gskels[j].triangles_num,
            forall|j: int, k: int|
                #![auto]
                0 <= j < gtls.len() && 0 <= k < gtls[j]@.len() ==> gtls[j]@[k].wf(
                    gskels[j].vertices_num as int,
                ),
        decreases n - i,
    {
        let k = skels.remove(0);
        let d = details.remove(0);
        let vs = vls.remove(0);
        let ts = tls.remove(0);
        proof {
            assert(gskels.skip(i as int)[0] == gskels[i as int]);
            assert(gdetails.skip(i as int)[0] == gdetails[i as int]);
            assert(gvls.skip(i as int)[0] == gvls[i as int]);
            assert(gtls.skip(i as int)[0] == gtls[i as int]);
            assert(gskels.skip(i as int).remove(0) =~= gskels.skip(i + 1 as int));
            assert(gdetails.skip(i as int).remove(0) =~= gdetails.skip(i + 1 as int));
            assert(gvls.skip(i as int).remove(0) =~= gvls.skip(i + 1 as int));
            assert(gtls.skip(i as int).remove(0) =~= gtls.skip(i + 1 as int));
        }
        let m = SiaMesh {
            materials_num: d.materials.len() as u8,
            vertices_num: k.vertices_num,
            triangles_num: k.triangles_num,
            vertex_offset: k.vertex_offset,
            triangle_offset: k.triangle_offset,
            id: k.id,
            unknown: k.unknown,
            maybe_hash: d.maybe_hash,
            unknown1: d.unknown1,
            unknown2: d.unknown2,
            unknown3: d.unknown3,
            unknown4: d.unknown4,
            material_type: d.material_type,
            materials: d.materials,
            vertices: vs,
            triangles: ts,
        };
        proof {
            assert(m == mesh_from_parts(gskels[i as int], gdetails[i as int], gvls[i as int],
            gtls[i as int]));
            assert(m.wf(settings));
        }
        meshes.push(m);
        i = i + 1;
    }
    proof {
        lemma_assemble(meshes@, gskels, gdetails, gvls, gtls, settings, wide);
        assert(bytes@.subrange(0, 4) == crate::wire::header_tag());
        lemma_stitch(bytes@, 0, p1 as int, p2);
        lemma_stitch(bytes@, 0, p2, p3);
        lemma_stitch(bytes@, 0, p3, p4);
        lemma_stitch(bytes@, 0, p4, p5);
        lemma_stitch(bytes@, 0, p5, p6);
        lemma_stitch(bytes@, 0, p6, p7);
        lemma_stitch(bytes@, 0, p7, p8 as int);
        lemma_stitch(bytes@, 0, p8 as int, p9);
        lemma_stitch(bytes@, 0, p9, p10 as int);
        lemma_stitch(bytes@, 0, p10 as int, p11);
        lemma_stitch(bytes@, 0, p11, p12);
        lemma_stitch(bytes@, 0, p12, p13 as int);
        lemma_stitch(bytes@, 0, p13 as int, p14);
        lemma_stitch(bytes@, 0, p14, p15);
        lemma_stitch(bytes@, 0, p15, p16);
        lemma_stitch(bytes@, 0, p16, p17);
        lemma_stitch(bytes@, 0, p17, p18);
        lemma_stitch(bytes@, 0, p18, p19 as int);
        lemma_stitch(bytes@, 0, p19 as int, pos as int);
        assert(index_total == 3 * sum_t);
    }
    let f = SiaFile {
        version_maybe,
        name,
        unknown1,
        maybe_scale,
        bounding_box,
        objects_num,
        meshes,
        meshes_num,
        vertices_total_num,
        settings,
        number_of_triangles: sum_t,
        is_skinned,
        number_of_bones,
        root_bone_hash_maybe,
        bones,
        end,
        instances,
    };
    proof {
        assert(f.wf());
        assert(f.absent_fields_default());
        assert(ser_file(f) == bytes@.subrange(0, pos as int));
        assert(bytes@.subrange(0, pos as int) =~= bytes@);
    }
    Ok(f)
}

} // verus!
