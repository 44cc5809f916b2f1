//! The encoder: walks a well-formed document in wire order and emits exactly
//! the byte sequence [`crate::wire::ser_file`] names, recomputing every count
//! field from the collection it describes.

use vstd::prelude::*;
use crate::prim::write_raw;
use crate::prim::write_str32;
use crate::prim::write_str8;
use crate::prim::write_u16;
use crate::prim::write_u32;
use crate::prim::write_u8;
use crate::types::EndKind;
use crate::types::MeshType;
use crate::types::SiaBone;
use crate::types::SiaFile;
use crate::types::SiaInstance;
use crate::types::SiaMaterial;
use crate::types::SiaMesh;
use crate::types::SiaSettings;
use crate::types::SiaTexture;
use crate::types::SiaTriangle;
use crate::types::SiaVector2;
use crate::types::SiaVector3;
use crate::types::SiaVertex;
use crate::types::lemma_total_triangles_take_le;
use crate::types::lemma_total_triangles_take_succ;
use crate::types::lemma_total_vertices_elem;
use crate::types::lemma_total_vertices_take_le;
use crate::types::lemma_total_vertices_take_succ;
use crate::types::total_triangles;
use crate::types::total_vertices;
use crate::wire::seq_concat_assoc;
use crate::wire::exec_footer_tag;
use crate::wire::exec_header_tag;
use crate::wire::exec_kind_is_banner;
use crate::wire::exec_kind_is_comp_banner;
use crate::wire::exec_kind_is_match_ball;
use crate::wire::exec_kind_is_team_logo;
use crate::wire::exec_kind_mesh_type;
use crate::wire::ser_bbox;
use crate::wire::ser_bones;
use crate::wire::ser_end;
use crate::wire::ser_file;
use crate::wire::ser_instance;
use crate::wire::ser_instances;
use crate::wire::ser_material;
use crate::wire::ser_materials;
use crate::wire::ser_mesh_detail;
use crate::wire::ser_mesh_details;
use crate::wire::ser_mesh_skeleton;
use crate::wire::ser_mesh_skeletons;
use crate::wire::ser_mesh_triangles;
use crate::wire::ser_mesh_vertices;
use crate::wire::ser_skinning;
use crate::wire::ser_texture;
use crate::wire::ser_textures;
use crate::wire::ser_triangle;
use crate::wire::ser_triangles;
use crate::wire::ser_u32s;
use crate::wire::ser_vec2;
use crate::wire::ser_vec3;
use crate::wire::ser_vec3s;
use crate::wire::ser_vertex;
use crate::wire::ser_vertices;

verus! {

/// Appends three float bit patterns.
fn encode_vec3(out: &mut Vec<u8>, v: &SiaVector3)
    ensures
        final(out)@ == old(out)@ + ser_vec3(*v),
{
    write_u32(out, v.x);
    write_u32(out, v.y);
    write_u32(out, v.z);
    proof {
        assert(out@ =~= old(out)@ + ser_vec3(*v));
    }
}

/// Appends two float bit patterns.
fn encode_vec2(out: &mut Vec<u8>, v: &SiaVector2)
    ensures
        final(out)@ == old(out)@ + ser_vec2(*v),
{
    write_u32(out, v.x);
    write_u32(out, v.y);
    proof {
        assert(out@ =~= old(out)@ + ser_vec2(*v));
    }
}

/// Appends a run of 32-bit values.
fn encode_u32s(out: &mut Vec<u8>, vs: &Vec<u32>)
    ensures
        final(out)@ == old(out)@ + ser_u32s(vs@),
{
    let mut i: usize = 0;
    while i < vs.len()
        invariant
            i <= vs@.len(),
            out@ == old(out)@ + ser_u32s(vs@.take(i as int)),
        decreases vs@.len() - i,
    {
        write_u32(out, vs[i]);
        proof {
            assert(vs@.take(i + 1 as int).drop_last() =~= vs@.take(i as int));
            assert(vs@.take(i + 1 as int).last() == vs@[i as int]);
        }
        i = i + 1;
    }
    proof {
        assert(vs@.take(vs@.len() as int) =~= vs@);
    }
}

/// Appends a run of position vectors.
fn encode_vec3s(out: &mut Vec<u8>, vs: &Vec<SiaVector3>)
    ensures
        final(out)@ == old(out)@ + ser_vec3s(vs@),
{
    let mut i: usize = 0;
    while i < vs.len()
        invariant
            i <= vs@.len(),
            out@ == old(out)@ + ser_vec3s(vs@.take(i as int)),
        decreases vs@.len() - i,
    {
        encode_vec3(out, &vs[i]);
        proof {
            assert(vs@.take(i + 1 as int).drop_last() =~= vs@.take(i as int));
            assert(vs@.take(i + 1 as int).last() == vs@[i as int]);
        }
        i = i + 1;
    }
    proof {
        assert(vs@.take(vs@.len() as int) =~= vs@);
    }
}

/// Appends one vertex: exactly the blocks the settings enable, in wire order.
fn encode_vertex(out: &mut Vec<u8>, v: &SiaVertex, s: &SiaSettings)
    requires
        v.wf(*s),
    ensures
        final(out)@ == old(out)@ + ser_vertex(*v, *s),
{
    let ghost o = old(out)@;
    let ghost mut acc = Seq::<u8>::empty();
    if s.position {
        encode_vec3(out, &v.position);
    }
    proof {
        let c = if s.position {
            ser_vec3(v.position)
        } else {
            Seq::<u8>::empty()
        };
        acc = c;
        if !s.position {
            assert(o + acc =~= o);
        }
        assert(out@ == o + acc);
    }
    if s.normal {
        encode_vec3(out, &v.normal);
    }
    proof {
        let c = if s.normal {
            ser_vec3(v.normal)
        } else {
            Seq::<u8>::empty()
        };
        if s.normal {
            seq_concat_assoc(o, acc, c);
        } else {
            assert(acc + c =~= acc);
        }
        acc = acc + c;
        assert(out@ == o + acc);
    }
    if s.uv_set1 {
        encode_vec2(out, &v.texture_coords[0]);
    }
    proof {
        let c = if s.uv_set1 {
            ser_vec2(v.texture_coords@[0])
        } else {
            Seq::<u8>::empty()
        };
        if s.uv_set1 {
            seq_concat_assoc(o, acc, c);
        } else {
            assert(acc + c =~= acc);
        }
        acc = acc + c;
        assert(out@ == o + acc);
    }
    if s.uv_set2 {
        encode_vec2(out, &v.texture_coords[1]);
    }
    proof {
        let c = if s.uv_set2 {
            ser_vec2(v.texture_coords@[1])
        } else {
            Seq::<u8>::empty()
        };
        if s.uv_set2 {
            seq_concat_assoc(o, acc, c);
        } else {
            assert(acc + c =~= acc);
        }
        acc = acc + c;
        assert(out@ == o + acc);
    }
    if s.unknown1 {
        write_raw(out, &v.unknown1);
    }
    proof {
        let c = if s.unknown1 {
            v.unknown1@
        } else {
            Seq::<u8>::empty()
        };
        if s.unknown1 {
            seq_concat_assoc(o, acc, c);
        } else {
            assert(acc + c =~= acc);
        }
        acc = acc + c;
        assert(out@ == o + acc);
    }
    if s.tangent {
        encode_vec3(out, &v.tangent);
        write_raw(out, &v.tangent_unknown);
    }
    proof {
        let c = if s.tangent {
            ser_vec3(v.tangent) + v.tangent_unknown@
        } else {
            Seq::<u8>::empty()
        };
        if s.tangent {
            seq_concat_assoc(o, acc, ser_vec3(v.tangent));
            seq_concat_assoc(o, acc + ser_vec3(v.tangent), v.tangent_unknown@);
            seq_concat_assoc(acc, ser_vec3(v.tangent), v.tangent_unknown@);
        } else {
            assert(acc + c =~= acc);
        }
        acc = acc + c;
        assert(out@ == o + acc);
    }
    if s.skinned {
        write_raw(out, &v.bone.ids);
        encode_u32s(out, &v.bone.influences);
    }
    proof {
        let c = if s.skinned {
            v.bone.ids@ + ser_u32s(v.bone.influences@)
        } else {
            Seq::<u8>::empty()
        };
        if s.skinned {
            seq_concat_assoc(o, acc, v.bone.ids@);
            seq_concat_assoc(o, acc + v.bone.ids@, ser_u32s(v.bone.influences@));
            seq_concat_assoc(acc, v.bone.ids@, ser_u32s(v.bone.influences@));
        } else {
            assert(acc + c =~= acc);
        }
        acc = acc + c;
        assert(out@ == o + acc);
    }
    if s.unknown3 {
        write_raw(out, &v.unknown3);
    }
    proof {
        let c = if s.unknown3 {
            v.unknown3@
        } else {
            Seq::<u8>::empty()
        };
        if s.unknown3 {
            seq_concat_assoc(o, acc, c);
        } else {
            assert(acc + c =~= acc);
        }
        acc = acc + c;
        assert(out@ == o + acc);
    }
    if s.unknown4 {
        write_raw(out, &v.unknown4);
    }
    proof {
        let c = if s.unknown4 {
            v.unknown4@
        } else {
            Seq::<u8>::empty()
        };
        if s.unknown4 {
            seq_concat_assoc(o, acc, c);
        } else {
            assert(acc + c =~= acc);
        }
        acc = acc + c;
        assert(out@ == o + acc);
        assert(acc == ser_vertex(*v, *s));
    }
}

/// Appends the vertex stream of one mesh.
fn encode_vertices(out: &mut Vec<u8>, vs: &Vec<SiaVertex>, s: &SiaSettings)
    requires
        forall|i: int| 0 <= i < vs@.len() ==> (#[trigger] vs@[i]).wf(*s),
    ensures
        final(out)@ == old(out)@ + ser_vertices(vs@, *s),
{
    let mut i: usize = 0;
    while i < vs.len()
        invariant
            i <= vs@.len(),
            forall|k: int| 0 <= k < vs@.len() ==> (#[trigger] vs@[k]).wf(*s),
            out@ == old(out)@ + ser_vertices(vs@.take(i as int), *s),
        decreases vs@.len() - i,
    {
        encode_vertex(out, &vs[i], s);
        proof {
            assert(vs@.take(i + 1 as int).drop_last() =~= vs@.take(i as int));
            assert(vs@.take(i + 1 as int).last() == vs@[i as int]);
        }
        i = i + 1;
    }
    proof {
        assert(vs@.take(vs@.len() as int) =~= vs@);
    }
}

/// Appends the vertex streams of all meshes, in mesh order.
fn encode_mesh_vertices(out: &mut Vec<u8>, ms: &Vec<SiaMesh>, s: &SiaSettings)
    requires
        forall|i: int| 0 <= i < ms@.len() ==> (#[trigger] ms@[i]).wf(*s),
    ensures
        final(out)@ == old(out)@ + ser_mesh_vertices(ms@, *s),
{
    let mut i: usize = 0;
    while i < ms.len()
        invariant
            i <= ms@.len(),
            forall|k: int| 0 <= k < ms@.len() ==> (#[trigger] ms@[k]).wf(*s),
            out@ == old(out)@ + ser_mesh_vertices(ms@.take(i as int), *s),
        decreases ms@.len() - i,
    {
        encode_vertices(out, &ms[i].vertices, s);
        proof {
            assert(ms@.take(i + 1 as int).drop_last() =~= ms@.take(i as int));
            assert(ms@.take(i + 1 as int).last() == ms@[i as int]);
        }
        i = i + 1;
    }
    proof {
        assert(ms@.take(ms@.len() as int) =~= ms@);
    }
}

/// Appends one triangle at the document-global index width.
fn encode_triangle(out: &mut Vec<u8>, t: &SiaTriangle, wide: bool)
    requires
        !wide ==> t.0 <= 0xFFFF && t.1 <= 0xFFFF && t.2 <= 0xFFFF,
    ensures
        final(out)@ == old(out)@ + ser_triangle(*t, wide),
{
    if wide {
        write_u32(out, t.0);
        write_u32(out, t.1);
        write_u32(out, t.2);
    } else {
        write_u16(out, t.0 as u16);
        write_u16(out, t.1 as u16);
        write_u16(out, t.2 as u16);
    }
    proof {
        assert(out@ =~= old(out)@ + ser_triangle(*t, wide));
    }
}

/// Appends the triangle stream of one mesh.
fn encode_triangles(out: &mut Vec<u8>, ts: &Vec<SiaTriangle>, wide: bool)
    requires
        !wide ==> forall|i: int|
            0 <= i < ts@.len() ==> (#[trigger] ts@[i]).0 <= 0xFFFF && ts@[i].1 <= 0xFFFF
                && ts@[i].2 <= 0xFFFF,
    ensures
        final(out)@ == old(out)@ + ser_triangles(ts@, wide),
{
    let mut i: usize = 0;
    while i < ts.len()
        invariant
            i <= ts@.len(),
            !wide ==> forall|k: int|
                0 <= k < ts@.len() ==> (#[trigger] ts@[k]).0 <= 0xFFFF && ts@[k].1 <= 0xFFFF
                    && ts@[k].2 <= 0xFFFF,
            out@ == old(out)@ + ser_triangles(ts@.take(i as int), wide),
        decreases ts@.len() - i,
    {
        encode_triangle(out, &ts[i], wide);
        proof {
            assert(ts@.take(i + 1 as int).drop_last() =~= ts@.take(i as int));
            assert(ts@.take(i + 1 as int).last() == ts@[i as int]);
        }
        i = i + 1;
    }
    proof {
        assert(ts@.take(ts@.len() as int) =~= ts@);
    }
}

/// Appends the triangle streams of all meshes at one shared index width.
fn encode_mesh_triangles(out: &mut Vec<u8>, ms: &Vec<SiaMesh>, wide: bool)
    requires
        !wide ==> forall|i: int, j: int|
            0 <= i < ms@.len() && 0 <= j < ms@[i].triangles@.len() ==> (
            #[trigger] ms@[i].triangles@[j]).0 <= 0xFFFF && ms@[i].triangles@[j].1 <= 0xFFFF
                && ms@[i].triangles@[j].2 <= 0xFFFF,
    ensures
        final(out)@ == old(out)@ + ser_mesh_triangles(ms@, wide),
{
    let mut i: usize = 0;
    while i < ms.len()
        invariant
            i <= ms@.len(),
            !wide ==> forall|a: int, j: int|
                0 <= a < ms@.len() && 0 <= j < ms@[a].triangles@.len() ==> (
                #[trigger] ms@[a].triangles@[j]).0 <= 0xFFFF && ms@[a].triangles@[j].1 <= 0xFFFF
                    && ms@[a].triangles@[j].2 <= 0xFFFF,
            out@ == old(out)@ + ser_mesh_triangles(ms@.take(i as int), wide),
        decreases ms@.len() - i,
    {
        encode_triangles(out, &ms[i].triangles, wide);
        proof {
            assert(ms@.take(i + 1 as int).drop_last() =~= ms@.take(i as int));
            assert(ms@.take(i + 1 as int).last() == ms@[i as int]);
        }
        i = i + 1;
    }
    proof {
        assert(ms@.take(ms@.len() as int) =~= ms@);
    }
}

/// Appends one mesh header, recomputing the vertex count and the index count
/// (three per triangle) from the lists.
fn encode_mesh_skeleton(out: &mut Vec<u8>, m: &SiaMesh)
    requires
        m.vertices@.len() <= u32::MAX,
        m.triangles@.len() * 3 <= u32::MAX,
    ensures
        final(out)@ == old(out)@ + ser_mesh_skeleton(*m),
{
    write_u32(out, m.vertex_offset);
    write_u32(out, m.vertices.len() as u32);
    write_u32(out, m.triangle_offset);
    write_u32(out, (m.triangles.len() * 3) as u32);
    write_u32(out, m.id);
    write_raw(out, &m.unknown);
    proof {
        assert(out@ =~= old(out)@ + ser_mesh_skeleton(*m));
    }
}

/// Appends all mesh headers.
fn encode_mesh_skeletons(out: &mut Vec<u8>, ms: &Vec<SiaMesh>)
    requires
        forall|i: int|
            0 <= i < ms@.len() ==> (#[trigger] ms@[i]).vertices@.len() <= u32::MAX && ms@[i].triangles@.len()
                * 3 <= u32::MAX,
    ensures
        final(out)@ == old(out)@ + ser_mesh_skeletons(ms@),
{
    let mut i: usize = 0;
    while i < ms.len()
        invariant
            i <= ms@.len(),
            forall|k: int|
                0 <= k < ms@.len() ==> (#[trigger] ms@[k]).vertices@.len() <= u32::MAX
                    && ms@[k].triangles@.len() * 3 <= u32::MAX,
            out@ == old(out)@ + ser_mesh_skeletons(ms@.take(i as int)),
        decreases ms@.len() - i,
    {
        encode_mesh_skeleton(out, &ms[i]);
        proof {
            assert(ms@.take(i + 1 as int).drop_last() =~= ms@.take(i as int));
            assert(ms@.take(i + 1 as int).last() == ms@[i as int]);
        }
        i = i + 1;
    }
    proof {
        assert(ms@.take(ms@.len() as int) =~= ms@);
    }
}

/// Appends one texture reference.
fn encode_texture(out: &mut Vec<u8>, t: &SiaTexture)
    requires
        t.path@.len() <= u32::MAX,
    ensures
        final(out)@ == old(out)@ + ser_texture(*t),
{
    write_u8(out, t.kind.to_byte());
    write_str32(out, &t.path);
    proof {
        assert(out@ =~= old(out)@ + ser_texture(*t));
    }
}

/// Appends the texture list of one material.
fn encode_textures(out: &mut Vec<u8>, ts: &Vec<SiaTexture>)
    requires
        forall|i: int| 0 <= i < ts@.len() ==> (#[trigger] ts@[i]).path@.len() <= u32::MAX,
    ensures
        final(out)@ == old(out)@ + ser_textures(ts@),
{
    let mut i: usize = 0;
    while i < ts.len()
        invariant
            i <= ts@.len(),
            forall|k: int| 0 <= k < ts@.len() ==> (#[trigger] ts@[k]).path@.len() <= u32::MAX,
            out@ == old(out)@ + ser_textures(ts@.take(i as int)),
        decreases ts@.len() - i,
    {
        encode_texture(out, &ts[i]);
        proof {
            assert(ts@.take(i + 1 as int).drop_last() =~= ts@.take(i as int));
            assert(ts@.take(i + 1 as int).last() == ts@[i as int]);
        }
        i = i + 1;
    }
    proof {
        assert(ts@.take(ts@.len() as int) =~= ts@);
    }
}

/// Appends one material, recomputing its texture count.
fn encode_material(out: &mut Vec<u8>, m: &SiaMaterial)
    requires
        m.wf(),
    ensures
        final(out)@ == old(out)@ + ser_material(*m),
{
    write_str32(out, &m.kind);
    write_u8(out, m.textures.len() as u8);
    encode_textures(out, &m.textures);
    proof {
        assert(out@ =~= old(out)@ + ser_material(*m));
    }
}

/// Appends the material list of one mesh.
fn encode_materials(out: &mut Vec<u8>, ms: &Vec<SiaMaterial>)
    requires
        forall|i: int| 0 <= i < ms@.len() ==> (#[trigger] ms@[i]).wf(),
    ensures
        final(out)@ == old(out)@ + ser_materials(ms@),
{
    let mut i: usize = 0;
    while i < ms.len()
        invariant
            i <= ms@.len(),
            forall|k: int| 0 <= k < ms@.len() ==> (#[trigger] ms@[k]).wf(),
            out@ == old(out)@ + ser_materials(ms@.take(i as int)),
        decreases ms@.len() - i,
    {
        encode_material(out, &ms[i]);
        proof {
            assert(ms@.take(i + 1 as int).drop_last() =~= ms@.take(i as int));
            assert(ms@.take(i + 1 as int).last() == ms@[i as int]);
        }
        i = i + 1;
    }
    proof {
        assert(ms@.take(ms@.len() as int) =~= ms@);
    }
}

/// Appends one mesh's detail block (without its trailing 64-byte blob),
/// recomputing the material count.
fn encode_mesh_detail(out: &mut Vec<u8>, m: &SiaMesh, s: &SiaSettings)
    requires
        m.wf(*s),
    ensures
        final(out)@ == old(out)@ + ser_mesh_detail(*m),
{
    write_raw(out, &m.maybe_hash);
    write_raw(out, &m.unknown1);
    write_raw(out, &m.unknown2);
    write_raw(out, &m.unknown3);
    write_str32(out, &m.material_type);
    write_u8(out, m.materials.len() as u8);
    encode_materials(out, &m.materials);
    proof {
        assert(out@ =~= old(out)@ + ser_mesh_detail(*m));
    }
}

/// Appends the detail blocks of all meshes, each with its trailing blob.
fn encode_mesh_details(out: &mut Vec<u8>, ms: &Vec<SiaMesh>, s: &SiaSettings)
    requires
        forall|i: int| 0 <= i < ms@.len() ==> (#[trigger] ms@[i]).wf(*s),
    ensures
        final(out)@ == old(out)@ + ser_mesh_details(ms@),
{
    let mut i: usize = 0;
    while i < ms.len()
        invariant
            i <= ms@.len(),
            forall|k: int| 0 <= k < ms@.len() ==> (#[trigger] ms@[k]).wf(*s),
            out@ == old(out)@ + ser_mesh_details(ms@.take(i as int)),
        decreases ms@.len() - i,
    {
        encode_mesh_detail(out, &ms[i], s);
        write_raw(out, &ms[i].unknown4);
        proof {
            assert(ms@.take(i + 1 as int).drop_last() =~= ms@.take(i as int));
            assert(ms@.take(i + 1 as int).last() == ms@[i as int]);
        }
        i = i + 1;
    }
    proof {
        assert(ms@.take(ms@.len() as int) =~= ms@);
    }
}

/// Appends the opaque bone records.
fn encode_bones(out: &mut Vec<u8>, bs: &Vec<SiaBone>)
    ensures
        final(out)@ == old(out)@ + ser_bones(bs@),
{
    let mut i: usize = 0;
    while i < bs.len()
        invariant
            i <= bs@.len(),
            out@ == old(out)@ + ser_bones(bs@.take(i as int)),
        decreases bs@.len() - i,
    {
        write_raw(out, &bs[i].data);
        proof {
            assert(bs@.take(i + 1 as int).drop_last() =~= bs@.take(i as int));
            assert(bs@.take(i + 1 as int).last() == bs@[i as int]);
        }
        i = i + 1;
    }
    proof {
        assert(bs@.take(bs@.len() as int) =~= bs@);
    }
}

/// Appends the terminal record; the variant alone decides the wire shape.
fn encode_end(out: &mut Vec<u8>, e: &EndKind)
    requires
        e.wf(),
    ensures
        final(out)@ == old(out)@ + ser_end(*e),
{
    match e {
        EndKind::Unknown => {
            write_u8(out, 0);
        },
        EndKind::Opaque16(d) => {
            write_u8(out, 2);
            write_raw(out, d);
        },
        EndKind::MeshType(mt) => {
            write_u8(out, 42);
            let kind = exec_kind_mesh_type();
            write_str8(out, &kind);
            match mt {
                MeshType::RenderFlags(blob, s) => {
                    write_u8(out, 2);
                    write_raw(out, blob);
                    write_str8(out, s);
                },
                MeshType::VariableLength(s) => {
                    write_u8(out, 8);
                    write_str32(out, s);
                },
                MeshType::BodyPart(s) => {
                    write_u8(out, 88);
                    write_raw(out, s);
                },
                MeshType::RearCap(s) => {
                    write_u8(out, 152);
                    write_raw(out, s);
                },
                MeshType::Glasses(s) => {
                    write_u8(out, 136);
                    write_raw(out, s);
                },
                MeshType::StadiumRoof(s) => {
                    write_u8(out, 216);
                    write_raw(out, s);
                },
                MeshType::PlayerTunnel(s) => {
                    write_u8(out, 232);
                    write_raw(out, s);
                },
                MeshType::SideCap(s) => {
                    write_u8(out, 248);
                    write_raw(out, s);
                },
            }
        },
        EndKind::IsBanner(v) => {
            write_u8(out, 42);
            let kind = exec_kind_is_banner();
            write_str8(out, &kind);
            write_u8(out, *v);
        },
        EndKind::IsCompBanner(v) => {
            write_u8(out, 42);
            let kind = exec_kind_is_comp_banner();
            write_str8(out, &kind);
            write_u8(out, *v);
        },
        EndKind::IsMatchBall(v) => {
            write_u8(out, 42);
            let kind = exec_kind_is_match_ball();
            write_str8(out, &kind);
            write_u8(out, *v);
        },
        EndKind::IsTeamLogo(v) => {
            write_u8(out, 42);
            let kind = exec_kind_is_team_logo();
            write_str8(out, &kind);
            write_u8(out, *v);
        },
    }
    proof {
        assert(out@ =~= old(out)@ + ser_end(*e));
    }
}

/// Appends one placement record, recomputing its group count: four positions
/// per group.
fn encode_instance(out: &mut Vec<u8>, i: &SiaInstance)
    requires
        i.wf(),
    ensures
        final(out)@ == old(out)@ + ser_instance(*i),
{
    write_u32(out, i.kind);
    encode_u32s(out, &i.matrix_values_and_unknown);
    write_raw(out, &i.unknown);
    write_u32(out, (i.positions.len() / 4) as u32);
    encode_vec3s(out, &i.positions);
    write_str32(out, &i.name);
    write_str32(out, &i.path);
    proof {
        assert(out@ =~= old(out)@ + ser_instance(*i));
    }
}

/// Appends the placement records in order.
fn encode_instances(out: &mut Vec<u8>, is: &Vec<SiaInstance>)
    requires
        forall|i: int| 0 <= i < is@.len() ==> (#[trigger] is@[i]).wf(),
    ensures
        final(out)@ == old(out)@ + ser_instances(is@),
{
    let mut i: usize = 0;
    while i < is.len()
        invariant
            i <= is@.len(),
            forall|k: int| 0 <= k < is@.len() ==> (#[trigger] is@[k]).wf(),
            out@ == old(out)@ + ser_instances(is@.take(i as int)),
        decreases is@.len() - i,
    {
        encode_instance(out, &is[i]);
        proof {
            assert(is@.take(i + 1 as int).drop_last() =~= is@.take(i as int));
            assert(is@.take(i + 1 as int).last() == is@[i as int]);
        }
        i = i + 1;
    }
    proof {
        assert(is@.take(is@.len() as int) =~= is@);
    }
}

/// Appends the six bounding-box components.
fn encode_bbox(out: &mut Vec<u8>, b: &crate::types::BoundingBox)
    ensures
        final(out)@ == old(out)@ + ser_bbox(*b),
{
    write_u32(out, b.min_x);
    write_u32(out, b.min_y);
    write_u32(out, b.min_z);
    write_u32(out, b.max_x);
    write_u32(out, b.max_y);
    write_u32(out, b.max_z);
    proof {
        assert(out@ =~= old(out)@ + ser_bbox(*b));
    }
}

/// Appends the skinning section: flag, bone count, and — when skinned — the
/// root hash and bone records.
fn encode_skinning(out: &mut Vec<u8>, f: &SiaFile)
    ensures
        final(out)@ == old(out)@ + ser_skinning(*f),
{
    if f.is_skinned {
        write_u32(out, 1);
    } else {
        write_u32(out, 0);
    }
    write_u32(out, f.number_of_bones);
    if f.is_skinned {
        write_raw(out, &f.root_bone_hash_maybe);
        encode_bones(out, &f.bones);
    }
    proof {
        assert(out@ =~= old(out)@ + ser_skinning(*f));
    }
}

/// Sums the vertex counts of all meshes.
fn count_vertices(ms: &Vec<SiaMesh>) -> (r: u32)
    requires
        forall|i: int| 0 <= i < ms@.len() ==> (#[trigger] ms@[i]).vertices@.len() <= u32::MAX,
        total_vertices(ms@) <= u32::MAX,
    ensures
        r == total_vertices(ms@),
{
    let mut total: u32 = 0;
    let mut i: usize = 0;
    while i < ms.len()
        invariant
            i <= ms@.len(),
            forall|k: int| 0 <= k < ms@.len() ==> (#[trigger] ms@[k]).vertices@.len() <= u32::MAX,
            total_vertices(ms@) <= u32::MAX,
            total == total_vertices(ms@.take(i as int)),
        decreases ms@.len() - i,
    {
        proof {
            lemma_total_vertices_take_succ(ms@, i as int);
            lemma_total_vertices_take_le(ms@, i + 1 as int);
        }
        total = total + ms[i].vertices.len() as u32;
        i = i + 1;
    }
    proof {
        assert(ms@.take(ms@.len() as int) =~= ms@);
    }
    total
}

/// Sums the triangle counts of all meshes.
fn count_triangles(ms: &Vec<SiaMesh>) -> (r: u32)
    requires
        total_triangles(ms@) * 3 <= u32::MAX,
    ensures
        r == total_triangles(ms@),
{
    let mut total: u32 = 0;
    let mut i: usize = 0;
    while i < ms.len()
        invariant
            i <= ms@.len(),
            total_triangles(ms@) * 3 <= u32::MAX,
            total == total_triangles(ms@.take(i as int)),
        decreases ms@.len() - i,
    {
        proof {
            crate::types::lemma_total_triangles_elem(ms@, i as int);
            lemma_total_triangles_take_succ(ms@, i as int);
            lemma_total_triangles_take_le(ms@, i + 1 as int);
        }
        total = total + ms[i].triangles.len() as u32;
        i = i + 1;
    }
    proof {
        assert(ms@.take(ms@.len() as int) =~= ms@);
    }
    total
}

impl SiaFile {
    /// Serializes the document. The result is exactly
    /// [`crate::wire::ser_file`] of the document: the byte-level container
    /// with every count recomputed from the collection it describes. For a
    /// document produced by [`crate::decode::decode`], this buffer is
    /// byte-identical to the buffer that was decoded.
    pub fn encode(&self) -> (out: Vec<u8>)
        requires
            self.wf(),
        ensures
            out@ == ser_file(*self),
    {
        let mut out: Vec<u8> = Vec::new();
        let header = exec_header_tag();
        write_raw(&mut out, &header);
        proof {
            assert(out@ =~= crate::wire::header_tag());
        }
        write_u32(&mut out, self.version_maybe);
        write_str32(&mut out, &self.name);
        write_raw(&mut out, &self.unknown1);
        write_u32(&mut out, self.maybe_scale);
        encode_bbox(&mut out, &self.bounding_box);
        write_u32(&mut out, self.meshes.len() as u32);
        encode_mesh_skeletons(&mut out, &self.meshes);
        write_u32(&mut out, self.meshes.len() as u32);
        encode_mesh_details(&mut out, &self.meshes, &self.settings);
        let total_v = count_vertices(&self.meshes);
        write_u32(&mut out, total_v);
        write_u32(&mut out, self.settings.to_bitfield().into_bits());
        encode_mesh_vertices(&mut out, &self.meshes, &self.settings);
        let total_t = count_triangles(&self.meshes);
        write_u32(&mut out, total_t * 3);
        let wide = total_v > 0xFFFF;
        proof {
            if !wide {
                assert forall|i: int, j: int|
                    0 <= i < self.meshes@.len() && 0 <= j
                        < self.meshes@[i].triangles@.len() implies (
                #[trigger] self.meshes@[i].triangles@[j]).0 <= 0xFFFF
                    && self.meshes@[i].triangles@[j].1 <= 0xFFFF
                    && self.meshes@[i].triangles@[j].2 <= 0xFFFF by {
                    lemma_total_vertices_elem(self.meshes@, i);
                }
            }
        }
        encode_mesh_triangles(&mut out, &self.meshes, wide);
        encode_skinning(&mut out, self);
        encode_end(&mut out, &self.end);
        write_u32(&mut out, self.instances.len() as u32);
        encode_instances(&mut out, &self.instances);
        let footer = exec_footer_tag();
        write_raw(&mut out, &footer);
        proof {
            assert(out@ == ser_file(*self));
        }
        out
    }
}

} // verus!
