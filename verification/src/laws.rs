//! Provable facts about the wire format beyond the codec contracts
//! themselves: the per-vertex stride is a function of the settings register
//! alone, and the triangle index width is decided once per document by the
//! total vertex count.

use vstd::prelude::*;
use vstd::bytes::lemma_auto_spec_u16_to_from_le_bytes;
use vstd::bytes::lemma_auto_spec_u32_to_from_le_bytes;
use crate::types::SiaFile;
use crate::types::SiaSettings;
use crate::types::SiaTriangle;
use crate::types::SiaVertex;
use crate::wire::ser_file;
use crate::wire::ser_triangle;
use crate::wire::ser_triangles;
use crate::wire::ser_u32s;
use crate::wire::ser_vertex;
use crate::wire::ser_vertices;

verus! {

/// Law: round-trip identity. [`crate::decode::decode`] accepts a buffer only
/// with a document whose serialization is that buffer, and
/// [`crate::types::SiaFile::encode`] returns exactly the serialization, so
/// re-encoding an unmodified decoded document reproduces the decoded buffer
/// byte for byte. A repeated decode therefore runs on identical bytes.
pub proof fn lemma_round_trip(d: SiaFile, bytes: Seq<u8>, encoded: Seq<u8>)
    requires
        d.wf(),
        ser_file(d) == bytes,
        encoded == ser_file(d),
    ensures
        encoded == bytes,
{
}

/// The number of wire bytes one vertex occupies under a given settings
/// register: the sum of the sizes of exactly the enabled attribute blocks.
pub open spec fn vertex_stride(s: SiaSettings) -> int {
    (if s.position {
        12int
    } else {
        0int
    }) + (if s.normal {
        12int
    } else {
        0int
    }) + (if s.uv_set1 {
        8int
    } else {
        0int
    }) + (if s.uv_set2 {
        8int
    } else {
        0int
    }) + (if s.unknown1 {
        8int
    } else {
        0int
    }) + (if s.tangent {
        16int
    } else {
        0int
    }) + (if s.skinned {
        20int
    } else {
        0int
    }) + (if s.unknown3 {
        20int
    } else {
        0int
    }) + (if s.unknown4 {
        4int
    } else {
        0int
    })
}

/// A run of 32-bit values occupies four bytes each.
proof fn lemma_ser_u32s_len(vs: Seq<u32>)
    ensures
        ser_u32s(vs).len() == 4 * vs.len(),
    decreases vs.len(),
{
    lemma_auto_spec_u32_to_from_le_bytes();
    if vs.len() > 0 {
        lemma_ser_u32s_len(vs.drop_last());
    }
}

/// Law: under a fixed settings register, every well-formed vertex occupies
/// exactly [`vertex_stride`] wire bytes — the stride depends on the register
/// alone, never on the vertex.
pub proof fn lemma_vertex_stride(v: SiaVertex, s: SiaSettings)
    requires
        v.wf(s),
    ensures
        ser_vertex(v, s).len() == vertex_stride(s),
{
    lemma_auto_spec_u32_to_from_le_bytes();
    if s.skinned {
        lemma_ser_u32s_len(v.bone.influences@);
    }
}

/// Law: encoding a mesh's vertex stream under a fixed settings register
/// produces exactly `count * stride` bytes, with no padding between
/// vertices.
pub proof fn lemma_vertices_stride(vs: Seq<SiaVertex>, s: SiaSettings)
    requires
        forall|i: int| 0 <= i < vs.len() ==> (#[trigger] vs[i]).wf(s),
    ensures
        ser_vertices(vs, s).len() == vs.len() * vertex_stride(s),
    decreases vs.len(),
{
    if vs.len() > 0 {
        lemma_vertices_stride(vs.drop_last(), s);
        lemma_vertex_stride(vs.last(), s);
        assert((vs.len() - 1) * vertex_stride(s) + vertex_stride(s) == vs.len() * vertex_stride(s))
            by (nonlinear_arith);
    } else {
        assert(vs.len() == 0);
        assert(vs.len() * vertex_stride(s) == 0);
    }
}

/// Law: one triangle occupies 12 wire bytes at the wide index width and 6 at
/// the narrow one.
pub proof fn lemma_triangle_width(t: SiaTriangle, wide: bool)
    ensures
        ser_triangle(t, wide).len() == (if wide {
            12int
        } else {
            6int
        }),
{
    lemma_auto_spec_u16_to_from_le_bytes();
    lemma_auto_spec_u32_to_from_le_bytes();
}

/// Law: a mesh's triangle stream occupies exactly `count * 12` bytes at the
/// wide width and `count * 6` at the narrow one. Together with
/// [`crate::types::SiaFile::wide_indices`] — wide exactly when the document
/// holds more than 65535 vertices in total — this fixes the triangle
/// section's layout from the vertex total alone.
pub proof fn lemma_triangles_width(ts: Seq<SiaTriangle>, wide: bool)
    ensures
        ser_triangles(ts, wide).len() == ts.len() * (if wide {
            12int
        } else {
            6int
        }),
    decreases ts.len(),
{
    let w: int = if wide {
        12
    } else {
        6
    };
    if ts.len() > 0 {
        lemma_triangles_width(ts.drop_last(), wide);
        lemma_triangle_width(ts.last(), wide);
        assert((ts.len() - 1) * w + w == ts.len() * w) by (nonlinear_arith);
    } else {
        assert(ts.len() == 0);
        assert(ts.len() * w == 0);
    }
}

} // verus!
