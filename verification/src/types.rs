//! The in-memory document model for an SHSM container.
//!
//! Every field whose meaning is not understood is carried verbatim: fixed-size
//! blobs as byte vectors, float-valued entries as their little-endian 32-bit
//! patterns, strings as their raw bytes. Count fields are kept alongside the
//! collections they describe; well-formedness (`wf`) ties each count to the
//! length of its collection, and the encoder recomputes every count from the
//! collection itself.

use vstd::prelude::*;

verus! {

/// Errors reported by [`crate::decode::decode`]. Each carries the byte offset
/// at which decoding stopped.
#[derive(Debug, PartialEq)]
pub enum SiaParseError {
    /// The buffer does not start with the 4-byte tag `SHSM`.
    BadHeader { found: Vec<u8>, offset: usize },
    /// The 4 bytes where the closing tag `EHSM` is expected hold something else.
    BadFooter { found: Vec<u8>, offset: usize },
    /// Fewer bytes remain than the field being read requires.
    UnexpectedEof { offset: usize },
    /// A texture kind byte outside the understood set {0, 1, 2, 5, 6, 7}.
    UnknownTextureKind { value: u8, offset: usize },
    /// A terminal record kind byte outside the understood set {0, 2, 42}.
    UnknownTerminalRecordKind { value: u8, offset: usize },
    /// A terminal record kind string outside the understood set.
    UnknownKindType { kind: Vec<u8>, offset: usize },
    /// A mesh sub-type byte outside the understood set.
    UnknownMeshSubType { value: u8, offset: usize },
    /// A triangle names a vertex index at or beyond the owning mesh's vertex count.
    FaceVertexIndexOutOfRange { index: u32, vertices: u32, offset: usize },
    /// A stored count disagrees with the lengths it must describe
    /// (mesh table sizes, vertex/triangle totals, an index count not a
    /// multiple of three, or a skinning flag outside {0, 1}).
    InconsistentCount { stored: u32, expected: u32, offset: usize },
    /// Bytes remain after the closing tag.
    TrailingData { offset: usize },
}

/// The ten named flags of the per-document settings register, together with
/// the 22 reserved high bits, which are preserved verbatim.
///
/// Bit 0 is `position`, bit 9 is `unknown4`; `reserved` holds bits 10..31,
/// shifted down by 10.
#[derive(Clone, Copy, Debug, PartialEq, Eq, Structural)]
pub struct SiaSettings {
    pub position: bool,
    pub normal: bool,
    pub uv_set1: bool,
    pub uv_set2: bool,
    pub unknown1: bool,
    pub tangent: bool,
    pub skinned: bool,
    pub unknown2: bool,
    pub unknown3: bool,
    pub unknown4: bool,
    pub reserved: u32,
}

/// The raw 32-bit settings register as stored on the wire.
#[derive(Clone, Copy, Debug, PartialEq, Eq, Structural)]
pub struct SiaSettingsBitField {
    pub bits: u32,
}

/// `mask` when `b` holds, zero otherwise.
pub open spec fn bit_if(b: bool, mask: u32) -> u32 {
    if b {
        mask
    } else {
        0u32
    }
}

/// The wire value of the settings register: the ten flags in bits 0..9 and
/// the preserved reserved bits above them.
pub open spec fn settings_to_bits(s: SiaSettings) -> u32 {
    bit_if(s.position, 0x1) | bit_if(s.normal, 0x2) | bit_if(s.uv_set1, 0x4) | bit_if(
        s.uv_set2,
        0x8,
    ) | bit_if(s.unknown1, 0x10) | bit_if(s.tangent, 0x20) | bit_if(s.skinned, 0x40) | bit_if(
        s.unknown2,
        0x80,
    ) | bit_if(s.unknown3, 0x100) | bit_if(s.unknown4, 0x200) | (s.reserved << 10)
}

impl SiaSettings {
    /// The reserved field only holds the 22 bits above the named flags.
    pub open spec fn wf(self) -> bool {
        self.reserved < 0x400000
    }

    /// Unpacks the wire register into the ten named flags, keeping the
    /// reserved bits, so that repacking restores the exact register.
    pub fn from_bitfield(field: SiaSettingsBitField) -> (r: SiaSettings)
        ensures
            r.wf(),
            settings_to_bits(r) == field.bits,
            r.position == (field.bits & 0x1 != 0),
            r.normal == (field.bits & 0x2 != 0),
            r.uv_set1 == (field.bits & 0x4 != 0),
            r.uv_set2 == (field.bits & 0x8 != 0),
            r.unknown1 == (field.bits & 0x10 != 0),
            r.tangent == (field.bits & 0x20 != 0),
            r.skinned == (field.bits & 0x40 != 0),
            r.unknown2 == (field.bits & 0x80 != 0),
            r.unknown3 == (field.bits & 0x100 != 0),
            r.unknown4 == (field.bits & 0x200 != 0),
            r.reserved == field.bits >> 10,
    {
        let bits = field.bits;
        let r = SiaSettings {
            position: bits & 0x1 != 0,
            normal: bits & 0x2 != 0,
            uv_set1: bits & 0x4 != 0,
            uv_set2: bits & 0x8 != 0,
            unknown1: bits & 0x10 != 0,
            tangent: bits & 0x20 != 0,
            skinned: bits & 0x40 != 0,
            unknown2: bits & 0x80 != 0,
            unknown3: bits & 0x100 != 0,
            unknown4: bits & 0x200 != 0,
            reserved: bits >> 10,
        };
        proof {
            assert(bits >> 10 < 0x400000) by (bit_vector);
            assert(bit_if(bits & 0x1 != 0, 0x1) == bits & 0x1) by (bit_vector);
            assert(bit_if(bits & 0x2 != 0, 0x2) == bits & 0x2) by (bit_vector);
            assert(bit_if(bits & 0x4 != 0, 0x4) == bits & 0x4) by (bit_vector);
            assert(bit_if(bits & 0x8 != 0, 0x8) == bits & 0x8) by (bit_vector);
            assert(bit_if(bits & 0x10 != 0, 0x10) == bits & 0x10) by (bit_vector);
            assert(bit_if(bits & 0x20 != 0, 0x20) == bits & 0x20) by (bit_vector);
            assert(bit_if(bits & 0x40 != 0, 0x40) == bits & 0x40) by (bit_vector);
            assert(bit_if(bits & 0x80 != 0, 0x80) == bits & 0x80) by (bit_vector);
            assert(bit_if(bits & 0x100 != 0, 0x100) == bits & 0x100) by (bit_vector);
            assert(bit_if(bits & 0x200 != 0, 0x200) == bits & 0x200) by (bit_vector);
            assert((bits & 0x1) | (bits & 0x2) | (bits & 0x4) | (bits & 0x8) | (bits & 0x10) | (
            bits & 0x20) | (bits & 0x40) | (bits & 0x80) | (bits & 0x100) | (bits & 0x200) | ((bits
                >> 10) << 10) == bits) by (bit_vector);
        }
        r
    }

    /// Packs the named flags and the reserved bits back into the wire register.
    pub fn to_bitfield(&self) -> (r: SiaSettingsBitField)
        ensures
            r.bits == settings_to_bits(*self),
    {
        let mut bits: u32 = self.reserved << 10;
        proof {
            let v = self.reserved;
            assert(((v << 10) | 0x1) == (0x1u32 | (v << 10))) by (bit_vector);
        }
        bits = bits | (if self.position {
            0x1
        } else {
            0
        });
        bits = bits | (if self.normal {
            0x2
        } else {
            0
        });
        bits = bits | (if self.uv_set1 {
            0x4
        } else {
            0
        });
        bits = bits | (if self.uv_set2 {
            0x8
        } else {
            0
        });
        bits = bits | (if self.unknown1 {
            0x10
        } else {
            0
        });
        bits = bits | (if self.tangent {
            0x20
        } else {
            0
        });
        bits = bits | (if self.skinned {
            0x40
        } else {
            0
        });
        bits = bits | (if self.unknown2 {
            0x80
        } else {
            0
        });
        bits = bits | (if self.unknown3 {
            0x100
        } else {
            0
        });
        bits = bits | (if self.unknown4 {
            0x200
        } else {
            0
        });
        proof {
            lemma_or_reorder(
                settings_to_bits(*self),
                bit_if(self.position, 0x1),
                bit_if(self.normal, 0x2),
                bit_if(self.uv_set1, 0x4),
                bit_if(self.uv_set2, 0x8),
                bit_if(self.unknown1, 0x10),
                bit_if(self.tangent, 0x20),
                bit_if(self.skinned, 0x40),
                bit_if(self.unknown2, 0x80),
                bit_if(self.unknown3, 0x100),
                bit_if(self.unknown4, 0x200),
                self.reserved << 10,
            );
        }
        SiaSettingsBitField { bits }
    }
}

/// Disjunction of 32-bit words is associative and commutative, so the wire
/// register can be assembled starting from the reserved bits.
proof fn lemma_or_reorder(
    t: u32,
    a: u32,
    b: u32,
    c: u32,
    d: u32,
    e: u32,
    f: u32,
    g: u32,
    h: u32,
    i: u32,
    j: u32,
    k: u32,
)
    requires
        t == a | b | c | d | e | f | g | h | i | j | k,
    ensures
        t == k | a | b | c | d | e | f | g | h | i | j,
{
    assert((a | b | c | d | e | f | g | h | i | j | k) == (k | a | b | c | d | e | f | g | h | i
        | j)) by (bit_vector);
}

impl SiaSettingsBitField {
    /// Wraps a raw wire register.
    pub fn from_bits(bits: u32) -> (r: SiaSettingsBitField)
        ensures
            r.bits == bits,
    {
        SiaSettingsBitField { bits }
    }

    /// The raw wire register.
    pub fn into_bits(self) -> (r: u32)
        ensures
            r == self.bits,
    {
        self.bits
    }
}

/// One texture reference: a typed kind and the raw bytes of its path string.
#[derive(Debug, PartialEq)]
pub struct SiaTexture {
    pub kind: TextureKind,
    pub path: Vec<u8>,
}

/// The closed set of texture kinds observed in sample files. Any other wire
/// byte is a hard decode error.
#[derive(Clone, Copy, Debug, PartialEq, Eq, Structural)]
pub enum TextureKind {
    Albedo,
    RoughnessMetallicAmbientOcclusion,
    Normal,
    Mask,
    Lightmap,
    Flowmap,
}

/// The wire byte of each texture kind.
pub open spec fn texture_kind_byte(k: TextureKind) -> u8 {
    match k {
        TextureKind::Albedo => 0,
        TextureKind::RoughnessMetallicAmbientOcclusion => 1,
        TextureKind::Normal => 2,
        TextureKind::Mask => 5,
        TextureKind::Lightmap => 6,
        TextureKind::Flowmap => 7,
    }
}

impl TextureKind {
    /// Maps a wire byte to its texture kind; `None` outside the closed set.
    pub fn from_byte(value: u8) -> (r: Option<TextureKind>)
        ensures
            r matches Some(k) ==> texture_kind_byte(k) == value,
            r is None <==> !(value == 0 || value == 1 || value == 2 || value == 5 || value == 6
                || value == 7),
    {
        match value {
            0 => Some(TextureKind::Albedo),
            1 => Some(TextureKind::RoughnessMetallicAmbientOcclusion),
            2 => Some(TextureKind::Normal),
            5 => Some(TextureKind::Mask),
            6 => Some(TextureKind::Lightmap),
            7 => Some(TextureKind::Flowmap),
            _ => None,
        }
    }

    /// The wire byte of this kind.
    pub fn to_byte(self) -> (r: u8)
        ensures
            r == texture_kind_byte(self),
    {
        match self {
            TextureKind::Albedo => 0,
            TextureKind::RoughnessMetallicAmbientOcclusion => 1,
            TextureKind::Normal => 2,
            TextureKind::Mask => 5,
            TextureKind::Lightmap => 6,
            TextureKind::Flowmap => 7,
        }
    }
}

/// One material: a kind tag string (raw bytes) and its texture list.
/// `texture_num` mirrors `textures.len()`.
#[derive(Debug, PartialEq)]
pub struct SiaMaterial {
    pub kind: Vec<u8>,
    pub texture_num: u8,
    pub textures: Vec<SiaTexture>,
}

/// Three float components carried as little-endian 32-bit patterns.
#[derive(Clone, Copy, Debug, PartialEq, Eq, Structural)]
pub struct SiaVector3 {
    pub x: u32,
    pub y: u32,
    pub z: u32,
}

/// Two float components carried as little-endian 32-bit patterns.
#[derive(Clone, Copy, Debug, PartialEq, Eq, Structural)]
pub struct SiaVector2 {
    pub x: u32,
    pub y: u32,
}

/// Per-vertex skinning data: four bone indices and four float influences
/// (carried as bit patterns).
#[derive(Debug, PartialEq)]
pub struct SiaBoneVertex {
    pub ids: Vec<u8>,
    pub influences: Vec<u32>,
}

/// One vertex. Which fields are present on the wire is decided per document
/// by [`SiaSettings`]; absent fields keep their default value and are neither
/// read nor written.
#[derive(Debug, PartialEq)]
pub struct SiaVertex {
    pub position: SiaVector3,
    pub normal: SiaVector3,
    pub texture_coords: Vec<SiaVector2>,
    pub tangent: SiaVector3,
    pub unknown1: Vec<u8>,
    pub tangent_unknown: Vec<u8>,
    pub unknown3: Vec<u8>,
    pub unknown4: Vec<u8>,
    pub bone: SiaBoneVertex,
}

impl SiaVertex {
    /// The vertex holds exactly the fields the settings enable, with their
    /// fixed sizes: one UV set always (zero-filled when absent), a second one
    /// only when enabled, and each enabled blob at its wire width.
    pub open spec fn wf(self, s: SiaSettings) -> bool {
        &&& self.texture_coords@.len() == (if s.uv_set2 {
            2int
        } else {
            1int
        })
        &&& (s.unknown1 ==> self.unknown1@.len() == 8)
        &&& (s.tangent ==> self.tangent_unknown@.len() == 4)
        &&& (s.skinned ==> self.bone.ids@.len() == 4 && self.bone.influences@.len() == 4)
        &&& (s.unknown3 ==> self.unknown3@.len() == 20)
        &&& (s.unknown4 ==> self.unknown4@.len() == 4)
    }
}

impl SiaVertex {
    /// The fields the settings register leaves off the wire hold their
    /// defaults: zero vectors, a zero-filled first texture coordinate, and
    /// empty blobs. Decoding never invents content for an absent field.
    pub open spec fn absent_fields_default(self, s: SiaSettings) -> bool {
        &&& (!s.position ==> self.position == (SiaVector3 { x: 0, y: 0, z: 0 }))
        &&& (!s.normal ==> self.normal == (SiaVector3 { x: 0, y: 0, z: 0 }))
        &&& (!s.uv_set1 ==> self.texture_coords@[0] == (SiaVector2 { x: 0, y: 0 }))
        &&& (!s.tangent ==> self.tangent == (SiaVector3 { x: 0, y: 0, z: 0 })
            && self.tangent_unknown@.len() == 0)
        &&& (!s.unknown1 ==> self.unknown1@.len() == 0)
        &&& (!s.skinned ==> self.bone.ids@.len() == 0 && self.bone.influences@.len() == 0)
        &&& (!s.unknown3 ==> self.unknown3@.len() == 0)
        &&& (!s.unknown4 ==> self.unknown4@.len() == 0)
    }
}

/// One triangle: three vertex indices into the owning mesh's vertex list.
#[derive(Clone, Copy, Debug, PartialEq, Eq, Structural)]
pub struct SiaTriangle(pub u32, pub u32, pub u32);

impl SiaTriangle {
    /// Every index names a vertex of the owning mesh.
    pub open spec fn wf(self, vertices: int) -> bool {
        self.0 < vertices && self.1 < vertices && self.2 < vertices
    }
}

/// One mesh. The `*_num` fields mirror the lengths of the corresponding
/// lists; the encoder recomputes them from the lists.
#[derive(Debug, PartialEq)]
pub struct SiaMesh {
    pub materials_num: u8,
    pub vertices_num: u32,
    pub triangles_num: u32,
    pub vertex_offset: u32,
    pub triangle_offset: u32,
    pub id: u32,
    pub unknown: Vec<u8>,
    pub maybe_hash: Vec<u8>,
    pub unknown1: Vec<u8>,
    pub unknown2: Vec<u8>,
    pub unknown3: Vec<u8>,
    pub unknown4: Vec<u8>,
    pub material_type: Vec<u8>,
    pub materials: Vec<SiaMaterial>,
    pub vertices: Vec<SiaVertex>,
    pub triangles: Vec<SiaTriangle>,
}

impl SiaMaterial {
    /// Counts fit their wire prefixes and mirror the list lengths.
    pub open spec fn wf(self) -> bool {
        &&& self.kind@.len() <= u32::MAX
        &&& self.textures@.len() <= 255
        &&& self.texture_num == self.textures@.len()
        &&& forall|i: int|
            0 <= i < self.textures@.len() ==> (#[trigger] self.textures@[i]).path@.len() <= u32::MAX
    }
}

impl SiaMesh {
    /// Blob widths are exact, counts mirror lengths and fit their wire
    /// prefixes, every vertex matches the document settings, and every
    /// triangle indexes into this mesh's vertices.
    pub open spec fn wf(self, s: SiaSettings) -> bool {
        &&& self.unknown@.len() == 8
        &&& self.maybe_hash@.len() == 4
        &&& self.unknown1@.len() == 4
        &&& self.unknown2@.len() == 4
        &&& self.unknown3@.len() == 4
        &&& self.unknown4@.len() == 64
        &&& self.material_type@.len() <= u32::MAX
        &&& self.materials@.len() <= 255
        &&& self.materials_num == self.materials@.len()
        &&& self.vertices_num == self.vertices@.len()
        &&& self.triangles_num == self.triangles@.len()
        &&& self.vertices@.len() <= u32::MAX
        &&& self.triangles@.len() * 3 <= u32::MAX
        &&& forall|i: int| 0 <= i < self.materials@.len() ==> (#[trigger] self.materials@[i]).wf()
        &&& forall|i: int| 0 <= i < self.vertices@.len() ==> (#[trigger] self.vertices@[i]).wf(s)
        &&& forall|i: int|
            0 <= i < self.triangles@.len() ==> (#[trigger] self.triangles@[i]).wf(
                self.vertices@.len() as int,
            )
    }
}

/// One opaque 56-byte bone record.
#[derive(Debug, PartialEq)]
pub struct SiaBone {
    pub data: Vec<u8>,
}

/// The terminal record: a discriminated tail after the triangle data. The
/// variant fully determines the wire shape, so a tag/payload mismatch is
/// unrepresentable.
#[derive(Debug, PartialEq)]
pub enum EndKind {
    /// Record kind byte 0: no payload.
    Unknown,
    /// Record kind byte 2: an opaque 16-byte payload.
    Opaque16(Vec<u8>),
    /// Record kind byte 42 with kind string `mesh_type`.
    MeshType(MeshType),
    /// Record kind byte 42 with kind string `is_banner`: a single flag byte.
    IsBanner(u8),
    /// Record kind byte 42 with kind string `is_comp_banner`.
    IsCompBanner(u8),
    /// Record kind byte 42 with kind string `is_match_ball`.
    IsMatchBall(u8),
    /// Record kind byte 42 with kind string `is_team_logo`.
    IsTeamLogo(u8),
}

/// The sub-variants of the `mesh_type` terminal record, each carrying the raw
/// bytes of its payload string.
#[derive(Debug, PartialEq)]
pub enum MeshType {
    /// Sub-type byte 2: a 4-byte opaque blob, then a string with a 1-byte
    /// length prefix.
    RenderFlags(Vec<u8>, Vec<u8>),
    /// Sub-type byte 8: a string with a 4-byte length prefix.
    VariableLength(Vec<u8>),
    /// Sub-type byte 88: a fixed 4-byte string.
    BodyPart(Vec<u8>),
    /// Sub-type byte 152: a fixed 8-byte string.
    RearCap(Vec<u8>),
    /// Sub-type byte 136: a fixed 7-byte string.
    Glasses(Vec<u8>),
    /// Sub-type byte 216: a fixed 12-byte string.
    StadiumRoof(Vec<u8>),
    /// Sub-type byte 232: a fixed 13-byte string.
    PlayerTunnel(Vec<u8>),
    /// Sub-type byte 248: a fixed 14-byte string.
    SideCap(Vec<u8>),
}

impl EndKind {
    /// Every payload has exactly the width its wire shape dictates.
    pub open spec fn wf(self) -> bool {
        match self {
            EndKind::Unknown => true,
            EndKind::Opaque16(d) => d@.len() == 16,
            EndKind::MeshType(mt) => match mt {
                MeshType::RenderFlags(blob, s) => blob@.len() == 4 && s@.len() <= 255,
                MeshType::VariableLength(s) => s@.len() <= u32::MAX,
                MeshType::BodyPart(s) => s@.len() == 4,
                MeshType::RearCap(s) => s@.len() == 8,
                MeshType::Glasses(s) => s@.len() == 7,
                MeshType::StadiumRoof(s) => s@.len() == 12,
                MeshType::PlayerTunnel(s) => s@.len() == 13,
                MeshType::SideCap(s) => s@.len() == 14,
            },
            EndKind::IsBanner(_) => true,
            EndKind::IsCompBanner(_) => true,
            EndKind::IsMatchBall(_) => true,
            EndKind::IsTeamLogo(_) => true,
        }
    }
}

/// One placement record: a kind, 14 float entries (bit patterns), an opaque
/// blob, groups of four positions, and two strings (raw bytes). `num1` is the
/// group count and mirrors `positions.len() / 4`.
#[derive(Debug, PartialEq)]
pub struct SiaInstance {
    pub kind: u32,
    pub matrix_values_and_unknown: Vec<u32>,
    pub unknown: Vec<u8>,
    pub num1: u32,
    pub positions: Vec<SiaVector3>,
    pub name: Vec<u8>,
    pub path: Vec<u8>,
}

impl SiaInstance {
    /// Fixed widths are exact and the positions come in `num1` groups of four.
    pub open spec fn wf(self) -> bool {
        &&& self.matrix_values_and_unknown@.len() == 14
        &&& self.unknown@.len() == 24
        &&& self.positions@.len() == 4 * self.num1
        &&& self.name@.len() <= u32::MAX
        &&& self.path@.len() <= u32::MAX
    }
}

/// The axis-aligned bounding box: six float components carried as 32-bit
/// patterns, minimum corner before maximum corner, in wire order.
#[derive(Clone, Copy, Debug, PartialEq, Eq, Structural)]
pub struct BoundingBox {
    pub min_x: u32,
    pub min_y: u32,
    pub min_z: u32,
    pub max_x: u32,
    pub max_y: u32,
    pub max_z: u32,
}

impl BoundingBox {
    /// The all-zero box (every component is the bit pattern of 0.0).
    pub fn new() -> (r: BoundingBox)
        ensures
            r == (BoundingBox { min_x: 0, min_y: 0, min_z: 0, max_x: 0, max_y: 0, max_z: 0 }),
    {
        BoundingBox { min_x: 0, min_y: 0, min_z: 0, max_x: 0, max_y: 0, max_z: 0 }
    }
}

/// A whole decoded document.
#[derive(Debug, PartialEq)]
pub struct SiaFile {
    pub version_maybe: u32,
    pub name: Vec<u8>,
    pub unknown1: Vec<u8>,
    pub maybe_scale: u32,
    pub bounding_box: BoundingBox,
    pub objects_num: u32,
    pub meshes: Vec<SiaMesh>,
    pub meshes_num: u32,
    pub vertices_total_num: u32,
    pub settings: SiaSettings,
    pub number_of_triangles: u32,
    pub is_skinned: bool,
    pub number_of_bones: u32,
    pub root_bone_hash_maybe: Vec<u8>,
    pub bones: Vec<SiaBone>,
    pub end: EndKind,
    pub instances: Vec<SiaInstance>,
}

/// The number of vertices over all meshes of `ms`.
pub open spec fn total_vertices(ms: Seq<SiaMesh>) -> int
    decreases ms.len(),
{
    if ms.len() == 0 {
        0
    } else {
        total_vertices(ms.drop_last()) + ms.last().vertices@.len()
    }
}

/// The number of triangles over all meshes of `ms`.
pub open spec fn total_triangles(ms: Seq<SiaMesh>) -> int
    decreases ms.len(),
{
    if ms.len() == 0 {
        0
    } else {
        total_triangles(ms.drop_last()) + ms.last().triangles@.len()
    }
}

impl Default for SiaSettings {
    /// Every flag clear, reserved bits zero.
    fn default() -> (r: SiaSettings)
        ensures
            r.wf(),
            settings_to_bits(r) == 0,
            !r.position && !r.normal && !r.uv_set1 && !r.uv_set2 && !r.skinned,
    {
        proof {
            assert((0u32 << 10) == 0u32) by (bit_vector);
            assert((0u32 | 0u32) == 0u32) by (bit_vector);
        }
        SiaSettings {
            position: false,
            normal: false,
            uv_set1: false,
            uv_set2: false,
            unknown1: false,
            tangent: false,
            skinned: false,
            unknown2: false,
            unknown3: false,
            unknown4: false,
            reserved: 0,
        }
    }
}

impl Default for SiaVector3 {
    /// All components are the bit pattern of 0.0.
    fn default() -> (r: SiaVector3)
        ensures
            r == (SiaVector3 { x: 0, y: 0, z: 0 }),
    {
        SiaVector3 { x: 0, y: 0, z: 0 }
    }
}

impl Default for SiaVector2 {
    /// Both components are the bit pattern of 0.0.
    fn default() -> (r: SiaVector2)
        ensures
            r == (SiaVector2 { x: 0, y: 0 }),
    {
        SiaVector2 { x: 0, y: 0 }
    }
}

impl Default for SiaBoneVertex {
    /// No bone references.
    fn default() -> (r: SiaBoneVertex)
        ensures
            r.ids@.len() == 0,
            r.influences@.len() == 0,
    {
        SiaBoneVertex { ids: Vec::new(), influences: Vec::new() }
    }
}

impl Default for SiaVertex {
    /// Zero vectors and empty optional fields.
    fn default() -> (r: SiaVertex)
        ensures
            r.position == (SiaVector3 { x: 0, y: 0, z: 0 }),
            r.normal == (SiaVector3 { x: 0, y: 0, z: 0 }),
            r.texture_coords@.len() == 0,
            r.unknown1@.len() == 0,
            r.tangent_unknown@.len() == 0,
            r.unknown3@.len() == 0,
            r.unknown4@.len() == 0,
            r.bone.ids@.len() == 0,
            r.bone.influences@.len() == 0,
    {
        SiaVertex {
            position: SiaVector3 { x: 0, y: 0, z: 0 },
            normal: SiaVector3 { x: 0, y: 0, z: 0 },
            texture_coords: Vec::new(),
            tangent: SiaVector3 { x: 0, y: 0, z: 0 },
            unknown1: Vec::new(),
            tangent_unknown: Vec::new(),
            unknown3: Vec::new(),
            unknown4: Vec::new(),
            bone: SiaBoneVertex { ids: Vec::new(), influences: Vec::new() },
        }
    }
}

impl Default for TextureKind {
    /// The most common kind.
    fn default() -> (r: TextureKind)
        ensures
            r == TextureKind::Albedo,
    {
        TextureKind::Albedo
    }
}

impl Default for SiaTexture {
    /// An albedo reference with an empty path.
    fn default() -> (r: SiaTexture)
        ensures
            r.kind == TextureKind::Albedo,
            r.path@.len() == 0,
    {
        SiaTexture { kind: TextureKind::Albedo, path: Vec::new() }
    }
}

impl Default for SiaMaterial {
    /// An empty material.
    fn default() -> (r: SiaMaterial)
        ensures
            r.wf(),
            r.kind@.len() == 0,
            r.textures@.len() == 0,
    {
        SiaMaterial { kind: Vec::new(), texture_num: 0, textures: Vec::new() }
    }
}

impl Default for SiaTriangle {
    /// All three indices zero.
    fn default() -> (r: SiaTriangle)
        ensures
            r == (SiaTriangle(0, 0, 0)),
    {
        SiaTriangle(0, 0, 0)
    }
}

impl Default for EndKind {
    /// The terminal record is absent.
    fn default() -> (r: EndKind)
        ensures
            r == EndKind::Unknown,
            r.wf(),
    {
        EndKind::Unknown
    }
}

impl Default for SiaMesh {
    /// An empty mesh whose opaque blobs already have their wire widths, so
    /// it is well formed under any settings register.
    fn default() -> (r: SiaMesh)
        ensures
            forall|s: SiaSettings| r.wf(s),
            r.vertices@.len() == 0,
            r.triangles@.len() == 0,
            r.materials@.len() == 0,
    {
        let r = SiaMesh {
            materials_num: 0,
            vertices_num: 0,
            triangles_num: 0,
            vertex_offset: 0,
            triangle_offset: 0,
            id: 0,
            unknown: vec![0u8; 8],
            maybe_hash: vec![0u8; 4],
            unknown1: vec![0u8; 4],
            unknown2: vec![0u8; 4],
            unknown3: vec![0u8; 4],
            unknown4: vec![0u8; 64],
            material_type: Vec::new(),
            materials: Vec::new(),
            vertices: Vec::new(),
            triangles: Vec::new(),
        };
        r
    }
}

impl Default for SiaInstance {
    /// A zeroed placement record, as the decoder's starting point; its float
    /// list is empty, so it is not yet well formed.
    fn default() -> (r: SiaInstance)
        ensures
            r.kind == 0,
            r.matrix_values_and_unknown@.len() == 0,
            r.unknown@.len() == 24,
            r.num1 == 0,
            r.positions@.len() == 0,
            r.name@.len() == 0,
            r.path@.len() == 0,
    {
        SiaInstance {
            kind: 0,
            matrix_values_and_unknown: Vec::new(),
            unknown: vec![0u8; 24],
            num1: 0,
            positions: Vec::new(),
            name: Vec::new(),
            path: Vec::new(),
        }
    }
}

impl Default for SiaFile {
    /// An empty, well-formed document: no meshes, no instances, no terminal
    /// record, every flag clear.
    fn default() -> (r: SiaFile)
        ensures
            r.wf(),
            r.meshes@.len() == 0,
            r.instances@.len() == 0,
            r.end == EndKind::Unknown,
            !r.is_skinned,
    {
        SiaFile {
            version_maybe: 0,
            name: Vec::new(),
            unknown1: vec![0u8; 12],
            maybe_scale: 0,
            bounding_box: BoundingBox { min_x: 0, min_y: 0, min_z: 0, max_x: 0, max_y: 0, max_z: 0 },
            objects_num: 0,
            meshes: Vec::new(),
            meshes_num: 0,
            vertices_total_num: 0,
            settings: SiaSettings {
                position: false,
                normal: false,
                uv_set1: false,
                uv_set2: false,
                unknown1: false,
                tangent: false,
                skinned: false,
                unknown2: false,
                unknown3: false,
                unknown4: false,
                reserved: 0,
            },
            number_of_triangles: 0,
            is_skinned: false,
            number_of_bones: 0,
            root_bone_hash_maybe: vec![0u8; 4],
            bones: Vec::new(),
            end: EndKind::Unknown,
            instances: Vec::new(),
        }
    }
}

/// A vertex total is never negative.
pub proof fn lemma_total_vertices_nonneg(ms: Seq<SiaMesh>)
    ensures
        total_vertices(ms) >= 0,
    decreases ms.len(),
{
    if ms.len() > 0 {
        lemma_total_vertices_nonneg(ms.drop_last());
    }
}

/// Each mesh's vertex count is at most the document total.
pub proof fn lemma_total_vertices_elem(ms: Seq<SiaMesh>, i: int)
    requires
        0 <= i < ms.len(),
    ensures
        ms[i].vertices@.len() <= total_vertices(ms),
    decreases ms.len(),
{
    lemma_total_vertices_nonneg(ms.drop_last());
    if i < ms.len() - 1 {
        lemma_total_vertices_elem(ms.drop_last(), i);
    }
}

/// Extending a prefix by one mesh adds that mesh's vertex count.
pub proof fn lemma_total_vertices_take_succ(ms: Seq<SiaMesh>, i: int)
    requires
        0 <= i < ms.len(),
    ensures
        total_vertices(ms.take(i + 1)) == total_vertices(ms.take(i)) + ms[i].vertices@.len(),
{
    assert(ms.take(i + 1).drop_last() =~= ms.take(i));
    assert(ms.take(i + 1).last() == ms[i]);
}

/// A prefix never holds more vertices than the whole.
pub proof fn lemma_total_vertices_take_le(ms: Seq<SiaMesh>, i: int)
    requires
        0 <= i <= ms.len(),
    ensures
        total_vertices(ms.take(i)) <= total_vertices(ms),
    decreases ms.len() - i,
{
    if i == ms.len() {
        assert(ms.take(i) =~= ms);
    } else {
        lemma_total_vertices_take_succ(ms, i);
        lemma_total_vertices_take_le(ms, i + 1);
    }
}

/// A triangle total is never negative.
pub proof fn lemma_total_triangles_nonneg(ms: Seq<SiaMesh>)
    ensures
        total_triangles(ms) >= 0,
    decreases ms.len(),
{
    if ms.len() > 0 {
        lemma_total_triangles_nonneg(ms.drop_last());
    }
}

/// Each mesh's triangle count is at most the document total.
pub proof fn lemma_total_triangles_elem(ms: Seq<SiaMesh>, i: int)
    requires
        0 <= i < ms.len(),
    ensures
        ms[i].triangles@.len() <= total_triangles(ms),
    decreases ms.len(),
{
    lemma_total_triangles_nonneg(ms.drop_last());
    if i < ms.len() - 1 {
        lemma_total_triangles_elem(ms.drop_last(), i);
    }
}

/// Extending a prefix by one mesh adds that mesh's triangle count.
pub proof fn lemma_total_triangles_take_succ(ms: Seq<SiaMesh>, i: int)
    requires
        0 <= i < ms.len(),
    ensures
        total_triangles(ms.take(i + 1)) == total_triangles(ms.take(i)) + ms[i].triangles@.len(),
{
    assert(ms.take(i + 1).drop_last() =~= ms.take(i));
    assert(ms.take(i + 1).last() == ms[i]);
}

/// A prefix never holds more triangles than the whole.
pub proof fn lemma_total_triangles_take_le(ms: Seq<SiaMesh>, i: int)
    requires
        0 <= i <= ms.len(),
    ensures
        total_triangles(ms.take(i)) <= total_triangles(ms),
    decreases ms.len() - i,
{
    if i == ms.len() {
        assert(ms.take(i) =~= ms);
    } else {
        lemma_total_triangles_take_succ(ms, i);
        lemma_total_triangles_take_le(ms, i + 1);
    }
}

impl SiaFile {
    /// Whether triangle indices use 4 wire bytes (more than 65535 vertices in
    /// the whole document) or 2. The choice is document-global.
    pub open spec fn wide_indices(self) -> bool {
        total_vertices(self.meshes@) > 0xFFFF
    }

    /// Every field the wire does not carry holds its default: per-vertex
    /// fields under cleared settings flags, and the root bone hash of an
    /// unskinned document. Together with [`Self::wf`] and the serialization
    /// equality, this functionally determines a decoded document.
    pub open spec fn absent_fields_default(self) -> bool {
        &&& (!self.is_skinned ==> self.root_bone_hash_maybe@.len() == 0)
        &&& forall|i: int, j: int|
            #![auto]
            0 <= i < self.meshes@.len() && 0 <= j < self.meshes@[i].vertices@.len()
                ==> self.meshes@[i].vertices@[j].absent_fields_default(self.settings)
    }

    /// Structural well-formedness: what `decode` guarantees of its result and
    /// `encode` requires of its input. Blob widths are exact, every count
    /// field mirrors the length of its collection, all counts fit their wire
    /// prefixes, and bones are present exactly when the skinning flag is set.
    pub open spec fn wf(self) -> bool {
        &&& self.name@.len() <= u32::MAX
        &&& self.unknown1@.len() == 12
        &&& self.settings.wf()
        &&& self.meshes@.len() <= u32::MAX
        &&& self.objects_num == self.meshes@.len()
        &&& self.meshes_num == self.meshes@.len()
        &&& total_vertices(self.meshes@) <= u32::MAX
        &&& self.vertices_total_num == total_vertices(self.meshes@)
        &&& total_triangles(self.meshes@) * 3 <= u32::MAX
        &&& self.number_of_triangles == total_triangles(self.meshes@)
        &&& forall|i: int|
            0 <= i < self.meshes@.len() ==> (#[trigger] self.meshes@[i]).wf(self.settings)
        &&& (self.is_skinned ==> {
            &&& self.root_bone_hash_maybe@.len() == 4
            &&& self.bones@.len() == self.number_of_bones
            &&& forall|i: int| 0 <= i < self.bones@.len() ==> (#[trigger] self.bones@[i]).data@.len() == 56
        })
        &&& (!self.is_skinned ==> self.bones@.len() == 0)
        &&& self.end.wf()
        &&& self.instances@.len() <= u32::MAX
        &&& forall|i: int| 0 <= i < self.instances@.len() ==> (#[trigger] self.instances@[i]).wf()
    }
}

} // verus!
