//! Codec for the SHSM (".sia") 3D model container format.
//!
//! The library decodes a byte buffer into a structured document ([`types::SiaFile`])
//! and encodes such a document back to bytes. Both directions are verified against
//! one specification of the wire format, [`wire::ser_file`]: `encode` returns exactly
//! that byte sequence, and `decode` accepts a buffer only if the document it builds
//! serializes back to the very same bytes. Fields whose meaning is not understood
//! (fixed-size blobs, float-valued entries, reserved bits) are carried verbatim as
//! raw bytes or 32-bit patterns, never interpreted, so a decode/encode pair is
//! byte-identical.

pub mod types;
pub mod wire;
mod prim;
pub mod decode;
pub mod encode;
pub mod laws;
pub mod text;
pub mod jsb;

pub use decode::decode;
pub use prim::write_string;
pub use prim::write_string_u8_len;
pub use types::SiaFile;
pub use types::SiaParseError;
