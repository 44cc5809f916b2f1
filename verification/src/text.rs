//! Lossy text decoding for display strings.
//!
//! The document model carries strings as raw bytes so that round-trips stay
//! byte-exact; this module turns such bytes into a `String` the way the
//! format's tooling does, replacing invalid UTF-8 sequences instead of
//! rejecting them.

use vstd::prelude::*;

verus! {

/// The character sequence that lossy UTF-8 decoding yields for a given byte
/// sequence: invalid sequences are replaced, valid ones decoded. The result
/// depends on the bytes alone.
pub uninterp spec fn lossy_utf8(bytes: Seq<u8>) -> Seq<char>;

/// Relies on `String::from_utf8_lossy`: the result depends on the bytes
/// alone, and a valid UTF-8 input — in particular, pure ASCII — decodes to
/// its own characters, one per byte.
#[verifier::external_body]
pub fn decode_utf8_lossy(bytes: &[u8]) -> (r: String)
    ensures
        r@ == lossy_utf8(bytes@),
        (forall|i: int| 0 <= i < bytes@.len() ==> bytes@[i] < 128) ==> r@ == Seq::new(
            bytes@.len(),
            |i: int| bytes@[i] as char,
        ),
{
    String::from_utf8_lossy(bytes).into_owned()
}

} // verus!
