//! Primitive byte cursor: little-endian integer and string reads over an
//! in-memory buffer, and the mirror-image writes onto a growable output
//! buffer. Every read reports [`SiaParseError::UnexpectedEof`] when fewer
//! bytes remain than requested; every write appends exactly the bytes the
//! wire specification names.

use vstd::prelude::*;
use vstd::bytes::lemma_auto_spec_u16_to_from_le_bytes;
use vstd::bytes::lemma_auto_spec_u32_to_from_le_bytes;
use vstd::bytes::u16_from_le_bytes;
use vstd::bytes::u16_to_le_bytes;
use vstd::bytes::u32_from_le_bytes;
use vstd::bytes::u32_to_le_bytes;
use vstd::slice::slice_subrange;
use vstd::slice::slice_to_vec;
use vstd::string::StringSliceAdditionalSpecFns;
use crate::types::SiaParseError;
use crate::wire::le16;
use crate::wire::le32;
use crate::wire::ser_str32;
use crate::wire::ser_str8;

verus! {

/// Reads one byte.
pub(crate) fn read_u8(bytes: &Vec<u8>, pos: &mut usize) -> (r: Result<u8, SiaParseError>)
    requires
        *old(pos) <= bytes@.len(),
    ensures
        r matches Ok(v) ==> *final(pos) == *old(pos) + 1 && *final(pos) <= bytes@.len() && bytes@.subrange(
            *old(pos) as int,
            *final(pos) as int,
        ) == seq![v],
        r is Err ==> *final(pos) == *old(pos) && bytes@.len() == *old(pos),
        r matches Err(e) ==> e == (SiaParseError::UnexpectedEof { offset: *old(pos) }),
{
    if *pos < bytes.len() {
        let v = bytes[*pos];
        proof {
            assert(bytes@.subrange(*pos as int, *pos + 1 as int) =~= seq![v]);
        }
        *pos = *pos + 1;
        Ok(v)
    } else {
        Err(SiaParseError::UnexpectedEof { offset: *pos })
    }
}

/// Reads a 16-bit little-endian value.
pub(crate) fn read_u16(bytes: &Vec<u8>, pos: &mut usize) -> (r: Result<u16, SiaParseError>)
    requires
        *old(pos) <= bytes@.len(),
    ensures
        r matches Ok(v) ==> *final(pos) == *old(pos) + 2 && *final(pos) <= bytes@.len() && bytes@.subrange(
            *old(pos) as int,
            *final(pos) as int,
        ) == le16(v),
        r is Err ==> *final(pos) == *old(pos) && bytes@.len() - *old(pos) < 2,
        r matches Err(e) ==> e == (SiaParseError::UnexpectedEof { offset: *old(pos) }),
{
    if bytes.len() - *pos >= 2 {
        let s = slice_subrange(bytes.as_slice(), *pos, *pos + 2);
        let v = u16_from_le_bytes(s);
        proof {
            lemma_auto_spec_u16_to_from_le_bytes();
        }
        *pos = *pos + 2;
        Ok(v)
    } else {
        Err(SiaParseError::UnexpectedEof { offset: *pos })
    }
}

/// Reads a 32-bit little-endian value.
pub(crate) fn read_u32(bytes: &Vec<u8>, pos: &mut usize) -> (r: Result<u32, SiaParseError>)
    requires
        *old(pos) <= bytes@.len(),
    ensures
        r matches Ok(v) ==> *final(pos) == *old(pos) + 4 && *final(pos) <= bytes@.len() && bytes@.subrange(
            *old(pos) as int,
            *final(pos) as int,
        ) == le32(v),
        r is Err ==> *final(pos) == *old(pos) && bytes@.len() - *old(pos) < 4,
        r matches Err(e) ==> e == (SiaParseError::UnexpectedEof { offset: *old(pos) }),
{
    if bytes.len() - *pos >= 4 {
        let s = slice_subrange(bytes.as_slice(), *pos, *pos + 4);
        let v = u32_from_le_bytes(s);
        proof {
            lemma_auto_spec_u32_to_from_le_bytes();
        }
        *pos = *pos + 4;
        Ok(v)
    } else {
        Err(SiaParseError::UnexpectedEof { offset: *pos })
    }
}

/// Reads `n` raw bytes.
pub(crate) fn read_bytes(bytes: &Vec<u8>, pos: &mut usize, n: usize) -> (r: Result<
    Vec<u8>,
    SiaParseError,
>)
    requires
        *old(pos) <= bytes@.len(),
    ensures
        r matches Ok(v) ==> *final(pos) == *old(pos) + n && *final(pos) <= bytes@.len() && v@ == bytes@.subrange(
            *old(pos) as int,
            *final(pos) as int,
        ) && v@.len() == n,
        r is Err ==> *final(pos) == *old(pos) && bytes@.len() - *old(pos) < n,
        r matches Err(e) ==> e == (SiaParseError::UnexpectedEof { offset: *old(pos) }),
{
    if n <= bytes.len() - *pos {
        let s = slice_subrange(bytes.as_slice(), *pos, *pos + n);
        let v = slice_to_vec(s);
        *pos = *pos + n;
        Ok(v)
    } else {
        Err(SiaParseError::UnexpectedEof { offset: *pos })
    }
}

/// Reads a string with a 4-byte length prefix, as raw bytes.
pub(crate) fn read_str32(bytes: &Vec<u8>, pos: &mut usize) -> (r: Result<Vec<u8>, SiaParseError>)
    requires
        *old(pos) <= bytes@.len(),
    ensures
        r matches Ok(v) ==> {
            &&& v@.len() <= u32::MAX
            &&& *final(pos) == *old(pos) + 4 + v@.len()
            &&& *final(pos) <= bytes@.len()
            &&& bytes@.subrange(*old(pos) as int, *final(pos) as int) == ser_str32(v@)
        },
        r matches Err(e) ==> e matches SiaParseError::UnexpectedEof { .. },
        r is Err <==> (bytes@.len() - *old(pos) < 4 || 4 + vstd::bytes::spec_u32_from_le_bytes(
            bytes@.subrange(*old(pos) as int, *old(pos) + 4 as int),
        ) > bytes@.len() - *old(pos)),
{
    let o = *pos;
    let n = read_u32(bytes, pos)?;
    proof {
        lemma_auto_spec_u32_to_from_le_bytes();
        assert(le32(n).len() == 4);
        assert(bytes@.subrange(o as int, *pos as int) == le32(n));
        assert(vstd::bytes::spec_u32_from_le_bytes(le32(n)) == n);
        assert(bytes@.subrange(o as int, o + 4 as int) == bytes@.subrange(o as int, *pos as int));
    }
    let v = read_bytes(bytes, pos, n as usize)?;
    proof {
        assert(bytes@.subrange(o as int, *pos as int) =~= bytes@.subrange(o as int, o + 4 as int)
            + bytes@.subrange(o + 4 as int, *pos as int));
        assert(v@.len() as u32 == n);
    }
    Ok(v)
}

/// Reads a string with a 1-byte length prefix, as raw bytes.
pub(crate) fn read_str8(bytes: &Vec<u8>, pos: &mut usize) -> (r: Result<Vec<u8>, SiaParseError>)
    requires
        *old(pos) <= bytes@.len(),
    ensures
        r matches Ok(v) ==> {
            &&& v@.len() <= 255
            &&& *final(pos) == *old(pos) + 1 + v@.len()
            &&& *final(pos) <= bytes@.len()
            &&& bytes@.subrange(*old(pos) as int, *final(pos) as int) == ser_str8(v@)
        },
        r matches Err(e) ==> e matches SiaParseError::UnexpectedEof { .. },
        r is Err <==> (bytes@.len() == *old(pos) || 1 + bytes@[*old(pos) as int] > bytes@.len()
            - *old(pos)),
{
    let o = *pos;
    let n = read_u8(bytes, pos)?;
    proof {
        assert(bytes@.subrange(o as int, o + 1 as int)[0] == bytes@[o as int]);
    }
    let v = read_bytes(bytes, pos, n as usize)?;
    proof {
        assert(bytes@.subrange(o as int, *pos as int) =~= bytes@.subrange(o as int, o + 1 as int)
            + bytes@.subrange(o + 1 as int, *pos as int));
        assert(v@.len() as u8 == n);
    }
    Ok(v)
}

/// Compares two byte buffers for equality of contents.
pub(crate) fn bytes_eq(a: &Vec<u8>, b: &Vec<u8>) -> (r: bool)
    ensures
        r == (a@ == b@),
{
    if a.len() != b.len() {
        return false;
    }
    let mut i: usize = 0;
    while i < a.len()
        invariant
            i <= a@.len(),
            a@.len() == b@.len(),
            forall|k: int| 0 <= k < i ==> a@[k] == b@[k],
        decreases a@.len() - i,
    {
        if a[i] != b[i] {
            return false;
        }
        i = i + 1;
    }
    proof {
        assert(a@ =~= b@);
    }
    true
}

/// Appends one byte.
pub(crate) fn write_u8(out: &mut Vec<u8>, v: u8)
    ensures
        final(out)@ == old(out)@ + seq![v],
{
    out.push(v);
}

/// Appends a 16-bit value in little-endian order.
pub(crate) fn write_u16(out: &mut Vec<u8>, v: u16)
    ensures
        final(out)@ == old(out)@ + le16(v),
{
    let mut b = u16_to_le_bytes(v);
    out.append(&mut b);
}

/// Appends a 32-bit value in little-endian order.
pub(crate) fn write_u32(out: &mut Vec<u8>, v: u32)
    ensures
        final(out)@ == old(out)@ + le32(v),
{
    let mut b = u32_to_le_bytes(v);
    out.append(&mut b);
}

/// Appends raw bytes.
pub(crate) fn write_raw(out: &mut Vec<u8>, data: &Vec<u8>)
    ensures
        final(out)@ == old(out)@ + data@,
{
    out.extend_from_slice(data.as_slice());
}

/// Appends a string (raw bytes) with its 4-byte length prefix.
pub(crate) fn write_str32(out: &mut Vec<u8>, s: &Vec<u8>)
    requires
        s@.len() <= u32::MAX,
    ensures
        final(out)@ == old(out)@ + ser_str32(s@),
{
    write_u32(out, s.len() as u32);
    write_raw(out, s);
}

/// Appends a string (raw bytes) with its 1-byte length prefix.
pub(crate) fn write_str8(out: &mut Vec<u8>, s: &Vec<u8>)
    requires
        s@.len() <= 255,
    ensures
        final(out)@ == old(out)@ + ser_str8(s@),
{
    write_u8(out, s.len() as u8);
    write_raw(out, s);
}

/// Appends the UTF-8 bytes of `text` with a 4-byte length prefix.
pub fn write_string(out: &mut Vec<u8>, text: &str)
    requires
        text.spec_bytes().len() <= u32::MAX,
    ensures
        final(out)@ == old(out)@ + ser_str32(text.spec_bytes()),
{
    let b = text.as_bytes();
    write_u32(out, b.len() as u32);
    out.extend_from_slice(b);
}

/// Appends the UTF-8 bytes of `text` with a 1-byte length prefix.
pub fn write_string_u8_len(out: &mut Vec<u8>, text: &str)
    requires
        text.spec_bytes().len() <= 255,
    ensures
        final(out)@ == old(out)@ + ser_str8(text.spec_bytes()),
{
    let b = text.as_bytes();
    write_u8(out, b.len() as u8);
    out.extend_from_slice(b);
}

} // verus!
