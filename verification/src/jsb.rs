//! A reader for the engine's key/value sidecar format: a flat run of
//! records, each a length-prefixed key string followed by a typed value. The
//! value's kind byte selects its shape: a 4-byte-length-prefixed string, one
//! of three fixed-width strings, or a kind this reader does not understand.

use vstd::prelude::*;
use vstd::bytes::lemma_auto_spec_u32_to_from_le_bytes;
use vstd::bytes::spec_u32_from_le_bytes;
use vstd::slice::slice_subrange;
use crate::prim::read_bytes;
use crate::prim::read_u32;
use crate::text::decode_utf8_lossy;
use crate::text::lossy_utf8;

verus! {

/// Errors reported while reading the key/value format.
#[derive(Debug, PartialEq)]
pub enum JsbError {
    /// Fewer bytes remain than the record being read requires.
    UnexpectedEof { offset: usize },
    /// A value kind byte this reader does not understand.
    UnknownValue { value: u8, offset: usize },
}

/// One decoded value: a string, or an unrecognized kind byte.
#[derive(Debug, PartialEq)]
pub enum Value {
    Text(String),
    Unknown(u8),
}

/// The known value kind bytes.
#[derive(Clone, Copy, Debug, PartialEq, Eq, Structural)]
pub enum ValueType {
    RenderFlags,
    VariableLength,
    Index,
    BodyPart,
    RearCap,
    Glasses,
    OfficeSmall,
    OfficeMedium,
    LargeBoardroom,
    Unknown,
}

impl ValueType {
    /// Maps a wire byte to its kind; unrecognized bytes map to `Unknown`.
    pub fn from_byte(value: u8) -> (r: ValueType)
        ensures
            r == ValueType::VariableLength <==> value == 8,
            r == ValueType::OfficeSmall <==> value == 216,
            r == ValueType::OfficeMedium <==> value == 232,
            r == ValueType::LargeBoardroom <==> value == 248,
            r == ValueType::RenderFlags <==> value == 2,
            r == ValueType::Index <==> value == 74,
            r == ValueType::BodyPart <==> value == 88,
            r == ValueType::RearCap <==> value == 152,
            r == ValueType::Glasses <==> value == 136,
    {
        match value {
            2 => ValueType::RenderFlags,
            8 => ValueType::VariableLength,
            74 => ValueType::Index,
            88 => ValueType::BodyPart,
            152 => ValueType::RearCap,
            136 => ValueType::Glasses,
            216 => ValueType::OfficeSmall,
            232 => ValueType::OfficeMedium,
            248 => ValueType::LargeBoardroom,
            _ => ValueType::Unknown,
        }
    }
}

/// A forward cursor over an in-memory buffer of the key/value format.
#[derive(Debug)]
pub struct Parser {
    pub index: usize,
    pub buffer: Vec<u8>,
}

impl Parser {
    /// A cursor at the start of the given buffer.
    pub fn new(buffer: Vec<u8>) -> (r: Parser)
        ensures
            r.index == 0,
            r.buffer == buffer,
    {
        Parser { index: 0, buffer }
    }

    /// Reads one key: a 1-byte length prefix, then that many bytes, decoded
    /// lossily. The caller must have checked that the record fits the
    /// buffer.
    pub fn read_key(&mut self) -> (r: String)
        requires
            old(self).index < old(self).buffer@.len(),
            old(self).index + 1 + old(self).buffer@[old(self).index as int] <= old(
                self,
            ).buffer@.len(),
        ensures
            final(self).buffer == old(self).buffer,
            final(self).index == old(self).index + 1 + old(self).buffer@[old(self).index as int],
            r@ == lossy_utf8(
                old(self).buffer@.subrange(
                    old(self).index + 1,
                    old(self).index + 1 + old(self).buffer@[old(self).index as int],
                ),
            ),
    {
        let buffer_len = self.buffer.len();
        proof {
            assert(self.index + 1 + self.buffer@[self.index as int] <= buffer_len);
        }
        let length = self.buffer[self.index] as usize;
        let start = self.index + 1;
        let key_bytes = slice_subrange(self.buffer.as_slice(), start, start + length);
        let key = decode_utf8_lossy(key_bytes);
        self.index = start + length;
        key
    }

    /// Reads one value. The kind byte decides the shape: `8` a string with a
    /// 4-byte little-endian length prefix; `216`/`232`/`248` fixed strings of
    /// 12/13/14 bytes; any other byte is returned as `Unknown` after the one
    /// byte, as the sidecar tooling does.
    pub fn read_value(&mut self) -> (r: Result<Value, JsbError>)
        requires
            old(self).index <= old(self).buffer@.len(),
        ensures
            final(self).buffer == old(self).buffer,
            r is Err ==> final(self).index == old(self).index,
            r matches Err(e) ==> e matches JsbError::UnexpectedEof { .. },
            r is Err ==> {
                let len = old(self).buffer@.len();
                let i = old(self).index as int;
                ||| i == len
                ||| (old(self).buffer@[i] == 216 && len - i < 13)
                ||| (old(self).buffer@[i] == 232 && len - i < 14)
                ||| (old(self).buffer@[i] == 248 && len - i < 15)
                ||| (old(self).buffer@[i] == 8 && (len - i < 5 || 5 + spec_u32_from_le_bytes(
                    old(self).buffer@.subrange(i + 1, i + 5),
                ) > len - i))
            },
            r matches Ok(v) ==> {
                let b = old(self).buffer@[old(self).index as int];
                &&& old(self).index < old(self).buffer@.len()
                &&& final(self).index <= final(self).buffer@.len()
                &&& final(self).index > old(self).index
                &&& (!(b == 8 || b == 216 || b == 232 || b == 248) ==> v == Value::Unknown(b)
                    && final(self).index == old(self).index + 1)
                &&& ((b == 216 || b == 232 || b == 248) ==> {
                    let n: int = if b == 216 {
                        12int
                    } else if b == 232 {
                        13int
                    } else {
                        14int
                    };
                    &&& final(self).index == old(self).index + 1 + n
                    &&& (v matches Value::Text(s) && s@ == lossy_utf8(
                        old(self).buffer@.subrange(
                            old(self).index + 1,
                            old(self).index + 1 + n,
                        ),
                    ))
                })
                &&& (b == 8 ==> {
                    let n = spec_u32_from_le_bytes(
                        old(self).buffer@.subrange(old(self).index + 1, old(self).index + 5),
                    );
                    &&& final(self).index == old(self).index + 5 + n
                    &&& (v matches Value::Text(s) && s@ == lossy_utf8(
                        old(self).buffer@.subrange(
                            old(self).index + 5,
                            old(self).index + 5 + n,
                        ),
                    ))
                })
            },
    {
        let mut pos = self.index;
        let kind_byte = match crate::prim::read_u8(&self.buffer, &mut pos) {
            Ok(b) => b,
            Err(_) => {
                return Err(JsbError::UnexpectedEof { offset: self.index });
            },
        };
        proof {
            assert(self.buffer@.subrange(self.index as int, self.index + 1 as int)[0]
                == self.buffer@[self.index as int]);
        }
        let kind = ValueType::from_byte(kind_byte);
        match kind {
            ValueType::VariableLength => {
                let length = match read_u32(&self.buffer, &mut pos) {
                    Ok(v) => v,
                    Err(_) => {
                        return Err(JsbError::UnexpectedEof { offset: self.index });
                    },
                };
                proof {
                    lemma_auto_spec_u32_to_from_le_bytes();
                    assert(self.buffer@.subrange(self.index + 1, self.index + 5)
                        == crate::wire::le32(length));
                    assert(spec_u32_from_le_bytes(crate::wire::le32(length)) == length);
                    assert(spec_u32_from_le_bytes(
                        self.buffer@.subrange(self.index + 1, self.index + 5),
                    ) == length);
                }
                let text_bytes = match read_bytes(&self.buffer, &mut pos, length as usize) {
                    Ok(v) => v,
                    Err(_) => {
                        return Err(JsbError::UnexpectedEof { offset: self.index });
                    },
                };
                let text = decode_utf8_lossy(text_bytes.as_slice());
                self.index = pos;
                Ok(Value::Text(text))
            },
            ValueType::OfficeSmall => {
                let text_bytes = match read_bytes(&self.buffer, &mut pos, 12) {
                    Ok(v) => v,
                    Err(_) => {
                        return Err(JsbError::UnexpectedEof { offset: self.index });
                    },
                };
                let text = decode_utf8_lossy(text_bytes.as_slice());
                self.index = pos;
                Ok(Value::Text(text))
            },
            ValueType::OfficeMedium => {
                let text_bytes = match read_bytes(&self.buffer, &mut pos, 13) {
                    Ok(v) => v,
                    Err(_) => {
                        return Err(JsbError::UnexpectedEof { offset: self.index });
                    },
                };
                let text = decode_utf8_lossy(text_bytes.as_slice());
                self.index = pos;
                Ok(Value::Text(text))
            },
            ValueType::LargeBoardroom => {
                let text_bytes = match read_bytes(&self.buffer, &mut pos, 14) {
                    Ok(v) => v,
                    Err(_) => {
                        return Err(JsbError::UnexpectedEof { offset: self.index });
                    },
                };
                let text = decode_utf8_lossy(text_bytes.as_slice());
                self.index = pos;
                Ok(Value::Text(text))
            },
            _ => {
                self.index = pos;
                Ok(Value::Unknown(kind_byte))
            },
        }
    }

    /// Reads the whole buffer as key/value records. Stops with an error at
    /// the first truncated record or unrecognized value kind; on success the
    /// cursor stands at the end of the buffer.
    pub fn parse(&mut self) -> (r: Result<Vec<(String, Value)>, JsbError>)
        ensures
            final(self).buffer == old(self).buffer,
            r is Ok ==> final(self).index == final(self).buffer@.len(),
            r matches Ok(kvs) ==> forall|i: int|
                0 <= i < kvs@.len() ==> (#[trigger] kvs@[i].1) matches Value::Text(_),
            r matches Err(e) ==> (e matches JsbError::UnexpectedEof { .. } || (e matches
                JsbError::UnknownValue { value, offset } && offset < old(self).buffer@.len()
                && old(self).buffer@[offset as int] == value && !(value == 8 || value == 216
                || value == 232 || value == 248))),
    {
        self.index = 0;
        let mut out: Vec<(String, Value)> = Vec::new();
        while self.index < self.buffer.len()
            invariant
                self.index <= self.buffer@.len(),
                self.buffer == old(self).buffer,
                forall|i: int| 0 <= i < out@.len() ==> (#[trigger] out@[i].1) matches Value::Text(_),
            decreases self.buffer@.len() - self.index,
        {
            let key_len = self.buffer[self.index] as usize;
            if key_len + 1 > self.buffer.len() - self.index {
                return Err(JsbError::UnexpectedEof { offset: self.index });
            }
            let key = self.read_key();
            let value_offset = self.index;
            let value = match self.read_value() {
                Ok(v) => v,
                Err(e) => {
                    return Err(e);
                },
            };
            match &value {
                Value::Unknown(b) => {
                    return Err(JsbError::UnknownValue { value: *b, offset: value_offset });
                },
                Value::Text(_) => {},
            }
            out.push((key, value));
        }
        Ok(out)
    }
}

} // verus!
