//! Component-level behaviour: the settings register packing, texture kind
//! bytes, string writers, and the key/value sidecar reader.

use sia_codec::jsb::JsbError;
use sia_codec::jsb::Parser;
use sia_codec::jsb::Value;
use sia_codec::types::BoundingBox;
use sia_codec::types::SiaSettings;
use sia_codec::types::SiaSettingsBitField;
use sia_codec::types::TextureKind;
use sia_codec::write_string;
use sia_codec::write_string_u8_len;

#[test]
fn settings_bits_round_trip() {
    for bits in [0u32, 1, 0x3FF, 0x2A5, 0xFFFF_FFFF, 0xDEAD_BEEF] {
        let s = SiaSettings::from_bitfield(SiaSettingsBitField::from_bits(bits));
        assert_eq!(s.to_bitfield().into_bits(), bits);
    }
}

#[test]
fn settings_flags_follow_bit_order() {
    let s = SiaSettings::from_bitfield(SiaSettingsBitField::from_bits(0b10_0010_0101));
    assert!(s.position);
    assert!(!s.normal);
    assert!(s.uv_set1);
    assert!(!s.uv_set2);
    assert!(!s.unknown1);
    assert!(s.tangent);
    assert!(!s.skinned);
    assert!(!s.unknown2);
    assert!(!s.unknown3);
    assert!(s.unknown4);
    assert_eq!(s.reserved, 0);
}

#[test]
fn settings_value_round_trip() {
    let s = SiaSettings {
        position: true,
        normal: true,
        uv_set1: false,
        uv_set2: true,
        unknown1: false,
        tangent: true,
        skinned: false,
        unknown2: false,
        unknown3: true,
        unknown4: false,
        reserved: 0x12345,
    };
    let back = SiaSettings::from_bitfield(s.to_bitfield());
    assert_eq!(back, s);
}

#[test]
fn texture_kind_bytes() {
    let cases = [
        (0u8, TextureKind::Albedo),
        (1, TextureKind::RoughnessMetallicAmbientOcclusion),
        (2, TextureKind::Normal),
        (5, TextureKind::Mask),
        (6, TextureKind::Lightmap),
        (7, TextureKind::Flowmap),
    ];
    for (byte, kind) in cases {
        assert_eq!(TextureKind::from_byte(byte), Some(kind));
        assert_eq!(kind.to_byte(), byte);
    }
    assert_eq!(TextureKind::from_byte(3), None);
    assert_eq!(TextureKind::from_byte(4), None);
    assert_eq!(TextureKind::from_byte(99), None);
}

#[test]
fn write_string_prefixes_with_u32_length() {
    let mut out: Vec<u8> = Vec::new();
    write_string(&mut out, "hello");
    assert_eq!(out, vec![5, 0, 0, 0, b'h', b'e', b'l', b'l', b'o']);
}

#[test]
fn write_string_u8_len_prefixes_with_one_byte() {
    let mut out: Vec<u8> = vec![0xFF];
    write_string_u8_len(&mut out, "ab");
    assert_eq!(out, vec![0xFF, 2, b'a', b'b']);
}

#[test]
fn bounding_box_new_is_zero() {
    let b = BoundingBox::new();
    assert_eq!(b.min_x, 0);
    assert_eq!(b.max_z, 0);
}

fn jsb_record(key: &[u8], kind: u8, payload: &[u8]) -> Vec<u8> {
    let mut b: Vec<u8> = Vec::new();
    b.push(key.len() as u8);
    b.extend_from_slice(key);
    b.push(kind);
    b.extend_from_slice(payload);
    b
}

#[test]
fn jsb_read_key_decodes_ascii() {
    let mut buffer = vec![3u8];
    buffer.extend_from_slice(b"abc");
    let mut parser = Parser::new(buffer);
    assert_eq!(parser.read_key(), "abc");
    assert_eq!(parser.index, 4);
}

#[test]
fn jsb_variable_length_value() {
    let mut payload = (5u32).to_le_bytes().to_vec();
    payload.extend_from_slice(b"value");
    let buffer = jsb_record(b"key", 8, &payload);
    let mut parser = Parser::new(buffer);
    let kvs = parser.parse().expect("record should parse");
    assert_eq!(kvs.len(), 1);
    assert_eq!(kvs[0].0, "key");
    assert_eq!(kvs[0].1, Value::Text("value".to_string()));
}

#[test]
fn jsb_fixed_width_values() {
    let mut buffer = jsb_record(b"a", 216, b"twelve_bytes");
    buffer.extend_from_slice(&jsb_record(b"b", 232, b"thirteen_byte"));
    buffer.extend_from_slice(&jsb_record(b"c", 248, b"fourteen_bytes"));
    let mut parser = Parser::new(buffer);
    let kvs = parser.parse().expect("records should parse");
    assert_eq!(kvs.len(), 3);
    assert_eq!(kvs[0].1, Value::Text("twelve_bytes".to_string()));
    assert_eq!(kvs[1].1, Value::Text("thirteen_byte".to_string()));
    assert_eq!(kvs[2].1, Value::Text("fourteen_bytes".to_string()));
}

#[test]
fn jsb_unknown_value_kind_stops_parse() {
    let buffer = jsb_record(b"k", 74, b"");
    let mut parser = Parser::new(buffer);
    let err = parser.parse().expect_err("kind 74 carries no readable payload");
    assert_eq!(err, JsbError::UnknownValue { value: 74, offset: 2 });
}

#[test]
fn jsb_truncated_record_stops_parse() {
    let mut buffer = vec![5u8];
    buffer.extend_from_slice(b"ke");
    let mut parser = Parser::new(buffer);
    let err = parser.parse().expect_err("truncated key must be rejected");
    assert_eq!(err, JsbError::UnexpectedEof { offset: 0 });
}

#[test]
fn jsb_read_value_unknown_consumes_one_byte() {
    let mut parser = Parser::new(vec![74u8, 1, 2, 3]);
    let v = parser.read_value().expect("unknown kinds read as Unknown");
    assert_eq!(v, Value::Unknown(74));
    assert_eq!(parser.index, 1);
}
