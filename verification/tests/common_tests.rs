use bytes::{Buf, Bytes, BytesMut};
use moqtail::error::ParseError;
use moqtail::model::common::grease::{grease_value, is_grease};
use moqtail::model::common::pair::{
    deserialize_kvp_list, deserialize_kvp_list_until_empty, serialize_kvp_list, KeyValuePair,
    MAX_VALUE_LENGTH,
};
use moqtail::model::common::varint::{BufMutVarIntExt, BufVarIntExt};

#[test]
fn recognizes_the_documented_grease_values() {
    assert!(is_grease(0x9d));
    assert!(is_grease(0x11c));
    assert!(is_grease(0x3fffffffffffffde));
    for n in 0..1000 {
        assert!(is_grease(grease_value(n).unwrap()), "N={n}");
    }
}

#[test]
fn rejects_non_grease_values() {
    for v in [0u64, 1, 0x02, 0x9c, 0x9e, 0x11b, 0x11d, 0x4000] {
        assert!(!is_grease(v), "{v:#x} must not be grease");
    }
}

#[test]
fn grease_value_matches_the_formula() {
    assert_eq!(grease_value(0), Some(0x9d));
    assert_eq!(grease_value(1), Some(0x11c));
    assert_eq!(grease_value(0x8102040810203f), Some(0x3fffffffffffffde));
    assert_eq!(grease_value(u64::MAX), None);
}

#[test]
fn decode_leaves_trailing_bytes_untouched() {
    let mut buf = Bytes::from(vec![0x25, 0xaa, 0xbb]);
    assert_eq!(buf.get_vi().unwrap(), 37);
    assert_eq!(&buf[..], &[0xaa, 0xbb]);
}

fn encode(v: u64) -> Vec<u8> {
    let mut buf = BytesMut::new();
    buf.put_vi(v).unwrap();
    buf.freeze().to_vec()
}

#[test]
fn varint_encodes_each_length_boundary() {
    assert_eq!(encode(0), vec![0x00]);
    assert_eq!(encode(0x7f), vec![0x7f]);
    assert_eq!(encode(0x80), vec![0x80, 0x80]);
    assert_eq!(encode(0x3fff), vec![0xbf, 0xff]);
    assert_eq!(encode(0x4000), vec![0xc0, 0x40, 0x00]);
    assert_eq!(encode(0x1f_ffff), vec![0xdf, 0xff, 0xff]);
    assert_eq!(encode(0x20_0000), vec![0xe0, 0x20, 0x00, 0x00]);
    assert_eq!(encode(0xff_ffff_ffff_ffff), vec![0xfe, 0xff, 0xff, 0xff, 0xff, 0xff, 0xff, 0xff]);
    assert_eq!(
        encode(0x100_0000_0000_0000),
        vec![0xff, 0x01, 0x00, 0x00, 0x00, 0x00, 0x00, 0x00, 0x00]
    );
    assert_eq!(encode(u64::MAX), vec![0xff, 0xff, 0xff, 0xff, 0xff, 0xff, 0xff, 0xff, 0xff]);
}

#[test]
fn varint_roundtrips_every_length() {
    for v in [
        0u64, 1, 0x7f, 0x80, 0x3fff, 0x4000, 0x1f_ffff, 0x20_0000, 0xfff_ffff, 0x1000_0000,
        0x7_ffff_ffff, 0x8_0000_0000, 0x3ff_ffff_ffff, 0x400_0000_0000, 0x1_ffff_ffff_ffff,
        0x2_0000_0000_0000, 0xff_ffff_ffff_ffff, 0x100_0000_0000_0000, u64::MAX,
    ] {
        let mut bytes = Bytes::from(encode(v));
        assert_eq!(bytes.get_vi().unwrap(), v);
        assert_eq!(bytes.remaining(), 0);
    }
}

#[test]
fn varint_decodes_non_minimal_encodings() {
    let mut buf = Bytes::from(vec![0x80, 0x25]);
    assert_eq!(buf.get_vi().unwrap(), 37);
    assert_eq!(buf.remaining(), 0);
    let mut buf = Bytes::from(vec![0xff, 0, 0, 0, 0, 0, 0, 0, 0x25]);
    assert_eq!(buf.get_vi().unwrap(), 37);
}

#[test]
fn varint_truncated_is_not_enough_bytes() {
    for enc in [vec![], vec![0x80], vec![0xc0, 0x01], vec![0xff, 1, 2, 3, 4, 5, 6, 7]] {
        let mut buf = Bytes::from(enc);
        assert!(matches!(buf.get_vi(), Err(ParseError::NotEnoughBytes { .. })));
    }
}

#[test]
fn roundtrip_varint() {
    let original = KeyValuePair::try_new_varint(2, 100).unwrap();
    let mut buf = original.serialize().unwrap();
    let parsed = KeyValuePair::deserialize(&mut buf).unwrap();
    assert_eq!(parsed, original);
}

#[test]
fn roundtrip_bytes() {
    let original = KeyValuePair::try_new_bytes(1, Bytes::from("test")).unwrap();
    let mut buf = original.serialize().unwrap();
    let parsed = KeyValuePair::deserialize(&mut buf).unwrap();
    assert_eq!(parsed, original);
}

#[test]
fn invalid_type_varint() {
    let err = KeyValuePair::try_new_varint(1, 100);
    assert!(err.is_err());
}

#[test]
fn invalid_type_bytes() {
    let err = KeyValuePair::try_new_bytes(2, Bytes::from("x"));
    assert!(err.is_err());
}

#[test]
fn length_exceeds_max() {
    let data = Bytes::from(vec![0u8; MAX_VALUE_LENGTH + 1]);
    let err = KeyValuePair::try_new_bytes(1, data).unwrap_err();
    assert!(matches!(err, ParseError::LengthExceedsMax { .. }));
}

#[test]
fn deserialize_not_enough_bytes() {
    let mut buf = BytesMut::new();
    buf.put_vi(1).unwrap();
    buf.put_vi(5).unwrap();
    buf.extend_from_slice(b"abc");
    let mut bytes = buf.freeze();
    let err = KeyValuePair::deserialize(&mut bytes).unwrap_err();
    assert!(matches!(err, ParseError::NotEnoughBytes { .. }));
}

#[test]
fn is_same_type_test() {
    let kv1 = KeyValuePair::try_new_varint(2, 100).unwrap();
    let kv2 = KeyValuePair::try_new_varint(2, 200).unwrap();
    let kv3 = KeyValuePair::try_new_bytes(1, Bytes::from("test")).unwrap();
    assert!(kv1.is_same_type(&kv2));
    assert!(!kv1.is_same_type(&kv3));
}

#[test]
fn get_type_test() {
    let kv1 = KeyValuePair::try_new_varint(2, 100).unwrap();
    let kv2 = KeyValuePair::try_new_bytes(1, Bytes::from("test")).unwrap();
    assert_eq!(kv1.get_type(), 2);
    assert_eq!(kv2.get_type(), 1);
}

#[test]
fn deserialize_delta_overflow_is_protocol_violation() {
    let mut buf = BytesMut::new();
    buf.put_vi(10u64).unwrap();
    let mut bytes = buf.freeze();
    let err = KeyValuePair::deserialize_delta(&mut bytes, u64::MAX - 5).unwrap_err();
    assert!(matches!(err, ParseError::ProtocolViolation { .. }));
}

#[test]
fn serialize_delta_decreasing_type_is_protocol_violation() {
    let kvp = KeyValuePair::try_new_varint(2, 1).unwrap();
    let err = kvp.serialize_delta(10).unwrap_err();
    assert!(matches!(err, ParseError::ProtocolViolation { .. }));
}

#[test]
fn serialize_kvp_list_sorts_and_delta_encodes() {
    let items = vec![
        KeyValuePair::try_new_varint(0x20, 1).unwrap(),
        KeyValuePair::try_new_varint(0x10, 2).unwrap(),
        KeyValuePair::try_new_bytes(0x21, Bytes::from_static(b"x")).unwrap(),
    ];
    let mut bytes = serialize_kvp_list(&items).unwrap();
    let decoded = deserialize_kvp_list(&mut bytes, 3).unwrap();
    let types: Vec<u64> = decoded.iter().map(|k| k.get_type()).collect();
    assert_eq!(types, vec![0x10, 0x20, 0x21]);
}

#[test]
fn deserialize_kvp_list_until_empty_reads_delta_encoded_stream() {
    let items = vec![
        KeyValuePair::try_new_varint(0x04, 1).unwrap(),
        KeyValuePair::try_new_varint(0x02, 2).unwrap(),
    ];
    let mut bytes = serialize_kvp_list(&items).unwrap();
    let decoded = deserialize_kvp_list_until_empty(&mut bytes).unwrap();
    let types: Vec<u64> = decoded.iter().map(|k| k.get_type()).collect();
    assert_eq!(types, vec![0x02, 0x04]);
}

#[test]
fn kvp_list_sort_is_stable_and_exact_on_the_wire() {
    let items = vec![
        KeyValuePair::try_new_varint(0x04, 7).unwrap(),
        KeyValuePair::try_new_varint(0x02, 8).unwrap(),
        KeyValuePair::try_new_varint(0x04, 9).unwrap(),
    ];
    let bytes = serialize_kvp_list(&items).unwrap();
    assert_eq!(&bytes[..], &[0x02, 0x08, 0x02, 0x07, 0x00, 0x09]);
}

#[test]
fn kvp_bytes_wire_form() {
    let kvp = KeyValuePair::try_new_bytes(0x05, Bytes::from_static(b"ab")).unwrap();
    let bytes = kvp.serialize_delta(0x03).unwrap();
    assert_eq!(&bytes[..], &[0x02, 0x02, b'a', b'b']);
}

#[test]
fn kvp_value_length_over_limit_is_rejected_on_read() {
    let mut buf = BytesMut::new();
    buf.put_vi(1).unwrap();
    buf.put_vi(65536).unwrap();
    let mut bytes = buf.freeze();
    assert!(matches!(
        KeyValuePair::deserialize(&mut bytes),
        Err(ParseError::LengthExceedsMax { .. })
    ));
}

#[test]
fn failed_varint_read_has_taken_the_first_byte() {
    // 0xC0 announces three bytes; only two are there.
    let mut buf = Bytes::from_static(&[0xC0, 0x01]);
    assert!(matches!(buf.get_vi(), Err(ParseError::NotEnoughBytes { .. })));
    assert_eq!(&buf[..], &[0x01]);
    let mut empty = Bytes::new();
    assert!(matches!(empty.get_vi(), Err(ParseError::NotEnoughBytes { .. })));
    assert_eq!(empty.len(), 0);
}
