use bytes::{Buf, Bytes, BytesMut};
use moqtail::error::ParseError;
use moqtail::model::common::pair::KeyValuePair;
use moqtail::model::common::varint::BufMutVarIntExt;
use moqtail::model::property::constant::LOCPropertyId;
use moqtail::model::property::loc::LOCProperty;

#[test]
fn loc_test_roundtrip() {
    let value = 144;
    let loc = LOCProperty::AudioLevel { value };

    let mut buf = loc.serialize().unwrap();
    let deserialized = LOCProperty::deserialize(&mut buf).unwrap();
    assert_eq!(deserialized, loc);
    assert!(!buf.has_remaining());
}

#[test]
fn loc_test_excess_roundtrip() {
    let value = 144;
    let loc = LOCProperty::AudioLevel { value };

    let serialized = loc.serialize().unwrap();
    let mut excess = BytesMut::new();
    excess.extend_from_slice(&serialized);
    excess.extend_from_slice(&[9u8, 1u8, 1u8]);
    let mut buf = excess.freeze();

    let deserialized = LOCProperty::deserialize(&mut buf).unwrap();
    assert_eq!(deserialized, loc);
    assert_eq!(buf.chunk(), &[9u8, 1u8, 1u8]);
}

#[test]
fn loc_test_partial_message() {
    let value = 144;
    let loc = LOCProperty::AudioLevel { value };
    let buf = loc.serialize().unwrap();
    let upper = buf.remaining() / 2;
    let mut partial = buf.slice(..upper);
    let deserialized = LOCProperty::deserialize(&mut partial);
    assert!(deserialized.is_err());
}

#[test]
fn loc_wire_bytes() {
    // Audio level 144: identifier 0x0C, then 144 in the two-byte form.
    let bytes = LOCProperty::AudioLevel { value: 144 }.serialize().unwrap();
    assert_eq!(bytes.as_ref(), &[0x0C, 0x80, 0x90]);
    // The capture time is written under the Timestamp identifier.
    let bytes = LOCProperty::CaptureTimestamp { value: 5 }.serialize().unwrap();
    assert_eq!(bytes.as_ref(), &[0x06, 0x05]);
    let bytes = LOCProperty::VideoConfig { value: Bytes::from_static(b"avc") }
        .serialize()
        .unwrap();
    assert_eq!(bytes.as_ref(), &[0x0D, 0x03, b'a', b'v', b'c']);
}

#[test]
fn loc_roundtrip_every_kind() {
    let props = vec![
        LOCProperty::CaptureTimestamp { value: 1_700_000_000_000 },
        LOCProperty::VideoFrameMarking { value: 3 },
        LOCProperty::AudioLevel { value: 0 },
        LOCProperty::VideoConfig { value: Bytes::from_static(&[1, 2, 3, 4]) },
        LOCProperty::VideoConfig { value: Bytes::new() },
    ];
    for p in props {
        let mut buf = p.serialize().unwrap();
        assert_eq!(LOCProperty::deserialize(&mut buf).unwrap(), p);
        assert!(!buf.has_remaining());
    }
}

#[test]
fn loc_timescale_and_unknown_ids_are_invalid_types() {
    let mut buf = BytesMut::new();
    buf.put_vi(LOCPropertyId::Timescale.value()).unwrap();
    buf.put_vi(1000u64).unwrap();
    let mut bytes = buf.freeze();
    assert!(matches!(LOCProperty::deserialize(&mut bytes), Err(ParseError::InvalidType { .. })));

    let mut bytes = Bytes::from_static(&[0x07, 0x01]);
    assert!(matches!(LOCProperty::deserialize(&mut bytes), Err(ParseError::InvalidType { .. })));
}

#[test]
fn loc_video_config_longer_than_input_is_short_input() {
    let mut bytes = Bytes::from_static(&[0x0D, 0x05, 1, 2]);
    assert!(matches!(LOCProperty::deserialize(&mut bytes), Err(ParseError::NotEnoughBytes { .. })));
}

#[test]
fn loc_from_key_value_pair() {
    let kvp = KeyValuePair::try_new_varint(0x0C, 50).unwrap();
    assert_eq!(LOCProperty::try_from(kvp).unwrap(), LOCProperty::AudioLevel { value: 50 });
    let kvp = KeyValuePair::try_new_varint(0x06, 9).unwrap();
    assert_eq!(LOCProperty::try_from(kvp).unwrap(), LOCProperty::CaptureTimestamp { value: 9 });
    let kvp = KeyValuePair::try_new_bytes(0x0D, Bytes::from_static(b"cfg")).unwrap();
    assert_eq!(
        LOCProperty::try_from(kvp).unwrap(),
        LOCProperty::VideoConfig { value: Bytes::from_static(b"cfg") }
    );
    // A scalar identifier in a bytes pair, or Timescale anywhere, is refused.
    let kvp = KeyValuePair::VarInt { type_value: 0x08, value: 1 };
    assert!(matches!(LOCProperty::try_from(kvp), Err(ParseError::InvalidType { .. })));
    let kvp = KeyValuePair::Bytes { type_value: 0x0C, value: Bytes::from_static(b"x") };
    assert!(matches!(LOCProperty::try_from(kvp), Err(ParseError::InvalidType { .. })));
}
