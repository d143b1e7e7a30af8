use bytes::{Buf, Bytes};
use moqtail::error::ParseError;
use moqtail::model::common::pair::KeyValuePair;
use moqtail::model::data::constant::ObjectStatus;
use moqtail::model::data::datagram::Datagram;

#[test]
fn test_roundtrip_payload_no_flags() {
    let datagram = Datagram::new_payload(144, 9, 10, Some(128), None, Bytes::from_static(b"payload"), false);

    let mut buf = datagram.serialize().unwrap();
    assert_eq!(buf[0], 0x00);

    let deserialized = Datagram::deserialize(&mut buf).unwrap();
    assert_eq!(deserialized, datagram);
    assert!(!buf.has_remaining());
}

#[test]
fn test_roundtrip_payload_with_extensions() {
    let datagram = Datagram::new_payload(
        144,
        9,
        10,
        Some(255),
        Some(vec![
            KeyValuePair::try_new_varint(0, 10).unwrap(),
            KeyValuePair::try_new_bytes(1, Bytes::from_static(b"wololoo")).unwrap(),
        ]),
        Bytes::from_static(b"01239gjawkk92837aldmi"),
        false,
    );

    let mut buf = datagram.serialize().unwrap();
    assert_eq!(buf[0], 0x01);

    let deserialized = Datagram::deserialize(&mut buf).unwrap();
    assert_eq!(deserialized, datagram);
    assert!(!buf.has_remaining());
}

#[test]
fn datagram_test_roundtrip_end_of_group() {
    let datagram = Datagram::new_payload(1, 5, 42, Some(200), None, Bytes::from_static(b"last object"), true);

    let mut buf = datagram.serialize().unwrap();
    assert_eq!(buf[0], 0x02);

    let deserialized = Datagram::deserialize(&mut buf).unwrap();
    assert_eq!(deserialized, datagram);
    assert!(deserialized.end_of_group);
    assert!(!buf.has_remaining());
}

#[test]
fn test_roundtrip_zero_object_id() {
    let datagram = Datagram::new_payload(1, 5, 0, Some(200), None, Bytes::from_static(b"first object"), false);

    let mut buf = datagram.serialize().unwrap();
    assert_eq!(buf[0], 0x04);

    let deserialized = Datagram::deserialize(&mut buf).unwrap();
    assert_eq!(deserialized, datagram);
    assert_eq!(deserialized.object_id, 0);
    assert!(!buf.has_remaining());
}

#[test]
fn datagram_test_roundtrip_default_priority() {
    let datagram = Datagram::new_payload(1, 5, 10, None, None, Bytes::from_static(b"data"), false);

    let mut buf = datagram.serialize().unwrap();
    assert_eq!(buf[0], 0x08);

    let deserialized = Datagram::deserialize(&mut buf).unwrap();
    assert_eq!(deserialized, datagram);
    assert!(deserialized.publisher_priority.is_none());
    assert!(!buf.has_remaining());
}

#[test]
fn test_roundtrip_all_payload_flags() {
    let datagram = Datagram::new_payload(
        1,
        5,
        0,
        None,
        Some(vec![KeyValuePair::try_new_varint(0, 42).unwrap()]),
        Bytes::from_static(b"payload"),
        true,
    );

    let mut buf = datagram.serialize().unwrap();
    assert_eq!(buf[0], 0x0F);

    let deserialized = Datagram::deserialize(&mut buf).unwrap();
    assert_eq!(deserialized, datagram);
    assert!(deserialized.end_of_group);
    assert_eq!(deserialized.object_id, 0);
    assert!(deserialized.publisher_priority.is_none());
    assert!(!buf.has_remaining());
}

#[test]
fn test_roundtrip_status_without_extensions() {
    let datagram = Datagram::new_status(144, 9, 10, Some(128), None, ObjectStatus::EndOfGroup);

    let mut buf = datagram.serialize().unwrap();
    assert_eq!(buf[0], 0x20);

    let deserialized = Datagram::deserialize(&mut buf).unwrap();
    assert_eq!(deserialized, datagram);
    assert!(!buf.has_remaining());
}

#[test]
fn test_roundtrip_status_with_extensions() {
    let datagram = Datagram::new_status(
        144,
        9,
        10,
        Some(255),
        Some(vec![
            KeyValuePair::try_new_varint(0, 10).unwrap(),
            KeyValuePair::try_new_bytes(1, Bytes::from_static(b"wololoo")).unwrap(),
        ]),
        ObjectStatus::Normal,
    );

    let mut buf = datagram.serialize().unwrap();
    assert_eq!(buf[0], 0x21);

    let deserialized = Datagram::deserialize(&mut buf).unwrap();
    assert_eq!(deserialized, datagram);
    assert!(!buf.has_remaining());
}

#[test]
fn test_roundtrip_status_with_default_priority() {
    let datagram = Datagram::new_status(1, 5, 10, None, None, ObjectStatus::EndOfTrack);

    let mut buf = datagram.serialize().unwrap();
    assert_eq!(buf[0], 0x28);

    let deserialized = Datagram::deserialize(&mut buf).unwrap();
    assert_eq!(deserialized, datagram);
    assert!(deserialized.publisher_priority.is_none());
    assert!(!buf.has_remaining());
}

#[test]
fn datagram_simple_constructor_wire_bytes() {
    let datagram = Datagram::new(3, 7, 2, 9, Bytes::from_static(b"hi"));
    let buf = datagram.serialize().unwrap();
    assert_eq!(buf.as_ref(), &[0x00, 3, 7, 2, 9, b'h', b'i']);
}

#[test]
fn datagram_status_ending_group_is_refused() {
    let mut datagram = Datagram::new_status(1, 1, 1, Some(1), None, ObjectStatus::Normal);
    datagram.end_of_group = true;
    assert!(matches!(datagram.serialize().unwrap_err(), ParseError::ProtocolViolation { .. }));
}

#[test]
fn datagram_empty_extension_block_is_protocol_violation() {
    // Type 0x01 (extensions), alias 1, group 1, object 1, priority 0, length 0.
    let mut buf = Bytes::from_static(&[0x01, 1, 1, 1, 0, 0]);
    assert!(matches!(
        Datagram::deserialize(&mut buf).unwrap_err(),
        ParseError::ProtocolViolation { .. }
    ));
}

#[test]
fn datagram_unreadable_headers_are_protocol_violation() {
    // Extension block of one byte holding an odd type with no length.
    let mut buf = Bytes::from_static(&[0x01, 1, 1, 1, 0, 1, 0x01]);
    assert!(matches!(
        Datagram::deserialize(&mut buf).unwrap_err(),
        ParseError::ProtocolViolation { .. }
    ));
}

#[test]
fn datagram_bad_type_and_status() {
    let mut buf = Bytes::from_static(&[0x10, 1, 1]);
    assert!(matches!(Datagram::deserialize(&mut buf).unwrap_err(), ParseError::InvalidType { .. }));
    let mut buf = Bytes::from_static(&[0x22, 1, 1]);
    assert!(matches!(
        Datagram::deserialize(&mut buf).unwrap_err(),
        ParseError::ProtocolViolation { .. }
    ));
    // A status datagram naming status 7, which does not exist.
    let mut buf = Bytes::from_static(&[0x20, 1, 1, 1, 0, 7]);
    assert!(matches!(Datagram::deserialize(&mut buf).unwrap_err(), ParseError::InvalidType { .. }));
    // Missing priority byte.
    let mut buf = Bytes::from_static(&[0x00, 1, 1, 1]);
    assert!(matches!(Datagram::deserialize(&mut buf).unwrap_err(), ParseError::NotEnoughBytes { .. }));
}

#[test]
fn datagram_status_leaves_trailing_bytes() {
    let mut buf = Bytes::from_static(&[0x20, 1, 1, 1, 0, 3, 0xAA]);
    let d = Datagram::deserialize(&mut buf).unwrap();
    assert_eq!(d.object_status, Some(ObjectStatus::EndOfGroup));
    assert_eq!(buf.as_ref(), &[0xAA]);
}
