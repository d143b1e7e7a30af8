use bytes::{Buf, Bytes, BytesMut};
use moqtail::error::ParseError;
use moqtail::model::data::constant::SubgroupHeaderType;
use moqtail::model::data::subgroup_header::SubgroupHeader;

fn sample() -> SubgroupHeader {
    SubgroupHeader {
        header_type: SubgroupHeaderType::try_new(0x14).unwrap(),
        track_alias: 87,
        group_id: 9,
        subgroup_id: Some(11),
        publisher_priority: Some(255),
    }
}

#[test]
fn subgroup_header_test_roundtrip() {
    let subgroup_header = sample();
    let mut buf = subgroup_header.serialize(None).unwrap();
    let deserialized = SubgroupHeader::deserialize(&mut buf).unwrap();
    assert_eq!(deserialized, subgroup_header);
    assert!(!buf.has_remaining());
}

#[test]
fn subgroup_header_test_roundtrip_default_priority() {
    let subgroup_header = SubgroupHeader {
        header_type: SubgroupHeaderType::try_new(0x30).unwrap(),
        track_alias: 87,
        group_id: 9,
        subgroup_id: Some(0),
        publisher_priority: None,
    };

    let mut buf = subgroup_header.serialize(None).unwrap();
    let deserialized = SubgroupHeader::deserialize(&mut buf).unwrap();
    assert_eq!(deserialized, subgroup_header);
    assert!(!buf.has_remaining());
}

#[test]
fn subgroup_header_test_excess_roundtrip() {
    let subgroup_header = sample();
    let serialized = subgroup_header.serialize(None).unwrap();
    let mut excess = BytesMut::new();
    excess.extend_from_slice(&serialized);
    excess.extend_from_slice(&[9u8, 1u8, 1u8]);
    let mut buf = excess.freeze();

    let deserialized = SubgroupHeader::deserialize(&mut buf).unwrap();
    assert_eq!(deserialized, subgroup_header);
    assert_eq!(buf.chunk(), &[9u8, 1u8, 1u8]);
}

#[test]
fn subgroup_header_test_partial_message() {
    let subgroup_header = sample();
    let buf = subgroup_header.serialize(None).unwrap();
    let upper = buf.remaining() / 2;
    let mut partial = buf.slice(..upper);
    let deserialized = SubgroupHeader::deserialize(&mut partial);
    assert!(deserialized.is_err());
}

#[test]
fn test_new_header_types_roundtrip() {
    let test_cases = vec![
        (SubgroupHeaderType::try_new(0x10).unwrap(), false, Some(0)),
        (SubgroupHeaderType::try_new(0x11).unwrap(), false, Some(0)),
        (SubgroupHeaderType::try_new(0x12).unwrap(), false, None),
        (SubgroupHeaderType::try_new(0x13).unwrap(), false, None),
        (SubgroupHeaderType::try_new(0x14).unwrap(), true, Some(42)),
        (SubgroupHeaderType::try_new(0x15).unwrap(), true, Some(42)),
        (SubgroupHeaderType::try_new(0x18).unwrap(), false, Some(0)),
        (SubgroupHeaderType::try_new(0x19).unwrap(), false, Some(0)),
        (SubgroupHeaderType::try_new(0x1A).unwrap(), false, None),
        (SubgroupHeaderType::try_new(0x1B).unwrap(), false, None),
        (SubgroupHeaderType::try_new(0x1C).unwrap(), true, Some(42)),
        (SubgroupHeaderType::try_new(0x1D).unwrap(), true, Some(42)),
    ];

    for (header_type, has_explicit_id, expected_subgroup_id) in test_cases {
        let track_alias = 87;
        let group_id = 9;
        let publisher_priority = Some(255);

        let subgroup_header = SubgroupHeader {
            header_type,
            track_alias,
            group_id,
            subgroup_id: if has_explicit_id { Some(42) } else { expected_subgroup_id },
            publisher_priority,
        };

        let mut buf = subgroup_header.serialize(Some(track_alias)).unwrap();
        let deserialized = SubgroupHeader::deserialize(&mut buf).unwrap();

        assert_eq!(deserialized.header_type, header_type);
        assert_eq!(deserialized.track_alias, track_alias);
        assert_eq!(deserialized.group_id, group_id);
        assert_eq!(deserialized.subgroup_id, expected_subgroup_id);
        assert_eq!(deserialized.publisher_priority, publisher_priority);
        assert!(!buf.has_remaining());
    }
}

#[test]
fn test_constructor_methods() {
    let track_alias = 87;
    let group_id = 9;
    let publisher_priority = Some(255);

    let header = SubgroupHeader::new_fixed_zero_id(track_alias, group_id, publisher_priority, false, false);
    assert_eq!(header.header_type, SubgroupHeaderType::try_new(0x10).unwrap());
    assert_eq!(header.subgroup_id, Some(0));

    let header = SubgroupHeader::new_fixed_zero_id(track_alias, group_id, publisher_priority, true, false);
    assert_eq!(header.header_type, SubgroupHeaderType::try_new(0x11).unwrap());
    assert_eq!(header.subgroup_id, Some(0));

    let header = SubgroupHeader::new_fixed_zero_id(track_alias, group_id, publisher_priority, false, true);
    assert_eq!(header.header_type, SubgroupHeaderType::try_new(0x18).unwrap());
    assert_eq!(header.subgroup_id, Some(0));

    let header = SubgroupHeader::new_fixed_zero_id(track_alias, group_id, publisher_priority, true, true);
    assert_eq!(header.header_type, SubgroupHeaderType::try_new(0x19).unwrap());
    assert_eq!(header.subgroup_id, Some(0));

    let header = SubgroupHeader::new_first_object_id(track_alias, group_id, publisher_priority, false, false);
    assert_eq!(header.header_type, SubgroupHeaderType::try_new(0x12).unwrap());
    assert_eq!(header.subgroup_id, None);

    let header = SubgroupHeader::new_first_object_id(track_alias, group_id, publisher_priority, true, false);
    assert_eq!(header.header_type, SubgroupHeaderType::try_new(0x13).unwrap());
    assert_eq!(header.subgroup_id, None);

    let header = SubgroupHeader::new_first_object_id(track_alias, group_id, publisher_priority, false, true);
    assert_eq!(header.header_type, SubgroupHeaderType::try_new(0x1A).unwrap());
    assert_eq!(header.subgroup_id, None);

    let header = SubgroupHeader::new_first_object_id(track_alias, group_id, publisher_priority, true, true);
    assert_eq!(header.header_type, SubgroupHeaderType::try_new(0x1B).unwrap());
    assert_eq!(header.subgroup_id, None);

    let subgroup_id = 42;
    let header =
        SubgroupHeader::new_with_explicit_id(track_alias, group_id, subgroup_id, publisher_priority, false, false);
    assert_eq!(header.header_type, SubgroupHeaderType::try_new(0x14).unwrap());
    assert_eq!(header.subgroup_id, Some(subgroup_id));

    let header =
        SubgroupHeader::new_with_explicit_id(track_alias, group_id, subgroup_id, publisher_priority, true, false);
    assert_eq!(header.header_type, SubgroupHeaderType::try_new(0x15).unwrap());
    assert_eq!(header.subgroup_id, Some(subgroup_id));

    let header =
        SubgroupHeader::new_with_explicit_id(track_alias, group_id, subgroup_id, publisher_priority, false, true);
    assert_eq!(header.header_type, SubgroupHeaderType::try_new(0x1C).unwrap());
    assert_eq!(header.subgroup_id, Some(subgroup_id));

    let header =
        SubgroupHeader::new_with_explicit_id(track_alias, group_id, subgroup_id, publisher_priority, true, true);
    assert_eq!(header.header_type, SubgroupHeaderType::try_new(0x1D).unwrap());
    assert_eq!(header.subgroup_id, Some(subgroup_id));
}

#[test]
fn subgroup_header_default_priority_constructor_omits_priority() {
    let header = SubgroupHeader::new_fixed_zero_id(1, 2, None, false, false);
    assert_eq!(header.header_type, SubgroupHeaderType::try_new(0x30).unwrap());
    let bytes = header.serialize(None).unwrap();
    assert_eq!(bytes.as_ref(), &[0x30, 1, 2]);
    let mut buf = bytes;
    assert_eq!(SubgroupHeader::deserialize(&mut buf).unwrap(), header);
}

#[test]
fn subgroup_header_alias_override_is_written() {
    let header = SubgroupHeader::new_with_explicit_id(1, 2, 3, Some(4), false, false);
    let bytes = header.serialize(Some(9)).unwrap();
    assert_eq!(bytes.as_ref(), &[0x14, 9, 2, 3, 4]);
}

#[test]
fn subgroup_header_missing_fields_are_refused() {
    let mut header = SubgroupHeader::new_with_explicit_id(1, 2, 3, Some(4), false, false);
    header.subgroup_id = None;
    assert!(matches!(header.serialize(None).unwrap_err(), ParseError::ProtocolViolation { .. }));
    let mut header = SubgroupHeader::new_fixed_zero_id(1, 2, Some(4), false, false);
    header.publisher_priority = None;
    assert!(matches!(header.serialize(None).unwrap_err(), ParseError::ProtocolViolation { .. }));
    let mut buf = Bytes::from_static(&[0x16, 1, 2]);
    assert!(matches!(SubgroupHeader::deserialize(&mut buf).unwrap_err(), ParseError::InvalidType { .. }));
}
