use moqtail::model::common::grease::grease_value;
use moqtail::model::data::constant::{ObjectDatagramType, SubgroupHeaderType};
use moqtail::model::error::request_error::RequestErrorCode;
use moqtail::model::error::stream_reset::StreamResetCode;
use moqtail::model::extension_header::constant::TrackExtensionType;
use moqtail::model::property::constant::TrackPropertyType;

fn is_valid_subgroup_type(b: u8) -> bool {
    b & 0x80 == 0 && b & 0x10 != 0 && b & 0x06 != 0x06
}

#[test]
fn subgroup_header_type_classifies_all_256_bytes() {
    let reserved_mode_3 = [
        0x16u8, 0x17, 0x1E, 0x1F, 0x36, 0x37, 0x3E, 0x3F, 0x56, 0x57, 0x5E, 0x5F, 0x76, 0x77, 0x7E,
        0x7F,
    ];

    for b in 0u8..=255 {
        let accepted = SubgroupHeaderType::try_new(b as u64).is_ok();
        let expected = is_valid_subgroup_type(b);
        assert_eq!(accepted, expected, "type byte {b:#04x}");

        if reserved_mode_3.contains(&b) {
            assert!(
                !accepted,
                "reserved SUBGROUP_ID_MODE 0b11 value {b:#04x} must be rejected"
            );
        }
        if accepted {
            assert_eq!(SubgroupHeaderType::try_new(b as u64).unwrap().value(), b);
        }
    }

    let valid_count = (0u8..=255).filter(|&b| is_valid_subgroup_type(b)).count();
    assert_eq!(valid_count, 4 * 16 - 16, "expected 48 valid type bytes");
}

#[test]
fn first_object_bit_round_trips() {
    let with = SubgroupHeaderType::from_properties(false, 2, false, false, true);
    assert!(with.is_first_object());
    assert_eq!(with.value() & SubgroupHeaderType::FIRST_OBJECT, 0x40);
    assert_eq!(
        SubgroupHeaderType::try_new(with.value() as u64).unwrap(),
        with
    );

    let without = SubgroupHeaderType::from_properties(false, 2, false, false, false);
    assert!(!without.is_first_object());
}

#[test]
fn first_object_alone_is_a_valid_type() {
    let t = SubgroupHeaderType::try_new(0x50).unwrap();
    assert!(t.is_first_object());
}

#[test]
fn test_header_type_classification() {
    assert!(SubgroupHeaderType::try_new(0x10).unwrap().subgroup_id_is_zero());
    assert!(SubgroupHeaderType::try_new(0x11).unwrap().subgroup_id_is_zero());
    assert!(SubgroupHeaderType::try_new(0x18).unwrap().subgroup_id_is_zero());
    assert!(SubgroupHeaderType::try_new(0x19).unwrap().subgroup_id_is_zero());

    assert!(SubgroupHeaderType::try_new(0x12).unwrap().subgroup_id_is_first_object_id());
    assert!(SubgroupHeaderType::try_new(0x13).unwrap().subgroup_id_is_first_object_id());
    assert!(SubgroupHeaderType::try_new(0x1A).unwrap().subgroup_id_is_first_object_id());
    assert!(SubgroupHeaderType::try_new(0x1B).unwrap().subgroup_id_is_first_object_id());

    assert!(SubgroupHeaderType::try_new(0x14).unwrap().has_explicit_subgroup_id());
    assert!(SubgroupHeaderType::try_new(0x15).unwrap().has_explicit_subgroup_id());
    assert!(SubgroupHeaderType::try_new(0x1C).unwrap().has_explicit_subgroup_id());
    assert!(SubgroupHeaderType::try_new(0x1D).unwrap().has_explicit_subgroup_id());

    assert!(SubgroupHeaderType::try_new(0x18).unwrap().contains_end_of_group());
    assert!(SubgroupHeaderType::try_new(0x19).unwrap().contains_end_of_group());
    assert!(SubgroupHeaderType::try_new(0x1A).unwrap().contains_end_of_group());
    assert!(SubgroupHeaderType::try_new(0x1B).unwrap().contains_end_of_group());
    assert!(SubgroupHeaderType::try_new(0x1C).unwrap().contains_end_of_group());
    assert!(SubgroupHeaderType::try_new(0x1D).unwrap().contains_end_of_group());

    // The type's "extensions present" bit is its properties bit.
    assert!(SubgroupHeaderType::try_new(0x11).unwrap().has_properties());
    assert!(SubgroupHeaderType::try_new(0x13).unwrap().has_properties());
    assert!(SubgroupHeaderType::try_new(0x15).unwrap().has_properties());
    assert!(SubgroupHeaderType::try_new(0x19).unwrap().has_properties());
    assert!(SubgroupHeaderType::try_new(0x1B).unwrap().has_properties());
    assert!(SubgroupHeaderType::try_new(0x1D).unwrap().has_properties());
}

#[test]
fn test_status_plus_end_of_group_is_error() {
    let result = ObjectDatagramType::from_properties(false, true, false, false, true);
    assert!(result.is_err());
}

#[test]
fn test_invalid_type_is_error() {
    let result = ObjectDatagramType::try_from(0x10u64);
    assert!(result.is_err());
}

#[test]
fn from_wire_maps_unknown_and_grease_to_internal_error() {
    assert_eq!(
        RequestErrorCode::from_wire(0x1),
        RequestErrorCode::Unauthorized
    );
    for raw in [0x7Eu64, grease_value(0).unwrap(), grease_value(5).unwrap()] {
        assert_eq!(
            RequestErrorCode::from_wire(raw),
            RequestErrorCode::InternalError
        );
    }
}

#[test]
fn roundtrips_every_code() {
    for code in [
        StreamResetCode::InternalError,
        StreamResetCode::Cancelled,
        StreamResetCode::DeliveryTimeout,
        StreamResetCode::SessionClosed,
        StreamResetCode::GoingAway,
        StreamResetCode::TooFarBehind,
        StreamResetCode::UnknownObjectStatus,
        StreamResetCode::ExpiredAuthToken,
        StreamResetCode::ExcessiveLoad,
        StreamResetCode::MalformedTrack,
    ] {
        assert_eq!(StreamResetCode::try_from(code.to_u64()).unwrap(), code);
    }
    assert!(StreamResetCode::try_from(0x8).is_err());
}

#[test]
fn test_track_extension_type_roundtrip() {
    let known = [
        (0x02u64, TrackExtensionType::DeliveryTimeout),
        (0x04, TrackExtensionType::MaxCacheDuration),
        (0x0B, TrackExtensionType::ImmutableExtensions),
        (0x0E, TrackExtensionType::DefaultPublisherPriority),
        (0x22, TrackExtensionType::DefaultPublisherGroupOrder),
        (0x30, TrackExtensionType::DynamicGroups),
        (0x3C, TrackExtensionType::PriorGroupIdGap),
        (0x3E, TrackExtensionType::PriorObjectIdGap),
    ];
    for (raw, expected) in known {
        let parsed = TrackExtensionType::try_from(raw).unwrap();
        assert_eq!(parsed, expected);
        assert_eq!(u64::from(parsed), raw);
    }
}

#[test]
fn test_track_extension_type_unknown() {
    assert!(TrackExtensionType::try_from(0xFF).is_err());
    assert!(TrackExtensionType::try_from(0x00).is_err());
}

#[test]
fn test_track_property_type_roundtrip() {
    let known = [
        (0x02u64, TrackPropertyType::ObjectDeliveryTimeout),
        (0x04, TrackPropertyType::MaxCacheDuration),
        (0x06, TrackPropertyType::SubgroupDeliveryTimeout),
        (0x0B, TrackPropertyType::ImmutableProperties),
        (0x0E, TrackPropertyType::DefaultPublisherPriority),
        (0x22, TrackPropertyType::DefaultPublisherGroupOrder),
        (0x30, TrackPropertyType::DynamicGroups),
        (0x3C, TrackPropertyType::PriorGroupIdGap),
        (0x3E, TrackPropertyType::PriorObjectIdGap),
    ];
    for (raw, expected) in known {
        let parsed = TrackPropertyType::try_from(raw).unwrap();
        assert_eq!(parsed, expected);
        assert_eq!(u64::from(parsed), raw);
    }
}

#[test]
fn test_track_property_type_unknown() {
    assert!(TrackPropertyType::try_from(0xFF).is_err());
    assert!(TrackPropertyType::try_from(0x00).is_err());
}

#[test]
fn subgroup_and_datagram_type_conversions() {
    let t = SubgroupHeaderType::try_from(0x14u64).unwrap();
    assert_eq!(u64::from(t), 0x14);
    assert!(SubgroupHeaderType::try_from(0x16u64).is_err());
    let d = ObjectDatagramType::from_properties(true, false, true, false, false).unwrap();
    assert_eq!(u64::from(d), 0x05);
    assert!(ObjectDatagramType::try_from(0x22u64).is_err());
}
