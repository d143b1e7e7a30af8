use bytes::{Buf, Bytes};
use moqtail::error::ParseError;
use moqtail::model::common::pair::KeyValuePair;
use moqtail::model::control::constant::GroupOrder;
use moqtail::model::extension_header::object_extension::{
    deserialize_object_extensions, serialize_object_extensions, ObjectExtension,
};
use moqtail::model::extension_header::track_extension::{
    deserialize_track_extensions, serialize_track_extensions, TrackExtension,
};

fn object_roundtrip(ext: ObjectExtension) -> ObjectExtension {
    let serialized = ext.serialize().unwrap();
    let mut buf = serialized;
    let kvp = KeyValuePair::deserialize(&mut buf).unwrap();
    assert!(!buf.has_remaining());
    ObjectExtension::deserialize(kvp).unwrap()
}

fn track_roundtrip(ext: TrackExtension) -> TrackExtension {
    let serialized = ext.serialize().unwrap();
    let mut buf = serialized;
    let kvp = KeyValuePair::deserialize(&mut buf).unwrap();
    assert!(!buf.has_remaining());
    TrackExtension::deserialize(kvp).unwrap()
}

#[test]
fn object_extension_test_roundtrip_immutable_extensions() {
    let inner = vec![
        KeyValuePair::try_new_varint(0x10, 7).unwrap(),
        KeyValuePair::try_new_bytes(0x11, Bytes::from_static(b"data")).unwrap(),
    ];
    let ext = ObjectExtension::ImmutableExtensions {
        extensions: inner.clone(),
    };
    assert_eq!(object_roundtrip(ext.clone()), ext);
}

#[test]
fn test_roundtrip_prior_group_id_gap() {
    let ext = ObjectExtension::PriorGroupIdGap { gap: 3 };
    assert_eq!(object_roundtrip(ext.clone()), ext);
}

#[test]
fn test_roundtrip_prior_object_id_gap() {
    let ext = ObjectExtension::PriorObjectIdGap { gap: 5 };
    assert_eq!(object_roundtrip(ext.clone()), ext);
}

#[test]
fn object_extension_test_roundtrip_unknown() {
    let kvp = KeyValuePair::try_new_varint(0xFE, 42).unwrap();
    let ext = ObjectExtension::Unknown { kvp };
    assert_eq!(object_roundtrip(ext.clone()), ext);
}

#[test]
fn object_extension_test_immutable_extensions_nested_is_error() {
    let inner_immutable = KeyValuePair::try_new_bytes(0x0B, Bytes::from_static(b"")).unwrap();
    let inner_bytes = inner_immutable.serialize().unwrap();
    let outer = KeyValuePair::try_new_bytes(0x0B, inner_bytes).unwrap();
    assert!(matches!(
        ObjectExtension::deserialize(outer).unwrap_err(),
        ParseError::ProtocolViolation { .. }
    ));
}

#[test]
fn object_extension_test_serialize_deserialize_mixed() {
    let exts = vec![
        ObjectExtension::PriorGroupIdGap { gap: 2 },
        ObjectExtension::PriorObjectIdGap { gap: 1 },
        ObjectExtension::Unknown {
            kvp: KeyValuePair::try_new_varint(0xFC, 0).unwrap(),
        },
    ];
    let serialized = serialize_object_extensions(&exts).unwrap();
    let mut buf = serialized;
    let deserialized = deserialize_object_extensions(&mut buf).unwrap();
    assert_eq!(deserialized, exts);
}

#[test]
fn object_extension_test_serialize_deserialize_empty() {
    let serialized = serialize_object_extensions(&[]).unwrap();
    assert!(serialized.is_empty());
    let mut buf = serialized;
    let deserialized = deserialize_object_extensions(&mut buf).unwrap();
    assert!(deserialized.is_empty());
}

#[test]
fn track_extension_test_roundtrip_delivery_timeout() {
    let ext = TrackExtension::DeliveryTimeout { timeout_ms: 5000 };
    assert_eq!(track_roundtrip(ext.clone()), ext);
}

#[test]
fn track_extension_test_roundtrip_max_cache_duration() {
    let ext = TrackExtension::MaxCacheDuration { duration_ms: 10000 };
    assert_eq!(track_roundtrip(ext.clone()), ext);
}

#[test]
fn track_extension_test_roundtrip_immutable_extensions() {
    let inner = vec![
        KeyValuePair::try_new_varint(0x10, 42).unwrap(),
        KeyValuePair::try_new_bytes(0x11, Bytes::from_static(b"hello")).unwrap(),
    ];
    let ext = TrackExtension::ImmutableExtensions {
        extensions: inner.clone(),
    };
    assert_eq!(track_roundtrip(ext.clone()), ext);
}

#[test]
fn track_extension_test_roundtrip_default_publisher_priority() {
    let ext = TrackExtension::DefaultPublisherPriority { priority: 128 };
    assert_eq!(track_roundtrip(ext.clone()), ext);
    let ext_max = TrackExtension::DefaultPublisherPriority { priority: 255 };
    assert_eq!(track_roundtrip(ext_max.clone()), ext_max);
}

#[test]
fn track_extension_test_roundtrip_default_publisher_group_order() {
    for order in [GroupOrder::Ascending, GroupOrder::Descending] {
        let ext = TrackExtension::DefaultPublisherGroupOrder { order };
        assert_eq!(track_roundtrip(ext.clone()), ext);
    }
}

#[test]
fn track_extension_test_roundtrip_dynamic_groups() {
    for enabled in [true, false] {
        let ext = TrackExtension::DynamicGroups { enabled };
        assert_eq!(track_roundtrip(ext.clone()), ext);
    }
}

#[test]
fn track_extension_test_roundtrip_unknown() {
    let kvp = KeyValuePair::try_new_varint(0xFE, 99).unwrap();
    let ext = TrackExtension::Unknown { kvp };
    assert_eq!(track_roundtrip(ext.clone()), ext);
}

#[test]
fn test_delivery_timeout_zero_is_error() {
    let kvp = KeyValuePair::try_new_varint(0x02, 0).unwrap();
    assert!(matches!(
        TrackExtension::deserialize(kvp).unwrap_err(),
        ParseError::ProtocolViolation { .. }
    ));
}

#[test]
fn track_extension_test_default_publisher_priority_over_255_is_error() {
    let kvp = KeyValuePair::try_new_varint(0x0E, 256).unwrap();
    assert!(matches!(
        TrackExtension::deserialize(kvp).unwrap_err(),
        ParseError::ProtocolViolation { .. }
    ));
}

#[test]
fn track_extension_test_default_publisher_group_order_original_is_error() {
    let kvp = KeyValuePair::try_new_varint(0x22, 0).unwrap();
    assert!(matches!(
        TrackExtension::deserialize(kvp).unwrap_err(),
        ParseError::ProtocolViolation { .. }
    ));
}

#[test]
fn track_extension_test_dynamic_groups_over_1_is_error() {
    let kvp = KeyValuePair::try_new_varint(0x30, 2).unwrap();
    assert!(matches!(
        TrackExtension::deserialize(kvp).unwrap_err(),
        ParseError::ProtocolViolation { .. }
    ));
}

#[test]
fn track_extension_test_immutable_extensions_nested_is_error() {
    let inner_immutable = KeyValuePair::try_new_bytes(0x0B, Bytes::from_static(b"")).unwrap();
    let inner_bytes = inner_immutable.serialize().unwrap();
    let outer = KeyValuePair::try_new_bytes(0x0B, inner_bytes).unwrap();
    assert!(matches!(
        TrackExtension::deserialize(outer).unwrap_err(),
        ParseError::ProtocolViolation { .. }
    ));
}

#[test]
fn track_extension_test_serialize_deserialize_mixed() {
    let exts = vec![
        TrackExtension::DeliveryTimeout { timeout_ms: 1000 },
        TrackExtension::DefaultPublisherPriority { priority: 64 },
        TrackExtension::DynamicGroups { enabled: true },
        TrackExtension::Unknown {
            kvp: KeyValuePair::try_new_varint(0xFE, 7).unwrap(),
        },
    ];
    let serialized = serialize_track_extensions(&exts).unwrap();
    let mut buf = serialized;
    let deserialized = deserialize_track_extensions(&mut buf).unwrap();
    assert_eq!(deserialized, exts);
}

#[test]
fn track_extension_test_serialize_deserialize_empty() {
    let serialized = serialize_track_extensions(&[]).unwrap();
    assert!(serialized.is_empty());
    let mut buf = serialized;
    let deserialized = deserialize_track_extensions(&mut buf).unwrap();
    assert!(deserialized.is_empty());
}

#[test]
fn extension_type_values() {
    assert_eq!(ObjectExtension::PriorGroupIdGap { gap: 1 }.type_value(), 0x3C);
    assert_eq!(ObjectExtension::PriorObjectIdGap { gap: 1 }.type_value(), 0x3E);
    assert_eq!(
        ObjectExtension::ImmutableExtensions { extensions: vec![] }.type_value(),
        0x0B
    );
    assert_eq!(TrackExtension::DynamicGroups { enabled: false }.type_value(), 0x30);
    assert_eq!(
        TrackExtension::DefaultPublisherGroupOrder {
            order: GroupOrder::Ascending
        }
        .type_value(),
        0x22
    );
}

#[test]
fn extension_wire_bytes() {
    let b = ObjectExtension::PriorGroupIdGap { gap: 3 }.serialize().unwrap();
    assert_eq!(b.as_ref(), &[0x3C, 0x03]);
    let b = TrackExtension::DynamicGroups { enabled: true }.serialize().unwrap();
    assert_eq!(b.as_ref(), &[0x30, 0x01]);
    let kvp = ObjectExtension::ImmutableExtensions {
        extensions: vec![KeyValuePair::try_new_varint(0x10, 7).unwrap()],
    }
    .to_kvp()
    .unwrap();
    assert_eq!(
        kvp,
        KeyValuePair::try_new_bytes(0x0B, Bytes::from_static(&[0x10, 0x07])).unwrap()
    );
}

#[test]
fn extension_wrong_encoding_is_protocol_violation() {
    let kvp = KeyValuePair::Bytes {
        type_value: 0x3C,
        value: Bytes::from_static(b"x"),
    };
    assert!(matches!(
        ObjectExtension::deserialize(kvp).unwrap_err(),
        ParseError::ProtocolViolation { .. }
    ));
    let kvp = KeyValuePair::VarInt {
        type_value: 0x0B,
        value: 1,
    };
    assert!(matches!(
        TrackExtension::deserialize(kvp).unwrap_err(),
        ParseError::ProtocolViolation { .. }
    ));
}

#[test]
fn scope_foreign_types_are_kept() {
    // A track-scope type at object level, and an object-scope type at track level.
    let kvp = KeyValuePair::try_new_varint(0x02, 5).unwrap();
    assert_eq!(
        ObjectExtension::deserialize(kvp.clone()).unwrap(),
        ObjectExtension::Unknown { kvp }
    );
    let kvp = KeyValuePair::try_new_varint(0x3C, 5).unwrap();
    assert_eq!(
        TrackExtension::deserialize(kvp.clone()).unwrap(),
        TrackExtension::Unknown { kvp }
    );
}

#[test]
fn oversized_immutable_container_is_refused() {
    let big = KeyValuePair::try_new_bytes(0x11, Bytes::from(vec![0u8; 65535])).unwrap();
    let ext = ObjectExtension::ImmutableExtensions {
        extensions: vec![big],
    };
    assert!(matches!(
        ext.serialize().unwrap_err(),
        ParseError::LengthExceedsMax { .. }
    ));
}
