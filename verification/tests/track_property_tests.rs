use bytes::{Buf, Bytes};
use moqtail::error::ParseError;
use moqtail::model::common::pair::KeyValuePair;
use moqtail::model::control::constant::GroupOrder;
use moqtail::model::property::track_property::{
    deserialize_track_properties, serialize_track_properties, TrackProperty,
};

fn property_roundtrip(ext: TrackProperty) -> TrackProperty {
    let serialized = ext.serialize().unwrap();
    let mut buf = serialized;
    let kvp = KeyValuePair::deserialize(&mut buf).unwrap();
    assert!(!buf.has_remaining());
    TrackProperty::deserialize(kvp).unwrap()
}

#[test]
fn track_property_test_roundtrip_delivery_timeout() {
    let ext = TrackProperty::ObjectDeliveryTimeout { timeout_ms: 5000 };
    assert_eq!(property_roundtrip(ext.clone()), ext);
}

#[test]
fn track_property_test_roundtrip_max_cache_duration() {
    let ext = TrackProperty::MaxCacheDuration { duration_ms: 10000 };
    assert_eq!(property_roundtrip(ext.clone()), ext);
}

#[test]
fn test_roundtrip_immutable_properties() {
    let inner = vec![
        KeyValuePair::try_new_varint(0x10, 42).unwrap(),
        KeyValuePair::try_new_bytes(0x11, Bytes::from_static(b"hello")).unwrap(),
    ];
    let ext = TrackProperty::ImmutableProperties {
        properties: inner.clone(),
    };
    assert_eq!(property_roundtrip(ext.clone()), ext);
}

#[test]
fn track_property_test_roundtrip_default_publisher_priority() {
    let ext = TrackProperty::DefaultPublisherPriority { priority: 128 };
    assert_eq!(property_roundtrip(ext.clone()), ext);
    let ext_max = TrackProperty::DefaultPublisherPriority { priority: 255 };
    assert_eq!(property_roundtrip(ext_max.clone()), ext_max);
}

#[test]
fn track_property_test_roundtrip_default_publisher_group_order() {
    for order in [GroupOrder::Ascending, GroupOrder::Descending] {
        let ext = TrackProperty::DefaultPublisherGroupOrder { order };
        assert_eq!(property_roundtrip(ext.clone()), ext);
    }
}

#[test]
fn track_property_test_roundtrip_dynamic_groups() {
    for enabled in [true, false] {
        let ext = TrackProperty::DynamicGroups { enabled };
        assert_eq!(property_roundtrip(ext.clone()), ext);
    }
}

#[test]
fn track_property_test_roundtrip_unknown() {
    let kvp = KeyValuePair::try_new_varint(0xFE, 99).unwrap();
    let ext = TrackProperty::Unknown { kvp };
    assert_eq!(property_roundtrip(ext.clone()), ext);
}

#[test]
fn track_property_test_delivery_timeout_zero_means_no_timeout() {
    let kvp = KeyValuePair::try_new_varint(0x02, 0).unwrap();
    assert_eq!(
        TrackProperty::deserialize(kvp).unwrap(),
        TrackProperty::ObjectDeliveryTimeout { timeout_ms: 0 }
    );

    let kvp = KeyValuePair::try_new_varint(0x06, 0).unwrap();
    assert_eq!(
        TrackProperty::deserialize(kvp).unwrap(),
        TrackProperty::SubgroupDeliveryTimeout { timeout_ms: 0 }
    );
}

#[test]
fn track_property_test_default_publisher_priority_over_255_is_error() {
    let kvp = KeyValuePair::try_new_varint(0x0E, 256).unwrap();
    assert!(matches!(
        TrackProperty::deserialize(kvp).unwrap_err(),
        ParseError::ProtocolViolation { .. }
    ));
}

#[test]
fn track_property_test_default_publisher_group_order_original_is_error() {
    let kvp = KeyValuePair::try_new_varint(0x22, 0).unwrap();
    assert!(matches!(
        TrackProperty::deserialize(kvp).unwrap_err(),
        ParseError::ProtocolViolation { .. }
    ));
}

#[test]
fn track_property_test_dynamic_groups_over_1_is_error() {
    let kvp = KeyValuePair::try_new_varint(0x30, 2).unwrap();
    assert!(matches!(
        TrackProperty::deserialize(kvp).unwrap_err(),
        ParseError::ProtocolViolation { .. }
    ));
}

#[test]
fn test_immutable_properties_nested_is_error() {
    let inner_immutable = KeyValuePair::try_new_bytes(0x0B, Bytes::from_static(b"")).unwrap();
    let inner_bytes = inner_immutable.serialize().unwrap();
    let outer = KeyValuePair::try_new_bytes(0x0B, inner_bytes).unwrap();
    assert!(matches!(
        TrackProperty::deserialize(outer).unwrap_err(),
        ParseError::ProtocolViolation { .. }
    ));
}

#[test]
fn track_property_test_serialize_deserialize_mixed() {
    let exts = vec![
        TrackProperty::ObjectDeliveryTimeout { timeout_ms: 1000 },
        TrackProperty::DefaultPublisherPriority { priority: 64 },
        TrackProperty::DynamicGroups { enabled: true },
        TrackProperty::Unknown {
            kvp: KeyValuePair::try_new_varint(0xFE, 7).unwrap(),
        },
    ];
    let serialized = serialize_track_properties(&exts).unwrap();
    let mut buf = serialized;
    let deserialized = deserialize_track_properties(&mut buf).unwrap();
    assert_eq!(deserialized, exts);
}

#[test]
fn track_property_test_serialize_deserialize_empty() {
    let serialized = serialize_track_properties(&[]).unwrap();
    assert!(serialized.is_empty());
    let mut buf = serialized;
    let deserialized = deserialize_track_properties(&mut buf).unwrap();
    assert!(deserialized.is_empty());
}

#[test]
fn test_immutable_properties_independent_of_outer_prev_type() {
    let inner = vec![
        KeyValuePair::try_new_varint(0x02, 7).unwrap(),
        KeyValuePair::try_new_bytes(0x03, Bytes::from_static(b"data")).unwrap(),
    ];
    let exts = vec![
        TrackProperty::ObjectDeliveryTimeout { timeout_ms: 100 },
        TrackProperty::ImmutableProperties {
            properties: inner.clone(),
        },
    ];
    let serialized = serialize_track_properties(&exts).unwrap();
    let mut buf = serialized;
    let deserialized = deserialize_track_properties(&mut buf).unwrap();
    assert_eq!(deserialized, exts);
}

#[test]
fn track_property_wire_bytes() {
    // A delivery timeout of 5000 ms: type 0x02, then 5000 in the two-byte form
    // (prefix bits 10 over 14 bits of value: 0x9388).
    let bytes = TrackProperty::ObjectDeliveryTimeout { timeout_ms: 5000 }
        .serialize()
        .unwrap();
    assert_eq!(bytes.as_ref(), &[0x02, 0x93, 0x88]);
    let t = TrackProperty::DynamicGroups { enabled: true }.type_value();
    assert_eq!(t, 0x30);
}

#[test]
fn track_property_list_is_sorted_by_type() {
    // Serialising sorts by type; the decoder gives them back in ascending order.
    let exts = vec![
        TrackProperty::DynamicGroups { enabled: false },
        TrackProperty::ObjectDeliveryTimeout { timeout_ms: 1 },
    ];
    let serialized = serialize_track_properties(&exts).unwrap();
    let mut buf = serialized;
    let deserialized = deserialize_track_properties(&mut buf).unwrap();
    assert_eq!(
        deserialized,
        vec![
            TrackProperty::ObjectDeliveryTimeout { timeout_ms: 1 },
            TrackProperty::DynamicGroups { enabled: false },
        ]
    );
}
