use bytes::{Buf, Bytes, BytesMut};
use moqtail::error::ParseError;
use moqtail::model::common::location::Location;
use moqtail::model::common::pair::KeyValuePair;
use moqtail::model::common::varint::{BufMutVarIntExt, BufVarIntExt};
use moqtail::model::control::constant::{ControlMessageType, FilterType, GroupOrder};
use moqtail::model::parameter::authorization_token::AuthorizationToken;
use moqtail::model::parameter::constant::MessageParameterType;
use moqtail::model::parameter::message_parameter::{
    apply_message_parameter_update, deserialize_message_parameters, serialize_message_parameters,
    MessageParameter, MessageParameterVecExt,
};

fn roundtrip(param: MessageParameter) -> MessageParameter {
    let serialized = param.serialize().unwrap();
    let mut bytes = serialized;
    let kvp = KeyValuePair::deserialize(&mut bytes).unwrap();
    let result = MessageParameter::deserialize(&kvp).unwrap();
    assert_eq!(bytes.remaining(), 0);
    result
}

#[test]
fn message_parameter_test_roundtrip_delivery_timeout() {
    let orig = MessageParameter::new_object_delivery_timeout(0xABCD);
    assert_eq!(roundtrip(orig.clone()), orig);
}

#[test]
fn test_roundtrip_expires() {
    let orig = MessageParameter::new_expires(9999);
    assert_eq!(roundtrip(orig.clone()), orig);
}

#[test]
fn test_roundtrip_forward() {
    let orig = MessageParameter::new_forward(false);
    assert_eq!(roundtrip(orig.clone()), orig);
}

#[test]
fn test_roundtrip_subscriber_priority() {
    let orig = MessageParameter::new_subscriber_priority(42);
    assert_eq!(roundtrip(orig.clone()), orig);
}

#[test]
fn test_roundtrip_group_order() {
    let orig = MessageParameter::new_group_order(GroupOrder::Ascending);
    assert_eq!(roundtrip(orig.clone()), orig);
}

#[test]
fn test_roundtrip_new_group_request() {
    let orig = MessageParameter::new_group_request(7);
    assert_eq!(roundtrip(orig.clone()), orig);
}

#[test]
fn test_roundtrip_authorization_token() {
    let token = AuthorizationToken::new_use_alias(42);
    let orig = MessageParameter::new_authorization_token(token);
    assert_eq!(roundtrip(orig.clone()), orig);
}

#[test]
fn test_roundtrip_largest_object() {
    let orig = MessageParameter::new_largest_object(Location {
        group: 10,
        object: 5,
    });
    assert_eq!(roundtrip(orig.clone()), orig);
}

#[test]
fn test_roundtrip_subscription_filter_latest_object() {
    let orig = MessageParameter::new_subscription_filter(FilterType::LatestObject, None, None);
    assert_eq!(roundtrip(orig.clone()), orig);
}

#[test]
fn test_roundtrip_subscription_filter_absolute_start() {
    let orig = MessageParameter::new_subscription_filter(
        FilterType::AbsoluteStart,
        Some(Location {
            group: 3,
            object: 1,
        }),
        None,
    );
    assert_eq!(roundtrip(orig.clone()), orig);
}

#[test]
fn test_roundtrip_subscription_filter_absolute_range() {
    let orig = MessageParameter::new_subscription_filter(
        FilterType::AbsoluteRange,
        Some(Location {
            group: 5,
            object: 0,
        }),
        Some(20),
    );
    assert_eq!(roundtrip(orig.clone()), orig);
}

#[test]
fn test_absolute_range_end_group_is_delta_on_wire() {
    let orig = MessageParameter::new_subscription_filter(
        FilterType::AbsoluteRange,
        Some(Location {
            group: 5,
            object: 0,
        }),
        Some(20),
    );
    let mut bytes = orig.serialize().unwrap();
    let kvp = KeyValuePair::deserialize(&mut bytes).unwrap();
    let KeyValuePair::Bytes { value, .. } = kvp else {
        panic!("SubscriptionFilter must be a bytes KVP");
    };
    let mut value = value;
    assert_eq!(value.get_vi().unwrap(), u64::from(FilterType::AbsoluteRange));
    assert_eq!(value.get_vi().unwrap(), 5);
    assert_eq!(value.get_vi().unwrap(), 0);
    assert_eq!(value.get_vi().unwrap(), 15);
}

#[test]
fn test_absolute_range_end_group_delta_overflow_is_protocol_violation() {
    let mut value = BytesMut::new();
    value.put_vi(u64::from(FilterType::AbsoluteRange)).unwrap();
    value.put_vi(u64::MAX).unwrap();
    value.put_vi(0u64).unwrap();
    value.put_vi(1u64).unwrap();
    let kvp = KeyValuePair::try_new_bytes(
        u64::from(MessageParameterType::SubscriptionFilter),
        value.freeze(),
    )
    .unwrap();
    assert!(matches!(
        MessageParameter::deserialize(&kvp),
        Err(ParseError::ProtocolViolation { .. })
    ));
}

#[test]
fn test_unknown_type_is_protocol_violation() {
    let kvp = KeyValuePair::try_new_varint(998, 1).unwrap();
    let err = MessageParameter::deserialize(&kvp).unwrap_err();
    assert!(matches!(err, ParseError::ProtocolViolation { .. }));
}

#[test]
fn test_bulk_deserialize_rejects_wrong_message_params() {
    let params = vec![
        MessageParameter::new_object_delivery_timeout(100),
        MessageParameter::new_subscriber_priority(50),
    ];
    let param_count = params.len() as u64;
    let mut bytes = serialize_message_parameters(&params).unwrap();
    let err = deserialize_message_parameters(&mut bytes, param_count, ControlMessageType::Fetch)
        .unwrap_err();
    assert!(matches!(err, ParseError::ProtocolViolation { .. }));
}

#[test]
fn test_fill_timeout_rejected_outside_fetch() {
    let params = vec![MessageParameter::new_fill_timeout(3000)];
    let mut bytes = serialize_message_parameters(&params).unwrap();
    let err =
        deserialize_message_parameters(&mut bytes, 1, ControlMessageType::Subscribe).unwrap_err();
    assert!(matches!(err, ParseError::ProtocolViolation { .. }));

    let mut bytes = serialize_message_parameters(&params).unwrap();
    let ok = deserialize_message_parameters(&mut bytes, 1, ControlMessageType::Fetch).unwrap();
    assert_eq!(ok, vec![MessageParameter::new_fill_timeout(3000)]);
}

#[test]
fn message_parameter_test_delivery_timeout_zero_means_no_timeout() {
    let params = vec![MessageParameter::new_object_delivery_timeout(0)];
    let mut bytes = serialize_message_parameters(&params).unwrap();
    let ok = deserialize_message_parameters(&mut bytes, 1, ControlMessageType::Subscribe).unwrap();
    assert_eq!(ok, vec![MessageParameter::new_object_delivery_timeout(0)]);
}

#[test]
fn test_bulk_deserialize_errors_on_unknown_type() {
    let kvp = KeyValuePair::try_new_varint(998, 1).unwrap();
    let mut buf = BytesMut::new();
    buf.extend_from_slice(&kvp.serialize().unwrap());
    let mut bytes = buf.freeze();
    let err =
        deserialize_message_parameters(&mut bytes, 1, ControlMessageType::Subscribe).unwrap_err();
    assert!(matches!(err, ParseError::ProtocolViolation { .. }));
}

#[test]
fn test_apply_update() {
    let mut current = vec![
        MessageParameter::new_subscriber_priority(100),
        MessageParameter::new_forward(true),
    ];
    let updates = vec![
        MessageParameter::new_subscriber_priority(50),
        MessageParameter::new_object_delivery_timeout(500),
    ];
    apply_message_parameter_update(&mut current, updates);
    assert_eq!(current.len(), 3);
    assert!(current.contains(&MessageParameter::new_subscriber_priority(50)));
    assert!(current.contains(&MessageParameter::new_forward(true)));
    assert!(current.contains(&MessageParameter::new_object_delivery_timeout(500)));
}

#[test]
fn test_is_valid_for() {
    let timeout = MessageParameter::new_object_delivery_timeout(100);
    assert!(timeout.is_valid_for(ControlMessageType::Subscribe));
    assert!(timeout.is_valid_for(ControlMessageType::PublishOk));
    assert!(!timeout.is_valid_for(ControlMessageType::Fetch));
}

#[test]
fn test_type_value() {
    assert_eq!(
        MessageParameter::new_object_delivery_timeout(0).type_value(),
        u64::from(MessageParameterType::ObjectDeliveryTimeout)
    );
    assert_eq!(
        MessageParameter::new_forward(true).type_value(),
        u64::from(MessageParameterType::Forward)
    );
}

#[test]
fn test_bug_report_wire_format_is_delta_encoded() {
    let params = vec![
        MessageParameter::new_subscriber_priority(0),
        MessageParameter::new_forward(true),
        MessageParameter::new_subscription_filter(FilterType::LatestObject, None, None),
    ];
    let mut bytes = serialize_message_parameters(&params).unwrap();
    let mut prev_type = 0u64;
    let mut types = Vec::new();
    while bytes.has_remaining() {
        let kvp = KeyValuePair::deserialize_delta(&mut bytes, prev_type).unwrap();
        prev_type = kvp.get_type();
        types.push(prev_type);
    }
    assert_eq!(
        types,
        vec![
            u64::from(MessageParameterType::Forward),
            u64::from(MessageParameterType::SubscriberPriority),
            u64::from(MessageParameterType::SubscriptionFilter),
        ]
    );
}

#[test]
fn test_decode_delta_encoded_peer_stream() {
    let mut buf = BytesMut::new();
    buf.put_vi(u64::from(MessageParameterType::Forward)).unwrap();
    buf.put_vi(1u64).unwrap();
    buf.put_vi(
        u64::from(MessageParameterType::SubscriberPriority)
            - u64::from(MessageParameterType::Forward),
    )
    .unwrap();
    buf.put_vi(5u64).unwrap();
    let mut bytes = buf.freeze();

    let params =
        deserialize_message_parameters(&mut bytes, 2, ControlMessageType::Subscribe).unwrap();
    assert_eq!(
        params,
        vec![
            MessageParameter::new_forward(true),
            MessageParameter::new_subscriber_priority(5),
        ]
    );
}

#[test]
fn uint8_parameters_are_single_bytes() {
    let params = vec![MessageParameter::new_subscriber_priority(128)];
    let mut bytes = serialize_message_parameters(&params).unwrap();
    assert_eq!(bytes.as_ref(), &[0x20, 0x80]);
    let back = deserialize_message_parameters(&mut bytes, 1, ControlMessageType::Subscribe).unwrap();
    assert_eq!(back, params);
}

#[test]
fn truncated_uint8_parameter_is_not_enough_bytes() {
    let mut bytes = Bytes::from_static(&[0x10]);
    let err = deserialize_message_parameters(&mut bytes, 1, ControlMessageType::Subscribe).unwrap_err();
    assert!(matches!(err, ParseError::NotEnoughBytes { .. }));
}

#[test]
fn parameter_type_delta_overflow_is_protocol_violation() {
    let mut buf = BytesMut::new();
    buf.put_vi(0x10u64).unwrap();
    buf.put_vi(1u64).unwrap();
    buf.put_vi(u64::MAX).unwrap();
    let mut bytes = buf.freeze();
    let err = deserialize_message_parameters(&mut bytes, 2, ControlMessageType::Subscribe).unwrap_err();
    assert!(matches!(err, ParseError::ProtocolViolation { .. }));
}

#[test]
fn unknown_filter_type_is_invalid_type() {
    let kvp = KeyValuePair::try_new_bytes(0x21, Bytes::from_static(&[0x09])).unwrap();
    assert!(matches!(
        MessageParameter::deserialize(&kvp),
        Err(ParseError::InvalidType { .. })
    ));
}

#[test]
fn get_and_set_param_by_type() {
    let mut params = vec![
        MessageParameter::new_forward(true),
        MessageParameter::new_subscriber_priority(1),
    ];
    assert_eq!(
        params.get_param(MessageParameterType::SubscriberPriority),
        Some(&MessageParameter::new_subscriber_priority(1))
    );
    assert!(params.get_param(MessageParameterType::Expires).is_none());
    params.set_param(MessageParameter::new_subscriber_priority(9));
    params.set_param(MessageParameter::new_expires(3));
    assert_eq!(params.len(), 3);
    assert_eq!(
        params.get_param_or(
            MessageParameterType::SubscriberPriority,
            MessageParameter::new_subscriber_priority(0)
        ),
        MessageParameter::new_subscriber_priority(9)
    );
    assert_eq!(
        params.get_param_or(
            MessageParameterType::GroupOrder,
            MessageParameter::new_group_order(GroupOrder::Original)
        ),
        MessageParameter::new_group_order(GroupOrder::Original)
    );
}

#[test]
fn authorization_token_forms() {
    let t = AuthorizationToken::new_register(1, 2, Bytes::from_static(b"tok"));
    let b = t.serialize().unwrap();
    assert_eq!(b.as_ref(), &[1, 1, 2, b't', b'o', b'k']);
    let mut buf = b;
    assert_eq!(AuthorizationToken::deserialize(&mut buf).unwrap(), t);
    let bad = AuthorizationToken {
        alias_type: 9,
        token_alias: None,
        token_type: None,
        token_value: None,
    };
    assert!(matches!(bad.serialize(), Err(ParseError::InvalidType { .. })));
    let mut buf = Bytes::from_static(&[3, 7, b'x']);
    assert_eq!(
        AuthorizationToken::deserialize(&mut buf).unwrap(),
        AuthorizationToken::new_use_value(7, Bytes::from_static(b"x"))
    );
}
