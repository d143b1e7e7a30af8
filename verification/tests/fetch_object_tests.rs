use bytes::{Buf, Bytes, BytesMut};
use moqtail::error::ParseError;
use moqtail::model::common::pair::KeyValuePair;
use moqtail::model::common::varint::BufMutVarIntExt;
use moqtail::model::data::constant::ObjectForwardingPreference;
use moqtail::model::data::fetch_object::{
    EndOfRangeKind, FetchObject, FetchObjectContext, FetchObjectPayload, FLAG_GROUP_ID_PRESENT,
    FLAG_OBJECT_ID_PRESENT, SUBGROUP_MODE_PRESENT,
};
use moqtail::model::extension_header::object_extension::ObjectExtension;

fn sample_payload() -> FetchObjectPayload {
    FetchObjectPayload {
        group_id: 9,
        subgroup_id: 144,
        object_id: 10,
        publisher_priority: 255,
        forwarding_preference: ObjectForwardingPreference::Subgroup,
        extension_headers: Some(vec![
            ObjectExtension::Unknown {
                kvp: KeyValuePair::try_new_varint(0, 10).unwrap(),
            },
            ObjectExtension::Unknown {
                kvp: KeyValuePair::try_new_bytes(1, Bytes::from_static(b"wololoo")).unwrap(),
            },
        ]),
        payload: Bytes::from_static(b"01239gjawkk92837aldmi"),
    }
}

#[test]
fn roundtrip_first_object() {
    let obj = FetchObject::Object(sample_payload());
    let mut buf = obj.serialize(None).unwrap();
    let parsed = FetchObject::deserialize(&mut buf, None).unwrap();
    assert_eq!(parsed, obj);
    assert!(!buf.has_remaining());
}

#[test]
fn roundtrip_inherited_fields() {
    let first = sample_payload();
    let obj1 = FetchObject::Object(first.clone());
    let mut second = first.clone();
    second.object_id = first.object_id + 1;
    second.extension_headers = None;
    second.payload = Bytes::from_static(b"second");
    let obj2 = FetchObject::Object(second);

    let mut wire = BytesMut::new();
    wire.extend_from_slice(&obj1.serialize(None).unwrap());
    let ctx = obj1.context();
    wire.extend_from_slice(&obj2.serialize(ctx.as_ref()).unwrap());
    let mut wire = wire.freeze();

    let parsed1 = FetchObject::deserialize(&mut wire, None).unwrap();
    assert_eq!(parsed1, obj1);
    let ctx1 = parsed1.context();
    let parsed2 = FetchObject::deserialize(&mut wire, ctx1.as_ref()).unwrap();
    assert_eq!(parsed2, obj2);
    assert!(!wire.has_remaining());
}

#[test]
fn roundtrip_datagram_preference() {
    let mut p = sample_payload();
    p.forwarding_preference = ObjectForwardingPreference::Datagram;
    p.subgroup_id = p.object_id;
    let obj = FetchObject::Object(p);
    let mut buf = obj.serialize(None).unwrap();
    let parsed = FetchObject::deserialize(&mut buf, None).unwrap();
    assert_eq!(parsed, obj);
}

#[test]
fn roundtrip_end_of_non_existent_range() {
    let obj = FetchObject::EndOfRange {
        kind: EndOfRangeKind::NonExistent,
        group_id: 7,
        object_id: 42,
    };
    let mut buf = obj.serialize(None).unwrap();
    let parsed = FetchObject::deserialize(&mut buf, None).unwrap();
    assert_eq!(parsed, obj);
}

#[test]
fn roundtrip_end_of_unknown_range() {
    let obj = FetchObject::EndOfRange {
        kind: EndOfRangeKind::Unknown,
        group_id: 100,
        object_id: 0,
    };
    let mut buf = obj.serialize(None).unwrap();
    let parsed = FetchObject::deserialize(&mut buf, None).unwrap();
    assert_eq!(parsed, obj);
}

#[test]
fn reject_reserved_high_flag_value() {
    let mut buf = BytesMut::new();
    buf.put_vi(0x80u64).unwrap();
    buf.put_vi(1u64).unwrap();
    buf.put_vi(1u64).unwrap();
    let mut frozen = buf.freeze();
    let err = FetchObject::deserialize(&mut frozen, None).unwrap_err();
    assert!(matches!(err, ParseError::ProtocolViolation { .. }));
}

#[test]
fn reject_first_object_inheriting_priority() {
    let flags = SUBGROUP_MODE_PRESENT | FLAG_OBJECT_ID_PRESENT | FLAG_GROUP_ID_PRESENT;
    let mut buf = BytesMut::new();
    buf.put_vi(flags as u64).unwrap();
    buf.put_vi(1u64).unwrap();
    buf.put_vi(1u64).unwrap();
    buf.put_vi(1u64).unwrap();
    buf.put_vi(0u64).unwrap();
    let mut frozen = buf.freeze();
    let err = FetchObject::deserialize(&mut frozen, None).unwrap_err();
    assert!(matches!(err, ParseError::ProtocolViolation { .. }));
}

#[test]
fn excess_bytes_preserved() {
    let obj = FetchObject::Object(sample_payload());
    let serialized = obj.serialize(None).unwrap();
    let mut excess = BytesMut::new();
    excess.extend_from_slice(&serialized);
    excess.extend_from_slice(&[9u8, 1u8, 1u8]);
    let mut buf = excess.freeze();
    let parsed = FetchObject::deserialize(&mut buf, None).unwrap();
    assert_eq!(parsed, obj);
    assert_eq!(buf.chunk(), &[9u8, 1u8, 1u8]);
}

#[test]
fn partial_message_fails() {
    let obj = FetchObject::Object(sample_payload());
    let buf = obj.serialize(None).unwrap();
    let upper = buf.remaining() / 2;
    let mut partial = buf.slice(..upper);
    let result = FetchObject::deserialize(&mut partial, None);
    assert!(result.is_err());
}

#[test]
fn fetch_first_object_wire_bytes() {
    let p = FetchObjectPayload {
        group_id: 1,
        subgroup_id: 0,
        object_id: 2,
        publisher_priority: 3,
        forwarding_preference: ObjectForwardingPreference::Subgroup,
        extension_headers: None,
        payload: Bytes::from_static(b"ab"),
    };
    let bytes = FetchObject::Object(p).serialize(None).unwrap();
    // flags: object | group | priority present, subgroup mode zero
    assert_eq!(bytes.as_ref(), &[0x1C, 1, 2, 3, 2, b'a', b'b']);
}

#[test]
fn fetch_inherits_every_field_it_can() {
    let prev = FetchObjectContext {
        group_id: 4,
        subgroup_id: 6,
        object_id: 8,
        publisher_priority: 9,
    };
    let p = FetchObjectPayload {
        group_id: 4,
        subgroup_id: 7,
        object_id: 9,
        publisher_priority: 9,
        forwarding_preference: ObjectForwardingPreference::Subgroup,
        extension_headers: Some(vec![]),
        payload: Bytes::new(),
    };
    let obj = FetchObject::Object(p.clone());
    let mut bytes = obj.serialize(Some(&prev)).unwrap();
    // subgroup mode prior+1, nothing else present, empty extension list dropped
    assert_eq!(bytes.as_ref(), &[0x02, 0]);
    let parsed = FetchObject::deserialize(&mut bytes, Some(&prev)).unwrap();
    let mut expected = p;
    expected.extension_headers = None;
    assert_eq!(parsed, FetchObject::Object(expected));
}

#[test]
fn end_of_range_leaves_no_context() {
    let obj = FetchObject::EndOfRange {
        kind: EndOfRangeKind::Unknown,
        group_id: 1,
        object_id: 1,
    };
    assert!(obj.context().is_none());
    let ctx = FetchObject::Object(sample_payload()).context().unwrap();
    assert_eq!(ctx.group_id, 9);
    assert_eq!(ctx.subgroup_id, 144);
    assert_eq!(ctx.object_id, 10);
    assert_eq!(ctx.publisher_priority, 255);
}

#[test]
fn fetch_bad_extensions_are_protocol_violation() {
    let mut buf = BytesMut::new();
    // object | group | priority | extensions present
    buf.put_vi(0x3Cu64).unwrap();
    buf.put_vi(1u64).unwrap();
    buf.put_vi(1u64).unwrap();
    buf.extend_from_slice(&[0]);
    // extension block of one byte that cannot hold a pair
    buf.put_vi(1u64).unwrap();
    buf.extend_from_slice(&[0x01]);
    buf.put_vi(0u64).unwrap();
    let mut frozen = buf.freeze();
    let err = FetchObject::deserialize(&mut frozen, None).unwrap_err();
    assert!(matches!(err, ParseError::ProtocolViolation { .. }));
}

#[test]
fn fetch_truncated_priority_is_not_enough_bytes() {
    let mut buf = BytesMut::new();
    buf.put_vi(0x1Cu64).unwrap();
    buf.put_vi(1u64).unwrap();
    buf.put_vi(1u64).unwrap();
    let mut frozen = buf.freeze();
    let err = FetchObject::deserialize(&mut frozen, None).unwrap_err();
    assert!(matches!(err, ParseError::NotEnoughBytes { .. }));
}

fn context_at_limit() -> FetchObjectContext {
    FetchObjectContext {
        group_id: 4,
        subgroup_id: u64::MAX,
        object_id: u64::MAX,
        publisher_priority: 9,
    }
}

#[test]
fn inheriting_past_the_largest_ids_is_a_protocol_violation() {
    let prev = context_at_limit();
    // Object id inherited from the largest one: there is no next.
    let mut buf = Bytes::from_static(&[0x00, 0x00]);
    assert!(matches!(
        FetchObject::deserialize(&mut buf, Some(&prev)),
        Err(ParseError::ProtocolViolation { .. })
    ));
    // Subgroup one past the largest.
    let mut buf = Bytes::from_static(&[0x06, 0x05, 0x00]);
    assert!(matches!(
        FetchObject::deserialize(&mut buf, Some(&prev)),
        Err(ParseError::ProtocolViolation { .. })
    ));
}

#[test]
fn prior_object_at_the_limit_with_explicit_ids_reads() {
    let prev = context_at_limit();
    // Object id given, subgroup zero, group and priority inherited, empty payload.
    let mut buf = Bytes::from_static(&[0x04, 0x05, 0x00]);
    let parsed = FetchObject::deserialize(&mut buf, Some(&prev)).unwrap();
    assert_eq!(
        parsed,
        FetchObject::Object(FetchObjectPayload {
            group_id: 4,
            subgroup_id: 0,
            object_id: 5,
            publisher_priority: 9,
            forwarding_preference: ObjectForwardingPreference::Subgroup,
            extension_headers: None,
            payload: Bytes::new(),
        })
    );
    assert!(!buf.has_remaining());
}

#[test]
fn writes_against_a_prior_subgroup_at_the_limit() {
    let prev = FetchObjectContext {
        group_id: 4,
        subgroup_id: u64::MAX,
        object_id: 7,
        publisher_priority: 9,
    };
    // Same subgroup as the prior one: it is inherited, nothing is stepped.
    let same = FetchObject::Object(FetchObjectPayload {
        group_id: 4,
        subgroup_id: u64::MAX,
        object_id: 8,
        publisher_priority: 9,
        forwarding_preference: ObjectForwardingPreference::Subgroup,
        extension_headers: None,
        payload: Bytes::from_static(b"x"),
    });
    let mut buf = same.serialize(Some(&prev)).unwrap();
    assert_eq!(FetchObject::deserialize(&mut buf, Some(&prev)).unwrap(), same);
    assert!(!buf.has_remaining());
    // Subgroup zero: no comparison with the prior subgroup at all.
    let zero = FetchObject::Object(FetchObjectPayload {
        group_id: 4,
        subgroup_id: 0,
        object_id: 8,
        publisher_priority: 9,
        forwarding_preference: ObjectForwardingPreference::Subgroup,
        extension_headers: None,
        payload: Bytes::new(),
    });
    let mut buf = zero.serialize(Some(&prev)).unwrap();
    assert_eq!(FetchObject::deserialize(&mut buf, Some(&prev)).unwrap(), zero);
}
