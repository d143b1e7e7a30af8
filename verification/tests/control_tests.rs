use bytes::{Buf, Bytes, BytesMut};
use moqtail::error::ParseError;
use moqtail::model::common::location::Location;
use moqtail::model::common::pair::KeyValuePair;
use moqtail::model::common::tuple::{Tuple, TupleField};
use moqtail::model::common::varint::BufVarIntExt;
use moqtail::model::control::constant::{ControlMessageType, FilterType, GroupOrder};
use moqtail::model::control::control_message::ControlMessageTrait;
use moqtail::model::control::fetch::Fetch;
use moqtail::model::control::goaway::GoAway;
use moqtail::model::control::publish::Publish;
use moqtail::model::control::publish_blocked::PublishBlocked;
use moqtail::model::control::publish_ok::PublishOk;
use moqtail::model::control::request_ok::RequestOk;
use moqtail::model::control::request_update::RequestUpdate;
use moqtail::model::control::subscribe_ok::SubscribeOk;
use moqtail::model::control::subscribe_tracks::SubscribeTracks;
use moqtail::model::control::switch::Switch;
use moqtail::model::control::track_status::TrackStatus;
use moqtail::model::extension_header::track_extension::TrackExtension;
use moqtail::model::parameter::authorization_token::AuthorizationToken;
use moqtail::model::parameter::message_parameter::MessageParameter;
use moqtail::model::property::track_property::TrackProperty;

fn goaway_roundtrip(go_away: GoAway) {
    let mut buf = go_away.serialize().unwrap();
    let msg_type = buf.get_vi().unwrap();
    assert_eq!(msg_type, ControlMessageType::GoAway.value());
    let msg_length = buf.get_u16();
    assert_eq!(msg_length as usize, buf.remaining());
    let deserialized = GoAway::parse_payload(&mut buf).unwrap();
    assert_eq!(*deserialized, go_away);
    assert!(!buf.has_remaining());
}

#[test]
fn roundtrip_without_request_id() {
    goaway_roundtrip(GoAway::new(Some("moqt://new.example".to_string()), 5000, None));
}

#[test]
fn roundtrip_with_request_id() {
    goaway_roundtrip(GoAway::new(Some("moqt://new.example".to_string()), 5000, Some(42)));
}

#[test]
fn roundtrip_empty_uri_reuses_current() {
    let go_away = GoAway::new(Some(String::new()), 0, Some(7));
    assert_eq!(go_away.new_session_uri, None);
    goaway_roundtrip(go_away);
}

#[test]
fn goaway_test_excess_roundtrip() {
    let go_away = GoAway::new(Some("moqt://new.example".to_string()), 5000, Some(42));

    let serialized = go_away.serialize().unwrap();
    let mut excess = BytesMut::new();
    excess.extend_from_slice(&serialized);
    excess.extend_from_slice(&[9u8, 1u8, 1u8]);
    let mut buf = excess.freeze();

    let msg_type = buf.get_vi().unwrap();
    assert_eq!(msg_type, ControlMessageType::GoAway.value());
    let msg_length = buf.get_u16();
    let mut payload = buf.copy_to_bytes(msg_length as usize);
    let deserialized = GoAway::parse_payload(&mut payload).unwrap();
    assert_eq!(*deserialized, go_away);
    assert_eq!(buf.chunk(), &[9u8, 1u8, 1u8]);
}

#[test]
fn goaway_test_partial_message() {
    let go_away = GoAway::new(Some("moqt://new.example".to_string()), 5000, Some(42));
    let mut buf = go_away.serialize().unwrap();
    let _ = buf.get_vi().unwrap();
    let msg_length = buf.get_u16();
    assert_eq!(msg_length as usize, buf.remaining());

    let upper = buf.remaining() / 2;
    let mut partial = buf.slice(..upper);
    assert!(GoAway::parse_payload(&mut partial).is_err());
}

#[test]
fn goaway_uri_limits_and_encoding() {
    // A URI length over 8192 is a protocol violation.
    let mut payload = Bytes::from_static(&[0x80 | 0x20, 0x01, 0x00]);
    assert!(matches!(
        GoAway::parse_payload(&mut payload).unwrap_err(),
        ParseError::ProtocolViolation { .. }
    ));
    // Bytes that are not UTF-8.
    let mut payload = Bytes::from_static(&[0x01, 0xFF, 0x00]);
    assert!(matches!(GoAway::parse_payload(&mut payload).unwrap_err(), ParseError::InvalidUTF8 { .. }));
    // The wire form: type 0x10, length 3, uri length 0, timeout 5, request id 1.
    let bytes = GoAway::new(None, 5, Some(1)).serialize().unwrap();
    assert_eq!(bytes.as_ref(), &[0x10, 0x00, 0x03, 0x00, 0x05, 0x01]);
    assert_eq!(GoAway::new(None, 5, None).get_type(), ControlMessageType::GoAway);
}

fn publish_blocked_sample() -> PublishBlocked {
    PublishBlocked::new(Tuple::from_utf8_path("room1/audio"), TupleField::from_utf8("track-42"))
}

#[test]
fn publish_blocked_test_roundtrip() {
    let msg = publish_blocked_sample();
    let mut buf = msg.serialize().unwrap();
    let msg_type = buf.get_vi().unwrap();
    assert_eq!(msg_type, ControlMessageType::PublishBlocked.value());
    let msg_length = buf.get_u16();
    assert_eq!(msg_length as usize, buf.remaining());
    let deserialized = PublishBlocked::parse_payload(&mut buf).unwrap();
    assert_eq!(*deserialized, msg);
    assert!(!buf.has_remaining());
}

#[test]
fn publish_blocked_test_excess_roundtrip() {
    let msg = publish_blocked_sample();
    let serialized = msg.serialize().unwrap();
    let mut excess = BytesMut::new();
    excess.extend_from_slice(&serialized);
    excess.extend_from_slice(&[9u8, 1u8, 1u8]);
    let mut buf = excess.freeze();
    let msg_type = buf.get_vi().unwrap();
    assert_eq!(msg_type, ControlMessageType::PublishBlocked.value());
    let msg_length = buf.get_u16();
    assert_eq!(msg_length as usize, buf.remaining() - 3);
    let deserialized = PublishBlocked::parse_payload(&mut buf).unwrap();
    assert_eq!(*deserialized, msg);
    assert_eq!(buf.chunk(), &[9u8, 1u8, 1u8]);
}

#[test]
fn publish_blocked_test_partial_message() {
    let msg = publish_blocked_sample();
    let mut buf = msg.serialize().unwrap();
    let _ = buf.get_vi().unwrap();
    let _ = buf.get_u16();
    let upper = buf.remaining() / 2;
    let mut partial = buf.slice(..upper);
    assert!(PublishBlocked::parse_payload(&mut partial).is_err());
}

#[test]
fn publish_ok_test_roundtrip_no_params() {
    let publish_ok = PublishOk::new(123, vec![]);

    let mut buf = publish_ok.serialize().unwrap();
    let msg_type = buf.get_vi().unwrap();
    assert_eq!(msg_type, ControlMessageType::PublishOk.value());
    let msg_length = buf.get_u16();
    assert_eq!(msg_length as usize, buf.remaining());
    let deserialized = PublishOk::parse_payload(&mut buf).unwrap();
    assert_eq!(*deserialized, publish_ok);
    assert!(!buf.has_remaining());
}

#[test]
fn publish_ok_parameters_come_back_in_type_order() {
    // Parameters are written sorted by type, as delta encoding requires.
    let publish_ok = PublishOk::new(
        456,
        vec![
            MessageParameter::new_forward(true),
            MessageParameter::new_subscriber_priority(5),
            MessageParameter::new_subscription_filter(FilterType::LatestObject, None, None),
            MessageParameter::new_group_order(GroupOrder::Ascending),
        ],
    );
    let mut buf = publish_ok.serialize().unwrap();
    let _ = buf.get_vi().unwrap();
    let _ = buf.get_u16();
    let deserialized = PublishOk::parse_payload(&mut buf).unwrap();
    assert_eq!(*deserialized, publish_ok);
    assert!(!buf.has_remaining());
}

#[test]
fn request_ok_test_roundtrip_no_params() {
    let request_ok = RequestOk::new(vec![]);

    let mut buf = request_ok.serialize().unwrap();
    let msg_type = buf.get_vi().unwrap();
    assert_eq!(msg_type, ControlMessageType::RequestOk.value());
    let msg_length = buf.get_u16();
    assert_eq!(msg_length as usize, buf.remaining());
    let deserialized = RequestOk::parse_payload(&mut buf).unwrap();
    assert_eq!(*deserialized, request_ok);
    assert!(!buf.has_remaining());
}

#[test]
fn request_ok_test_roundtrip_with_params() {
    let request_ok = RequestOk::new(vec![
        MessageParameter::new_expires(3600),
        MessageParameter::new_group_order(GroupOrder::Ascending),
    ]);

    let mut buf = request_ok.serialize().unwrap();
    let msg_type = buf.get_vi().unwrap();
    assert_eq!(msg_type, ControlMessageType::RequestOk.value());
    let msg_length = buf.get_u16();
    assert_eq!(msg_length as usize, buf.remaining());
    let deserialized = RequestOk::parse_payload(&mut buf).unwrap();
    assert_eq!(*deserialized, request_ok);
    assert!(!buf.has_remaining());
}

#[test]
fn request_ok_test_excess_roundtrip() {
    let request_ok = RequestOk::new(vec![MessageParameter::new_expires(3600)]);

    let serialized = request_ok.serialize().unwrap();
    let mut excess = BytesMut::new();
    excess.extend_from_slice(&serialized);
    excess.extend_from_slice(&[9u8, 1u8, 1u8]);
    let mut buf = excess.freeze();

    let msg_type = buf.get_vi().unwrap();
    assert_eq!(msg_type, ControlMessageType::RequestOk.value());
    let msg_length = buf.get_u16();

    assert_eq!(msg_length as usize, buf.remaining() - 3);
    let mut payload = buf.copy_to_bytes(msg_length as usize);
    let deserialized = RequestOk::parse_payload(&mut payload).unwrap();
    assert_eq!(*deserialized, request_ok);
    assert!(!payload.has_remaining());
    assert_eq!(buf.chunk(), &[9u8, 1u8, 1u8]);
}

#[test]
fn request_ok_test_partial_message() {
    let request_ok = RequestOk::new(vec![MessageParameter::new_expires(3600)]);
    let mut buf = request_ok.serialize().unwrap();
    let msg_type = buf.get_vi().unwrap();
    assert_eq!(msg_type, ControlMessageType::RequestOk.value());
    let msg_length = buf.get_u16();
    assert_eq!(msg_length as usize, buf.remaining());

    let upper = buf.remaining() / 2;
    let mut partial = buf.slice(..upper);
    let deserialized = RequestOk::parse_payload(&mut partial);
    assert!(deserialized.is_err());
}

#[test]
fn test_roundtrip_track_status_with_track_properties() {
    let request_ok = RequestOk::new_track_status(
        vec![MessageParameter::new_expires(60)],
        vec![
            TrackProperty::MaxCacheDuration { duration_ms: 60_000 },
            TrackProperty::DefaultPublisherPriority { priority: 3 },
        ],
    );

    let mut buf = request_ok.serialize().unwrap();
    let msg_type = buf.get_vi().unwrap();
    assert_eq!(msg_type, ControlMessageType::RequestOk.value());
    let msg_length = buf.get_u16();
    assert_eq!(msg_length as usize, buf.remaining());
    let deserialized = RequestOk::parse_payload(&mut buf).unwrap();
    assert_eq!(*deserialized, request_ok);
    assert!(!buf.has_remaining());
}

#[test]
fn test_track_properties_only_valid_for_track_status() {
    let with_props = RequestOk::new_track_status(vec![], vec![TrackProperty::MaxCacheDuration { duration_ms: 1 }]);
    assert!(with_props.validate_track_properties(true).is_ok());
    assert!(matches!(
        with_props.validate_track_properties(false),
        Err(ParseError::ProtocolViolation { .. })
    ));

    let empty = RequestOk::new(vec![]);
    assert!(empty.validate_track_properties(false).is_ok());
    assert!(empty.validate_track_properties(true).is_ok());
}

fn request_update_sample() -> RequestUpdate {
    RequestUpdate::new(
        120205,
        54321,
        vec![MessageParameter::new_subscription_filter(
            FilterType::AbsoluteRange,
            Some(Location { group: 81, object: 81 }),
            Some(25),
        )],
    )
}

#[test]
fn request_update_roundtrip_with_ordered_range() {
    let request_update = RequestUpdate::new(
        120205,
        54321,
        vec![MessageParameter::new_subscription_filter(
            FilterType::AbsoluteRange,
            Some(Location { group: 81, object: 81 }),
            Some(90),
        )],
    );
    let serialized = request_update.serialize().unwrap();
    let mut excess = BytesMut::new();
    excess.extend_from_slice(&serialized);
    excess.extend_from_slice(&[9u8, 1u8, 1u8]);
    let mut buf = excess.freeze();
    let msg_type = buf.get_vi().unwrap();
    assert_eq!(msg_type, ControlMessageType::RequestUpdate.value());
    let msg_length = buf.get_u16();
    assert_eq!(msg_length as usize, buf.remaining() - 3);
    let deserialized = RequestUpdate::parse_payload(&mut buf).unwrap();
    assert_eq!(*deserialized, request_update);
    assert_eq!(buf.chunk(), &[9u8, 1u8, 1u8]);
}

#[test]
fn request_update_end_group_before_start_comes_back_as_start() {
    // The end group travels as a saturating delta from the start group, so an
    // end group below the start group is read back as the start group.
    let request_update = request_update_sample();
    let mut buf = request_update.serialize().unwrap();
    buf.get_vi().unwrap();
    buf.get_u16();
    let deserialized = RequestUpdate::parse_payload(&mut buf).unwrap();
    assert_eq!(
        deserialized.parameters,
        vec![MessageParameter::new_subscription_filter(
            FilterType::AbsoluteRange,
            Some(Location { group: 81, object: 81 }),
            Some(81),
        )]
    );
}

#[test]
fn request_update_test_partial_message() {
    let request_update = request_update_sample();
    let mut buf = request_update.serialize().unwrap();
    let msg_type = buf.get_vi().unwrap();
    assert_eq!(msg_type, ControlMessageType::RequestUpdate.value());
    let msg_length = buf.get_u16();
    assert_eq!(msg_length as usize, buf.remaining());

    let upper = buf.remaining() / 2;
    let mut partial = buf.slice(..upper);
    assert!(RequestUpdate::parse_payload(&mut partial).is_err());
}

#[test]
fn subscribe_ok_test_roundtrip_with_track_extensions() {
    let subscribe_ok = SubscribeOk {
        request_id: 999,
        track_alias: 42,
        subscribe_parameters: vec![
            MessageParameter::new_expires(0),
            MessageParameter::new_group_order(GroupOrder::Descending),
        ],
        track_extensions: vec![
            TrackExtension::DeliveryTimeout { timeout_ms: 500 },
            TrackExtension::DynamicGroups { enabled: true },
        ],
    };

    let mut buf = subscribe_ok.serialize().unwrap();
    let msg_type = buf.get_vi().unwrap();
    assert_eq!(msg_type, ControlMessageType::SubscribeOk.value());
    let msg_length = buf.get_u16();
    assert_eq!(msg_length as usize, buf.remaining());
    let deserialized = SubscribeOk::parse_payload(&mut buf).unwrap();
    assert_eq!(*deserialized, subscribe_ok);
    assert!(!buf.has_remaining());
}

fn subscribe_ok_sample(track_alias: u64) -> SubscribeOk {
    SubscribeOk {
        request_id: 145136,
        track_alias,
        subscribe_parameters: vec![
            MessageParameter::new_expires(16),
            MessageParameter::new_largest_object(Location { group: 34, object: 0 }),
        ],
        track_extensions: vec![],
    }
}

#[test]
fn subscribe_ok_test_excess_roundtrip() {
    let subscribe_ok = subscribe_ok_sample(89123);

    let serialized = subscribe_ok.serialize().unwrap();
    let mut excess = BytesMut::new();
    excess.extend_from_slice(&serialized);
    excess.extend_from_slice(&[9u8, 1u8, 1u8]);
    let mut buf = excess.freeze();

    let msg_type = buf.get_vi().unwrap();
    assert_eq!(msg_type, ControlMessageType::SubscribeOk.value());
    let msg_length = buf.get_u16();

    assert_eq!(msg_length as usize, buf.remaining() - 3);
    let mut payload = buf.copy_to_bytes(msg_length as usize);
    let deserialized = SubscribeOk::parse_payload(&mut payload).unwrap();
    assert_eq!(*deserialized, subscribe_ok);
    assert!(!payload.has_remaining());
    assert_eq!(buf.chunk(), &[9u8, 1u8, 1u8]);
}

#[test]
fn subscribe_ok_test_partial_message() {
    let subscribe_ok = subscribe_ok_sample(1223);
    let mut buf = subscribe_ok.serialize().unwrap();
    let msg_type = buf.get_vi().unwrap();
    assert_eq!(msg_type, ControlMessageType::SubscribeOk.value());
    let msg_length = buf.get_u16();
    assert_eq!(msg_length as usize, buf.remaining());

    let upper = buf.remaining() / 2;
    let mut partial = buf.slice(..upper);
    assert!(SubscribeOk::parse_payload(&mut partial).is_err());
}

fn subscribe_tracks_sample() -> SubscribeTracks {
    SubscribeTracks::new(241421, Tuple::from_utf8_path("pre/fix/me"), vec![MessageParameter::new_forward(true)])
}

#[test]
fn subscribe_tracks_test_roundtrip() {
    let subscribe_tracks = subscribe_tracks_sample();
    let mut buf = subscribe_tracks.serialize().unwrap();
    let msg_type = buf.get_vi().unwrap();
    assert_eq!(msg_type, ControlMessageType::SubscribeTracks.value());
    let msg_length = buf.get_u16();
    assert_eq!(msg_length as usize, buf.remaining());
    let deserialized = SubscribeTracks::parse_payload(&mut buf).unwrap();
    assert_eq!(*deserialized, subscribe_tracks);
    assert!(!buf.has_remaining());
}

#[test]
fn subscribe_tracks_test_excess_roundtrip() {
    let subscribe_tracks = subscribe_tracks_sample();
    let serialized = subscribe_tracks.serialize().unwrap();
    let mut excess = BytesMut::new();
    excess.extend_from_slice(&serialized);
    excess.extend_from_slice(&[9u8, 1u8, 1u8]);
    let mut buf = excess.freeze();

    let msg_type = buf.get_vi().unwrap();
    assert_eq!(msg_type, ControlMessageType::SubscribeTracks.value());
    let msg_length = buf.get_u16();
    assert_eq!(msg_length as usize, buf.remaining() - 3);
    let deserialized = SubscribeTracks::parse_payload(&mut buf).unwrap();
    assert_eq!(*deserialized, subscribe_tracks);
    assert_eq!(buf.chunk(), &[9u8, 1u8, 1u8]);
}

#[test]
fn subscribe_tracks_test_partial_message() {
    let subscribe_tracks = subscribe_tracks_sample();
    let mut buf = subscribe_tracks.serialize().unwrap();
    let _ = buf.get_vi().unwrap();
    let _ = buf.get_u16();
    let upper = buf.remaining() / 2;
    let mut partial = buf.slice(..upper);
    assert!(SubscribeTracks::parse_payload(&mut partial).is_err());
}

#[test]
fn subscribe_tracks_prefix_of_33_fields_is_refused() {
    let mut prefix = Tuple::new();
    for _ in 0..33 {
        prefix.add(TupleField::from_utf8("x"));
    }
    let msg = SubscribeTracks::new(1, prefix, vec![]);
    let mut buf = msg.serialize().unwrap();
    let _ = buf.get_vi().unwrap();
    let _ = buf.get_u16();
    assert!(matches!(
        SubscribeTracks::parse_payload(&mut buf).unwrap_err(),
        ParseError::ProtocolViolation { .. }
    ));
}

fn track_status_sample() -> TrackStatus {
    TrackStatus::new(
        128,
        Tuple::from_utf8_path("un/deux/trois"),
        TupleField::from_utf8("quatre"),
        vec![MessageParameter::new_authorization_token(AuthorizationToken::new_use_alias(42))],
    )
}

#[test]
fn track_status_test_roundtrip() {
    let track_status = track_status_sample();
    let mut buf = track_status.serialize().unwrap();
    let msg_type = buf.get_vi().unwrap();
    assert_eq!(msg_type, ControlMessageType::TrackStatus.value());
    let msg_length = buf.get_u16();
    assert_eq!(msg_length as usize, buf.remaining());
    let deserialized = TrackStatus::parse_payload(&mut buf).unwrap();
    assert_eq!(*deserialized, track_status);
    assert!(!buf.has_remaining());
}

#[test]
fn track_status_test_excess_roundtrip() {
    let track_status = track_status_sample();
    let serialized = track_status.serialize().unwrap();
    let mut excess = BytesMut::new();
    excess.extend_from_slice(&serialized);
    excess.extend_from_slice(&[9u8, 1u8, 1u8]);
    let mut buf = excess.freeze();

    let msg_type = buf.get_vi().unwrap();
    assert_eq!(msg_type, ControlMessageType::TrackStatus.value());
    let msg_length = buf.get_u16();
    assert_eq!(msg_length as usize, buf.remaining() - 3);
    let deserialized = TrackStatus::parse_payload(&mut buf).unwrap();
    assert_eq!(*deserialized, track_status);
    assert_eq!(buf.chunk(), &[9u8, 1u8, 1u8]);
}

#[test]
fn track_status_test_partial_message() {
    let track_status = track_status_sample();
    let mut buf = track_status.serialize().unwrap();
    let _ = buf.get_vi().unwrap();
    let _ = buf.get_u16();
    let upper = buf.remaining() / 2;
    let mut partial = buf.slice(..upper);
    assert!(TrackStatus::parse_payload(&mut partial).is_err());
}

#[test]
fn track_status_full_track_name() {
    let track_status = track_status_sample();
    let name = track_status.get_full_track_name();
    assert_eq!(name.namespace, Tuple::from_utf8_path("un/deux/trois"));
    assert_eq!(name.name, TupleField::from_utf8("quatre"));
}

fn publish_with(content_exists: u8, largest_location: Option<Location>, forward: u8, parameters: Vec<MessageParameter>) -> Publish {
    Publish::new(
        123,
        Tuple::from_utf8_path("example/track"),
        TupleField::from_utf8("video"),
        456,
        GroupOrder::Ascending,
        content_exists,
        largest_location,
        forward,
        parameters,
        vec![],
    )
}

#[test]
fn test_roundtrip_with_content() {
    let publish = publish_with(1, Some(Location::new(10, 20)), 1, vec![MessageParameter::new_expires(1000)]);

    let mut buf = publish.serialize().unwrap();
    let msg_type = buf.get_vi().unwrap();
    assert_eq!(msg_type, ControlMessageType::Publish.value());
    let msg_length = buf.get_u16();
    assert_eq!(msg_length as usize, buf.remaining());
    assert_eq!(msg_length as usize, buf.remaining());
    let deserialized = Publish::parse_payload(&mut buf).unwrap();
    assert_eq!(*deserialized, publish);
    assert!(!buf.has_remaining());
}

#[test]
fn test_roundtrip_without_content() {
    let publish = publish_with(0, None, 0, vec![]);

    let mut buf = publish.serialize().unwrap();
    let msg_type = buf.get_vi().unwrap();
    assert_eq!(msg_type, ControlMessageType::Publish.value());
    let msg_length = buf.get_u16();
    assert_eq!(msg_length as usize, buf.remaining());
    let deserialized = Publish::parse_payload(&mut buf).unwrap();
    assert_eq!(*deserialized, publish);
    assert!(!buf.has_remaining());
}

#[test]
fn publish_test_roundtrip_with_track_extensions() {
    let publish = Publish::new(
        1,
        Tuple::from_utf8_path("ns/track"),
        TupleField::from_utf8("audio"),
        7,
        GroupOrder::Ascending,
        0,
        None,
        0,
        vec![],
        vec![
            TrackExtension::DeliveryTimeout { timeout_ms: 3000 },
            TrackExtension::DefaultPublisherPriority { priority: 100 },
        ],
    );

    let mut buf = publish.serialize().unwrap();
    let _msg_type = buf.get_vi().unwrap();
    let msg_length = buf.get_u16();
    assert_eq!(msg_length as usize, buf.remaining());
    let deserialized = Publish::parse_payload(&mut buf).unwrap();
    assert_eq!(*deserialized, publish);
    assert!(!buf.has_remaining());
}

#[test]
fn test_invalid_content_exists() {
    let publish = publish_with(1, None, 0, vec![]);
    let result = publish.serialize();
    assert!(result.is_err());
}

#[test]
fn publish_flags_other_than_0_or_1_are_refused() {
    let publish = publish_with(2, None, 0, vec![]);
    let mut buf = publish.serialize().unwrap();
    let _ = buf.get_vi().unwrap();
    let _ = buf.get_u16();
    assert!(matches!(Publish::parse_payload(&mut buf).unwrap_err(), ParseError::ProtocolViolation { .. }));
    let publish = publish_with(0, None, 3, vec![]);
    let mut buf = publish.serialize().unwrap();
    let _ = buf.get_vi().unwrap();
    let _ = buf.get_u16();
    assert!(matches!(Publish::parse_payload(&mut buf).unwrap_err(), ParseError::ProtocolViolation { .. }));
}

fn sample_fetch() -> Fetch {
    Fetch::new(
        161803,
        Tuple::from_utf8_path("un/deux/trois"),
        TupleField::from_utf8("quatre"),
        Location::new(12, 5),
        Location::new(20, 0),
        vec![
            MessageParameter::new_authorization_token(AuthorizationToken::new_use_value(
                0,
                Bytes::from_static(b"test-token"),
            )),
            MessageParameter::new_subscriber_priority(42),
            MessageParameter::new_group_order(GroupOrder::Ascending),
        ],
    )
}

#[test]
fn fetch_test_roundtrip() {
    let fetch = sample_fetch();

    let mut buf = fetch.serialize().unwrap();
    let msg_type = buf.get_vi().unwrap();
    assert_eq!(msg_type, ControlMessageType::Fetch.value());
    let msg_length = buf.get_u16();
    assert_eq!(msg_length as usize, buf.remaining());
    let deserialized = Fetch::parse_payload(&mut buf).unwrap();
    assert_eq!(*deserialized, fetch);
    assert!(!buf.has_remaining());
}

#[test]
fn fetch_test_excess_roundtrip() {
    let fetch = sample_fetch();

    let serialized = fetch.serialize().unwrap();
    let mut excess = BytesMut::new();
    excess.extend_from_slice(&serialized);
    excess.extend_from_slice(&[9u8, 1u8, 1u8]);
    let mut buf = excess.freeze();

    let msg_type = buf.get_vi().unwrap();
    assert_eq!(msg_type, ControlMessageType::Fetch.value());
    let msg_length = buf.get_u16();

    assert_eq!(msg_length as usize, buf.remaining() - 3);
    let deserialized = Fetch::parse_payload(&mut buf).unwrap();
    assert_eq!(*deserialized, fetch);
    assert_eq!(buf.chunk(), &[9u8, 1u8, 1u8]);
}

#[test]
fn fetch_test_partial_message() {
    let fetch = sample_fetch();

    let mut buf = fetch.serialize().unwrap();
    let msg_type = buf.get_vi().unwrap();
    assert_eq!(msg_type, ControlMessageType::Fetch.value());
    let msg_length = buf.get_u16();
    assert_eq!(msg_length as usize, buf.remaining());

    let upper = buf.remaining() / 2;
    let mut partial = buf.slice(..upper);
    assert!(Fetch::parse_payload(&mut partial).is_err());
}

#[test]
fn test_group_order_defaults_to_ascending() {
    let fetch = Fetch::new(
        1,
        Tuple::from_utf8_path("ns"),
        TupleField::from_utf8("track"),
        Location::new(0, 0),
        Location::new(1, 0),
        vec![],
    );
    assert_eq!(fetch.group_order(), GroupOrder::Ascending);
}

#[test]
fn fetch_group_order_takes_the_first_group_order_parameter() {
    let fetch = Fetch::new(
        1,
        Tuple::from_utf8_path("ns"),
        TupleField::from_utf8("track"),
        Location::new(0, 0),
        Location::new(1, 0),
        vec![
            MessageParameter::new_subscriber_priority(1),
            MessageParameter::new_group_order(GroupOrder::Descending),
            MessageParameter::new_group_order(GroupOrder::Ascending),
        ],
    );
    assert_eq!(fetch.group_order(), GroupOrder::Descending);
}

fn switch_sample() -> Switch {
    Switch {
        request_id: 128242,
        track_namespace: Tuple::from_utf8_path("nein/nein/nein"),
        track_name: TupleField::from_utf8("${Name}"),
        subscription_request_id: 31,
        subscribe_parameters: vec![
            KeyValuePair::try_new_varint(0, 10).unwrap(),
            KeyValuePair::try_new_bytes(1, Bytes::from_static(b"I'll sync you up")).unwrap(),
        ],
    }
}

#[test]
fn switch_test_roundtrip() {
    let switch = switch_sample();

    let mut buf = switch.serialize().unwrap();
    let msg_type = buf.get_vi().unwrap();
    assert_eq!(msg_type, ControlMessageType::Switch.value());
    let msg_length = buf.get_u16();
    assert_eq!(msg_length as usize, buf.remaining());
    let deserialized = Switch::parse_payload(&mut buf).unwrap();
    assert_eq!(*deserialized, switch);
    assert!(!buf.has_remaining());
}

#[test]
fn switch_test_excess_roundtrip() {
    let switch = switch_sample();

    let serialized = switch.serialize().unwrap();
    let mut excess = BytesMut::new();
    excess.extend_from_slice(&serialized);
    excess.extend_from_slice(&[9u8, 1u8, 1u8]);
    let mut buf = excess.freeze();

    let msg_type = buf.get_vi().unwrap();
    assert_eq!(msg_type, ControlMessageType::Switch.value());
    let msg_length = buf.get_u16();

    assert_eq!(msg_length as usize, buf.remaining() - 3);
    let deserialized = Switch::parse_payload(&mut buf).unwrap();
    assert_eq!(*deserialized, switch);
    assert_eq!(buf.chunk(), &[9u8, 1u8, 1u8]);
}

#[test]
fn switch_test_partial_message() {
    let switch = switch_sample();

    let mut buf = switch.serialize().unwrap();
    let msg_type = buf.get_vi().unwrap();
    assert_eq!(msg_type, ControlMessageType::Switch.value());
    let msg_length = buf.get_u16();
    assert_eq!(msg_length as usize, buf.remaining());

    let upper = buf.remaining() / 2;
    let mut partial = buf.slice(..upper);
    assert!(Switch::parse_payload(&mut partial).is_err());
}
