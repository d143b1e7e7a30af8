use bytes::{Buf, Bytes, BytesMut};
use moqtail::model::common::grease::grease_value;
use moqtail::model::common::pair::{serialize_kvp_list, KeyValuePair};
use moqtail::model::common::redirect::Redirect;
use moqtail::model::common::tuple::{Tuple, TupleField};
use moqtail::model::common::varint::{BufMutVarIntExt, BufVarIntExt};
use moqtail::model::control::constant::ControlMessageType;
use moqtail::model::control::control_message::ControlMessageTrait;
use moqtail::model::control::setup::{Setup, SetupSender};
use moqtail::model::error::termination::TerminationCode;
use moqtail::model::parameter::authorization_token::AuthorizationToken;
use moqtail::model::parameter::constant::SetupOptionType;
use moqtail::model::parameter::setup_option::SetupOption;
use moqtail::transport::kind::TransportKind;
use moqtail::error::ParseError;

#[test]
fn setup_test_roundtrip() {
    let setup_options = vec![
        KeyValuePair::try_new_varint(0, 10).unwrap(),
        KeyValuePair::try_new_bytes(1, Bytes::from_static(b"Set me up!")).unwrap(),
    ];
    let setup = Setup { setup_options: setup_options.clone() };

    let mut buf = setup.serialize().unwrap();
    let msg_type = buf.get_vi().unwrap();
    assert_eq!(msg_type, ControlMessageType::Setup.value());
    assert_eq!(msg_type, 0x2F00);
    let msg_length = buf.get_u16();
    assert_eq!(msg_length as usize, buf.remaining());

    let deserialized = Setup::parse_payload(&mut buf).unwrap();
    assert_eq!(*deserialized, setup);
    assert!(!buf.has_remaining());
}

#[test]
fn test_grease_setup_option_is_preserved_and_ignored() {
    let grease = KeyValuePair::try_new_bytes(grease_value(0).unwrap(), Bytes::from_static(b"anything")).unwrap();
    let setup = Setup { setup_options: vec![KeyValuePair::try_new_varint(0, 10).unwrap(), grease] };

    let mut buf = setup.serialize().unwrap();
    let _ = buf.get_vi().unwrap();
    let _ = buf.get_u16();
    let deserialized = Setup::parse_payload(&mut buf).unwrap();
    assert_eq!(*deserialized, setup);

    assert!(deserialized.validate_incoming(SetupSender::Server, TransportKind::WebTransport).is_ok());
}

#[test]
fn test_roundtrip_no_options() {
    let setup = Setup { setup_options: vec![] };

    let mut buf = setup.serialize().unwrap();
    let _ = buf.get_vi().unwrap();
    let msg_length = buf.get_u16();
    assert_eq!(msg_length, 0, "no options means an empty payload");

    let deserialized = Setup::parse_payload(&mut buf).unwrap();
    assert_eq!(*deserialized, setup);
}

#[test]
fn test_payload_carries_no_option_count() {
    let setup = Setup { setup_options: vec![KeyValuePair::try_new_varint(0, 10).unwrap()] };

    let mut buf = setup.serialize().unwrap();
    let _ = buf.get_vi().unwrap();
    let _ = buf.get_u16();

    let expected = serialize_kvp_list(&setup.setup_options).unwrap();
    assert_eq!(&buf[..], &expected[..]);
}

fn setup_with(option: SetupOptionType) -> Setup {
    Setup {
        setup_options: vec![KeyValuePair::try_new_bytes(option.value(), Bytes::from_static(b"example.com")).unwrap()],
    }
}

#[test]
fn authority_from_a_server_is_rejected() {
    assert_eq!(
        setup_with(SetupOptionType::Authority).validate_incoming(SetupSender::Server, TransportKind::Quic).unwrap_err(),
        TerminationCode::InvalidAuthority
    );
}

#[test]
fn authority_over_webtransport_is_rejected() {
    assert_eq!(
        setup_with(SetupOptionType::Authority)
            .validate_incoming(SetupSender::Client, TransportKind::WebTransport)
            .unwrap_err(),
        TerminationCode::InvalidAuthority
    );
}

#[test]
fn path_from_a_server_is_rejected() {
    assert_eq!(
        setup_with(SetupOptionType::Path).validate_incoming(SetupSender::Server, TransportKind::Quic).unwrap_err(),
        TerminationCode::InvalidPath
    );
}

#[test]
fn path_over_webtransport_is_rejected() {
    assert_eq!(
        setup_with(SetupOptionType::Path)
            .validate_incoming(SetupSender::Client, TransportKind::WebTransport)
            .unwrap_err(),
        TerminationCode::InvalidPath
    );
}

#[test]
fn client_only_options_are_accepted_from_a_client_over_quic() {
    for option in [SetupOptionType::Authority, SetupOptionType::Path] {
        assert!(
            setup_with(option).validate_incoming(SetupSender::Client, TransportKind::Quic).is_ok(),
            "{option:?} is what native QUIC uses these for"
        );
    }
}

#[test]
fn other_options_are_accepted_from_either_peer_on_either_transport() {
    let setup = setup_with(SetupOptionType::MoqtImplementation);
    for sender in [SetupSender::Client, SetupSender::Server] {
        for transport in [TransportKind::Quic, TransportKind::WebTransport] {
            assert!(setup.validate_incoming(sender, transport).is_ok());
        }
    }
}

#[test]
fn unknown_options_are_ignored() {
    let setup = Setup { setup_options: vec![KeyValuePair::try_new_varint(0x7A, 1).unwrap()] };
    assert!(setup.validate_incoming(SetupSender::Server, TransportKind::WebTransport).is_ok());
}

#[test]
fn setup_test_partial_message() {
    let setup = Setup {
        setup_options: vec![KeyValuePair::try_new_bytes(1, Bytes::from_static(b"truncated")).unwrap()],
    };
    let buf = setup.serialize().unwrap();
    let upper = buf.remaining() / 2;
    let mut partial = buf.slice(..upper);
    let _ = partial.get_vi();
    let _ = partial.get_u16();
    assert!(Setup::parse_payload(&mut partial).is_err());
}

#[test]
fn setup_first_restricted_option_decides_the_code() {
    let setup = Setup {
        setup_options: vec![
            KeyValuePair::try_new_bytes(SetupOptionType::Path.value(), Bytes::from_static(b"/p")).unwrap(),
            KeyValuePair::try_new_bytes(SetupOptionType::Authority.value(), Bytes::from_static(b"a")).unwrap(),
        ],
    };
    assert_eq!(
        setup.validate_incoming(SetupSender::Server, TransportKind::Quic).unwrap_err(),
        TerminationCode::InvalidPath
    );
    assert_eq!(TransportKind::Quic.name(), "quic");
    assert_eq!(TransportKind::WebTransport.name(), "webtransport");
}

#[test]
fn round_trips_with_uri_and_track() {
    let r = Redirect::new(
        Some("moqt://other.example".to_string()),
        Tuple::from_utf8_path("room1/audio"),
        TupleField::from_utf8("track-9"),
    );
    let mut bytes = r.serialize().unwrap();
    assert_eq!(Redirect::deserialize(&mut bytes).unwrap(), r);
    assert!(!bytes.has_remaining());
}

#[test]
fn round_trips_empty_uri_and_empty_track() {
    let r = Redirect::new(None, Tuple::new(), TupleField::from_utf8(""));
    assert_eq!(r.connect_uri, None);
    let mut bytes = r.serialize().unwrap();
    assert_eq!(Redirect::deserialize(&mut bytes).unwrap(), r);
    assert!(!bytes.has_remaining());
}

#[test]
fn redirect_empty_uri_is_none_and_written_as_zero_length() {
    let r = Redirect::new(Some(String::new()), Tuple::new(), TupleField::from_utf8(""));
    assert_eq!(r.connect_uri, None);
    let bytes = r.serialize().unwrap();
    assert_eq!(bytes.as_ref(), &[0x00, 0x00, 0x00]);
}

fn setup_option_roundtrip(orig: SetupOption) {
    let serialized = orig.serialize().unwrap();
    let mut buf = serialized.clone();
    let kvp = KeyValuePair::deserialize(&mut buf).unwrap();
    let got = SetupOption::deserialize(&kvp).unwrap();
    assert_eq!(orig, got);
    assert_eq!(buf.remaining(), 0);
}

#[test]
fn test_roundtrip_path() {
    setup_option_roundtrip(SetupOption::new_path("test/path".to_string()));
}

#[test]
fn test_roundtrip_empty_path() {
    setup_option_roundtrip(SetupOption::new_path(String::new()));
}

#[test]
fn test_roundtrip_max_auth_cache_size() {
    setup_option_roundtrip(SetupOption::new_max_auth_token_cache_size(123456));
}

#[test]
fn test_roundtrip_moqt_implementation() {
    setup_option_roundtrip(SetupOption::new_moqt_implementation("moqtail".to_string()));
}

#[test]
fn test_roundtrip_authority() {
    setup_option_roundtrip(SetupOption::new_authority("example.com:9443".to_string()));
}

#[test]
fn setup_option_roundtrip_auth_token() {
    setup_option_roundtrip(SetupOption::new_auth_token(AuthorizationToken::new_use_alias(9)));
}

#[test]
fn test_deserialize_invalid_type() {
    let kvp = KeyValuePair::VarInt { type_value: 999, value: 42 };
    let err = SetupOption::deserialize(&kvp);
    assert!(err.is_err());
}

#[test]
fn test_deserialize_path_missing_length() {
    let mut buf = BytesMut::new();
    buf.put_vi(SetupOptionType::Path.value()).unwrap();
    let mut bytes = buf.freeze();
    let err = KeyValuePair::deserialize(&mut bytes);
    assert!(err.is_err());
}

#[test]
fn test_deserialize_path_insufficient_data() {
    let mut buf = BytesMut::new();
    buf.put_vi(SetupOptionType::Path.value()).unwrap();
    buf.put_vi(5).unwrap();
    buf.extend_from_slice(b"abc");
    let mut bytes = buf.freeze();
    let err = KeyValuePair::deserialize(&mut bytes);
    assert!(err.is_err());
}

#[test]
fn test_deserialize_max_auth_cache_missing_value() {
    let mut buf = BytesMut::new();
    buf.put_vi(SetupOptionType::MaxAuthTokenCacheSize.value()).unwrap();
    let mut bytes = buf.freeze();
    let err = KeyValuePair::deserialize(&mut bytes);
    assert!(err.is_err());
}

#[test]
fn test_excess_bytes_after_path() {
    let orig = SetupOption::new_path("ok".to_string());
    let mut buf = BytesMut::from(&orig.serialize().unwrap()[..]);
    buf.extend_from_slice(b"XYZ");
    let mut bytes = buf.freeze();
    let kvp = KeyValuePair::deserialize(&mut bytes).unwrap();
    let got = SetupOption::deserialize(&kvp).unwrap();
    assert_eq!(got, orig);
    assert_eq!(bytes.remaining(), 3);
    assert_eq!(&bytes[..], b"XYZ");
}

#[test]
fn test_excess_bytes_after_max_auth_cache() {
    let orig = SetupOption::new_max_auth_token_cache_size(7);
    let mut buf = BytesMut::from(&orig.serialize().unwrap()[..]);
    buf.extend_from_slice(&[1, 2, 3]);
    let mut bytes = buf.freeze();
    let kvp = KeyValuePair::deserialize(&mut bytes).unwrap();
    let got = SetupOption::deserialize(&kvp).unwrap();
    assert_eq!(got, orig);
    assert_eq!(bytes.remaining(), 3);
    assert_eq!(&bytes[..], &[1, 2, 3]);
}

#[test]
fn setup_option_wrong_encoding_and_bad_text() {
    let kvp = KeyValuePair::VarInt { type_value: SetupOptionType::MaxRequestId.value(), value: 1 };
    assert!(matches!(SetupOption::deserialize(&kvp).unwrap_err(), ParseError::KeyValueFormattingError { .. }));
    let kvp = KeyValuePair::try_new_bytes(SetupOptionType::Path.value(), Bytes::from_static(&[0xFF])).unwrap();
    assert!(matches!(SetupOption::deserialize(&kvp).unwrap_err(), ParseError::InvalidUTF8 { .. }));
}
