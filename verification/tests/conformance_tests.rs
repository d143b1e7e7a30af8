use moqtail::conformance::{parse_bytes, parse_hex, parse_u64, pascal, Entry, LANG};

#[test]
fn parses_hex_and_decimal_fixture_values() {
    assert_eq!(parse_hex("0x2F00"), 0x2F00);
    assert_eq!(parse_hex("0x0"), 0);
    assert_eq!(parse_bytes("ff0100"), vec![0xff, 0x01, 0x00]);
    assert_eq!(parse_bytes(""), Vec::<u8>::new());
    assert_eq!(parse_u64("18446744073709551615"), u64::MAX);
}

#[test]
fn pascal_case_matches_the_crate_convention() {
    assert_eq!(pascal("SUBSCRIBE_NAMESPACE"), "SubscribeNamespace");
    assert_eq!(pascal("PUBLISH_OK"), "PublishOk");
    assert_eq!(pascal("RESERVED_SETUP_V00"), "ReservedSetupV00");
    assert_eq!(pascal("SETUP"), "Setup");
}

fn entry(value: &str, pending: Vec<(String, u64)>) -> Entry {
    Entry {
        name: "GOAWAY".to_string(),
        value: value.to_string(),
        reserved: false,
        pending,
        notes: None,
        stream: None,
        scope: None,
        spec: None,
    }
}

#[test]
fn entry_codepoint_and_pending_issue() {
    let e = entry("0X1a", vec![("ts".to_string(), 3), (LANG.to_string(), 41)]);
    assert_eq!(e.codepoint(), 0x1A);
    assert_eq!(e.pending_issue(), Some(41));
    let e = entry("0x10", vec![("ts".to_string(), 3)]);
    assert_eq!(e.pending_issue(), None);
}

#[test]
fn parsers_accept_a_leading_plus_as_the_standard_parser_does() {
    assert_eq!(parse_hex("0x+ff"), 0xff);
    assert_eq!(parse_u64("+42"), 42);
    assert_eq!(parse_bytes("+f0a"), vec![0x0f, 0x0a]);
    assert_eq!(pascal("_A__B_"), "AB");
    assert_eq!(pascal(""), "");
}
