use bytes::{Buf, Bytes};
use moqtail::error::ParseError;
use moqtail::model::data::padding::{PaddingDatagram, PaddingStream, PADDING_STREAM_TYPE};

#[test]
fn test_roundtrip_padding_stream() {
    let padding = PaddingStream::new(100);
    let serialized = padding.serialize().unwrap();
    let type_len = serialized.len() - padding.length;
    assert!(serialized.iter().skip(type_len).all(|&b| b == 0));
    let mut bytes = serialized;
    let decoded = PaddingStream::deserialize(&mut bytes).unwrap();
    assert_eq!(decoded, padding);
    assert_eq!(bytes.remaining(), 0);
}

#[test]
fn test_roundtrip_empty_padding_stream() {
    let padding = PaddingStream::new(0);
    let mut bytes = padding.serialize().unwrap();
    let decoded = PaddingStream::deserialize(&mut bytes).unwrap();
    assert_eq!(decoded, padding);
}

#[test]
fn test_roundtrip_padding_datagram() {
    let padding = PaddingDatagram::new(42);
    let mut bytes = padding.serialize().unwrap();
    let decoded = PaddingDatagram::deserialize(&mut bytes).unwrap();
    assert_eq!(decoded, padding);
    assert_eq!(bytes.remaining(), 0);
}

#[test]
fn test_padding_stream_wrong_type_is_error() {
    let mut bytes = PaddingDatagram::new(8).serialize().unwrap();
    assert!(matches!(
        PaddingStream::deserialize(&mut bytes),
        Err(ParseError::ProtocolViolation { .. })
    ));
}

#[test]
fn padding_type_is_a_five_byte_varint() {
    // 0x132B3E28 has 29 significant bits, one more than the four-byte form
    // carries, so it takes the five-byte form: prefix 0xF0, then four bytes.
    assert_eq!(PADDING_STREAM_TYPE, 0x132B3E28);
    let bytes = PaddingStream::new(2).serialize().unwrap();
    assert_eq!(bytes.as_ref(), &[0xF0, 0x13, 0x2B, 0x3E, 0x28, 0, 0]);
}

#[test]
fn padding_bytes_need_not_be_zero_to_be_discarded() {
    let mut bytes = PaddingStream::new(0).serialize().unwrap().to_vec();
    bytes.extend_from_slice(&[7, 8, 9]);
    let mut buf = Bytes::from(bytes);
    let decoded = PaddingStream::deserialize(&mut buf).unwrap();
    assert_eq!(decoded.length, 3);
    assert_eq!(buf.remaining(), 0);
}
