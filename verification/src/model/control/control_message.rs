//! What every control message shares: how it is framed on the control stream,
//! and the operations each message type offers.
use crate::buf::{bytes_from_vec, bytes_get_u8, bytes_len, bytes_view};
use crate::error::{ErrorKind, ParseError};
use crate::model::common::varint::{lemma_vi_roundtrip, push_vi, spec_get_vi, spec_vi_encode};
use crate::model::control::constant::ControlMessageType;
use bytes::Bytes;
use vstd::prelude::*;

verus! {

/// A payload length as written: a big-endian 16-bit integer.
pub open spec fn spec_u16_be(n: nat) -> Seq<u8> {
    seq![(n / 256) as u8, (n % 256) as u8]
}

/// The wire form of a control message: its type, its payload's length as a
/// big-endian 16-bit integer, then the payload. A payload longer than 0xFFFF
/// bytes cannot be framed.
pub open spec fn spec_frame(msg_type: ControlMessageType, payload: Seq<u8>) -> Result<Seq<u8>, ErrorKind> {
    if payload.len() > 0xFFFF {
        Err(ErrorKind::CastingError)
    } else {
        Ok(spec_vi_encode(msg_type.spec_value()) + spec_u16_be(payload.len()) + payload)
    }
}

/// A message whose payload may fail to be written: that failure, or else the framed payload.
pub open spec fn spec_framed(msg_type: ControlMessageType, payload: Result<Seq<u8>, ErrorKind>) -> Result<
    Seq<u8>,
    ErrorKind,
> {
    match payload {
        Err(e) => Err(e),
        Ok(p) => spec_frame(msg_type, p),
    }
}

/// Reading a framed control message from the front of `s`: its type code,
/// its payload (as many bytes as the 16-bit length says), and what follows.
pub open spec fn spec_read_frame(s: Seq<u8>) -> Result<(u64, Seq<u8>, Seq<u8>), ErrorKind> {
    match spec_get_vi(s) {
        Err(e) => Err(e),
        Ok((t, r)) => if r.len() < 2 {
            Err(ErrorKind::NotEnoughBytes)
        } else {
            let n = r[0] as nat * 256 + r[1] as nat;
            let r2 = r.skip(2);
            if r2.len() < n {
                Err(ErrorKind::NotEnoughBytes)
            } else {
                Ok((t, r2.take(n as int), r2.skip(n as int)))
            }
        },
    }
}

/// A framed message reads back as its type code and its payload, leaving
/// what follows untouched.
pub proof fn lemma_frame_roundtrip(msg_type: ControlMessageType, payload: Seq<u8>, rest: Seq<u8>)
    requires
        payload.len() <= 0xFFFF,
    ensures
        spec_frame(msg_type, payload) is Ok,
        spec_read_frame(spec_frame(msg_type, payload)->Ok_0 + rest) == Ok::<
            (u64, Seq<u8>, Seq<u8>),
            ErrorKind,
        >((msg_type.spec_value(), payload, rest)),
{
    let len = spec_u16_be(payload.len());
    let tail = len + payload + rest;
    assert(spec_frame(msg_type, payload)->Ok_0 + rest =~= spec_vi_encode(msg_type.spec_value()) + tail);
    lemma_vi_roundtrip(msg_type.spec_value(), tail);
    let n = payload.len();
    assert(tail[0] as nat * 256 + tail[1] as nat == n) by (nonlinear_arith)
        requires
            tail[0] == (n / 256) as u8,
            tail[1] == (n % 256) as u8,
            n <= 0xFFFF,
    {
    }
    assert(tail.skip(2) =~= payload + rest);
    assert((payload + rest).take(n as int) =~= payload);
    assert((payload + rest).skip(n as int) =~= rest);
}

/// Frames a payload as a control message of the given type.
pub fn frame(msg_type: ControlMessageType, payload: &[u8], context: &'static str) -> (r: Result<
    Bytes,
    ParseError,
>)
    ensures
        match r {
            Ok(b) => spec_frame(msg_type, payload@) == Ok::<Seq<u8>, ErrorKind>(bytes_view(b)),
            Err(e) => spec_frame(msg_type, payload@) == Err::<Seq<u8>, ErrorKind>(e.kind()),
        },
{
    if payload.len() > 0xFFFF {
        return Err(ParseError::CastingError { context, from_type: "usize", to_type: "u16" });
    }
    let mut out: Vec<u8> = Vec::new();
    push_vi(&mut out, msg_type.value());
    let n = payload.len();
    out.push((n / 256) as u8);
    out.push((n % 256) as u8);
    out.extend_from_slice(payload);
    proof {
        assert(out@ =~= spec_frame(msg_type, payload@)->Ok_0);
    }
    Ok(bytes_from_vec(out))
}

/// Reading one byte.
pub open spec fn spec_read_u8(s: Seq<u8>) -> Result<(u8, Seq<u8>), ErrorKind> {
    if s.len() < 1 {
        Err(ErrorKind::NotEnoughBytes)
    } else {
        Ok((s[0], s.skip(1)))
    }
}

/// Reads one byte; with none left, that is an error rather than a panic.
pub fn read_u8(bytes: &mut Bytes, context: &'static str) -> (r: Result<u8, ParseError>)
    ensures
        match r {
            Ok(v) => spec_read_u8(bytes_view(*old(bytes))) == Ok::<(u8, Seq<u8>), ErrorKind>(
                (v, bytes_view(*final(bytes))),
            ),
            Err(e) => spec_read_u8(bytes_view(*old(bytes))) == Err::<(u8, Seq<u8>), ErrorKind>(e.kind()),
        },
{
    if bytes_len(bytes) < 1 {
        return Err(ParseError::NotEnoughBytes { context, needed: 1, available: 0 });
    }
    Ok(bytes_get_u8(bytes))
}

/// The operations of a control message: writing it framed, reading its
/// payload, and naming its type. Each message states what they do.
pub trait ControlMessageTrait: Sized {
    fn serialize(&self) -> Result<Bytes, ParseError>;

    fn parse_payload(payload: &mut Bytes) -> Result<Box<Self>, ParseError>;

    fn get_type(&self) -> ControlMessageType;
}

} // verus!
