//! Padding streams and datagrams: a type followed by zero bytes that carry
//! no application data.
use crate::buf::{bytes_advance, bytes_from_vec, bytes_len, bytes_view};
use crate::error::{ErrorKind, ParseError};
use crate::model::common::varint::{lemma_vi_roundtrip, push_vi, spec_get_vi, spec_vi_encode, BufVarIntExt};
use bytes::Bytes;
use vstd::prelude::*;

verus! {

/// Stream type for a padding stream.
pub const PADDING_STREAM_TYPE: u64 = 0x132B3E28;

/// Datagram type for a padding datagram.
pub const PADDING_DATAGRAM_TYPE: u64 = 0x132B3E29;

/// `n` zero bytes.
pub open spec fn zeros(n: nat) -> Seq<u8> {
    Seq::new(n, |i: int| 0u8)
}

/// The wire form of padding of type `t`: the type, then `length` zero bytes.
pub open spec fn spec_serialize_padding(t: u64, length: usize) -> Seq<u8> {
    spec_vi_encode(t) + zeros(length as nat)
}

/// Reading padding of type `t`: any other type is a protocol violation, and
/// every byte after the type is padding, whatever its value.
pub open spec fn spec_deserialize_padding(t: u64, s: Seq<u8>) -> Result<(usize, Seq<u8>), ErrorKind> {
    match spec_get_vi(s) {
        Err(e) => Err(e),
        Ok((v, r)) => if v != t {
            Err(ErrorKind::ProtocolViolation)
        } else {
            Ok((r.len() as usize, Seq::empty()))
        },
    }
}

/// Padding of any length written as type `t` reads back as that length,
/// with nothing left over.
pub proof fn lemma_padding_roundtrip(t: u64, length: usize)
    ensures
        spec_deserialize_padding(t, spec_serialize_padding(t, length)) == Ok::<(usize, Seq<u8>), ErrorKind>(
            (length, Seq::empty()),
        ),
{
    lemma_vi_roundtrip(t, zeros(length as nat));
}

fn serialize_padding(t: u64, length: usize) -> (b: Bytes)
    ensures
        bytes_view(b) == spec_serialize_padding(t, length),
{
    let mut out: Vec<u8> = Vec::new();
    push_vi(&mut out, t);
    let ghost head = out@;
    let mut i: usize = 0;
    while i < length
        invariant
            i <= length,
            out@ == head + zeros(i as nat),
        decreases length - i,
    {
        out.push(0u8);
        i = i + 1;
        proof {
            assert(out@ =~= head + zeros(i as nat));
        }
    }
    bytes_from_vec(out)
}

fn deserialize_padding(bytes: &mut Bytes, t: u64, context: &'static str) -> (r: Result<usize, ParseError>)
    ensures
        match r {
            Ok(n) => spec_deserialize_padding(t, bytes_view(*old(bytes))) == Ok::<
                (usize, Seq<u8>),
                ErrorKind,
            >((n, bytes_view(*final(bytes)))),
            Err(e) => spec_deserialize_padding(t, bytes_view(*old(bytes))) == Err::<
                (usize, Seq<u8>),
                ErrorKind,
            >(e.kind()),
        },
{
    let type_value = bytes.get_vi()?;
    if type_value != t {
        return Err(ParseError::ProtocolViolation { context });
    }
    let length = bytes_len(bytes);
    bytes_advance(bytes, length);
    proof {
        assert(bytes_view(*bytes) =~= Seq::<u8>::empty());
    }
    Ok(length)
}

/// A padding stream: the padding stream type followed by `length` zero bytes.
/// It carries no application data; the receiver MUST discard the contents.
#[derive(Debug, Clone, PartialEq, Eq, Structural)]
pub struct PaddingStream {
    pub length: usize,
}

impl PaddingStream {
    pub fn new(length: usize) -> (p: Self)
        ensures
            p.length == length,
    {
        Self { length }
    }

    /// The padding stream type, then `length` zero bytes; never fails.
    pub fn serialize(&self) -> (r: Result<Bytes, ParseError>)
        ensures
            r matches Ok(b) && bytes_view(b) == spec_serialize_padding(PADDING_STREAM_TYPE, self.length),
    {
        Ok(serialize_padding(PADDING_STREAM_TYPE, self.length))
    }

    /// Reads the leading type then consumes (discards) the remaining padding bytes.
    pub fn deserialize(bytes: &mut Bytes) -> (r: Result<Self, ParseError>)
        ensures
            match r {
                Ok(p) => spec_deserialize_padding(PADDING_STREAM_TYPE, bytes_view(*old(bytes))) == Ok::<
                    (usize, Seq<u8>),
                    ErrorKind,
                >((p.length, bytes_view(*final(bytes)))),
                Err(e) => spec_deserialize_padding(PADDING_STREAM_TYPE, bytes_view(*old(bytes))) == Err::<
                    (usize, Seq<u8>),
                    ErrorKind,
                >(e.kind()),
            },
    {
        let length = deserialize_padding(bytes, PADDING_STREAM_TYPE, "PaddingStream::deserialize: not the padding stream type")?;
        Ok(Self { length })
    }
}

/// A padding datagram: the padding datagram type followed by `length` zero
/// bytes. It carries no application data; the receiver MUST discard it.
#[derive(Debug, Clone, PartialEq, Eq, Structural)]
pub struct PaddingDatagram {
    pub length: usize,
}

impl PaddingDatagram {
    pub fn new(length: usize) -> (p: Self)
        ensures
            p.length == length,
    {
        Self { length }
    }

    /// The padding datagram type, then `length` zero bytes; never fails.
    pub fn serialize(&self) -> (r: Result<Bytes, ParseError>)
        ensures
            r matches Ok(b) && bytes_view(b) == spec_serialize_padding(PADDING_DATAGRAM_TYPE, self.length),
    {
        Ok(serialize_padding(PADDING_DATAGRAM_TYPE, self.length))
    }

    /// Reads the leading type then consumes (discards) the remaining padding bytes.
    pub fn deserialize(bytes: &mut Bytes) -> (r: Result<Self, ParseError>)
        ensures
            match r {
                Ok(p) => spec_deserialize_padding(PADDING_DATAGRAM_TYPE, bytes_view(*old(bytes))) == Ok::<
                    (usize, Seq<u8>),
                    ErrorKind,
                >((p.length, bytes_view(*final(bytes)))),
                Err(e) => spec_deserialize_padding(PADDING_DATAGRAM_TYPE, bytes_view(*old(bytes))) == Err::<
                    (usize, Seq<u8>),
                    ErrorKind,
                >(e.kind()),
            },
    {
        let length = deserialize_padding(bytes, PADDING_DATAGRAM_TYPE, "PaddingDatagram::deserialize: not the padding datagram type")?;
        Ok(Self { length })
    }
}

} // verus!
