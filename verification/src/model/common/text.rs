//! Optional UTF-8 strings carried as a length followed by their bytes, where
//! a length of 0 stands for "no string".
use crate::buf::{bytes_as_slice, bytes_copy_to_bytes, bytes_len, bytes_view, string_from_utf8};
use crate::error::{ErrorKind, ParseError};
use crate::model::common::varint::{lemma_vi_roundtrip, push_vi, spec_get_vi, spec_vi_encode, BufVarIntExt};
use bytes::Bytes;
use vstd::prelude::*;
use vstd::string::StringSliceAdditionalSpecFns;
use vstd::utf8::{decode_utf8, encode_utf8, valid_utf8};

verus! {

broadcast use {vstd::utf8::encode_utf8_decode_utf8, vstd::utf8::encode_utf8_valid_utf8};

/// The text that a string given to a constructor is kept as: an empty string
/// is no string at all.
pub open spec fn spec_nonempty_text(s: Option<Seq<char>>) -> Option<Seq<char>> {
    match s {
        Some(c) => if c.len() == 0 {
            None
        } else {
            Some(c)
        },
        None => None,
    }
}

/// The wire form: the UTF-8 length and bytes of the string, or a length of 0.
pub open spec fn spec_opt_text_bytes(s: Option<Seq<char>>) -> Seq<u8> {
    match s {
        Some(c) => spec_vi_encode(encode_utf8(c).len() as u64) + encode_utf8(c),
        None => spec_vi_encode(0),
    }
}

/// Reading an optional string whose length may not exceed `limit`: a longer
/// one is a protocol violation, length 0 is no string, and bytes that are not
/// UTF-8 are refused.
pub open spec fn spec_read_opt_text(s: Seq<u8>, limit: nat) -> Result<(Option<Seq<char>>, Seq<u8>), ErrorKind> {
    match spec_get_vi(s) {
        Err(e) => Err(e),
        Ok((n, r)) => if n > usize::MAX {
            Err(ErrorKind::CastingError)
        } else if n > limit {
            Err(ErrorKind::ProtocolViolation)
        } else if n == 0 {
            Ok((None, r))
        } else if r.len() < n {
            Err(ErrorKind::NotEnoughBytes)
        } else if !valid_utf8(r.take(n as int)) {
            Err(ErrorKind::InvalidUTF8)
        } else {
            Ok((Some(decode_utf8(r.take(n as int))), r.skip(n as int)))
        },
    }
}

/// Keeps a string only if it is not empty.
pub fn nonempty_text(s: Option<String>) -> (r: Option<String>)
    ensures
        match r {
            Some(t) => spec_nonempty_text(match s {
                Some(u) => Some(u@),
                None => None,
            }) == Some(t@),
            None => spec_nonempty_text(match s {
                Some(u) => Some(u@),
                None => None,
            }) is None,
        },
{
    match s {
        Some(u) => if u.as_str().is_empty() {
            None
        } else {
            Some(u)
        },
        None => None,
    }
}

/// Appends the wire form of an optional string.
pub fn push_opt_text(out: &mut Vec<u8>, s: &Option<String>)
    ensures
        final(out)@ == old(out)@ + spec_opt_text_bytes(match s {
            Some(u) => Some(u@),
            None => None,
        }),
{
    match s {
        Some(u) => {
            let data = u.as_str().as_bytes();
            push_vi(out, data.len() as u64);
            out.extend_from_slice(data);
            proof {
                assert(data@ == encode_utf8(u@));
            }
        },
        None => {
            push_vi(out, 0);
        },
    }
    proof {
        assert(final(out)@ =~= old(out)@ + spec_opt_text_bytes(match s {
            Some(u) => Some(u@),
            None => None,
        }));
    }
}

/// Reads an optional string whose length may not exceed `limit`.
pub fn read_opt_text(bytes: &mut Bytes, limit: usize, context: &'static str) -> (r: Result<
    Option<String>,
    ParseError,
>)
    ensures
        match r {
            Ok(t) => spec_read_opt_text(bytes_view(*old(bytes)), limit as nat) == Ok::<
                (Option<Seq<char>>, Seq<u8>),
                ErrorKind,
            >(
                (
                    match t {
                        Some(u) => Some(u@),
                        None => None,
                    },
                    bytes_view(*final(bytes)),
                ),
            ),
            Err(e) => spec_read_opt_text(bytes_view(*old(bytes)), limit as nat) == Err::<
                (Option<Seq<char>>, Seq<u8>),
                ErrorKind,
            >(e.kind()),
        },
{
    let n = bytes.get_vi()?;
    if n > usize::MAX as u64 {
        return Err(ParseError::CastingError { context, from_type: "u64", to_type: "usize" });
    }
    let len = n as usize;
    if len > limit {
        return Err(ParseError::ProtocolViolation { context });
    }
    if len == 0 {
        return Ok(None);
    }
    let available = bytes_len(bytes);
    if available < len {
        return Err(ParseError::NotEnoughBytes { context, needed: len, available });
    }
    let raw = bytes_copy_to_bytes(bytes, len);
    let mut v: Vec<u8> = Vec::new();
    v.extend_from_slice(bytes_as_slice(&raw));
    proof {
        assert(v@ =~= bytes_view(raw));
    }
    match string_from_utf8(v) {
        Some(s) => Ok(Some(s)),
        None => Err(ParseError::InvalidUTF8 { context }),
    }
}

/// The string whose UTF-8 encoding is the bytes of `b`, or `None` when they
/// are not UTF-8.
pub fn utf8_string(b: &Bytes) -> (r: Option<String>)
    ensures
        match r {
            Some(s) => valid_utf8(bytes_view(*b)) && s@ == decode_utf8(bytes_view(*b)),
            None => !valid_utf8(bytes_view(*b)),
        },
{
    let mut v: Vec<u8> = Vec::new();
    v.extend_from_slice(bytes_as_slice(b));
    proof {
        assert(v@ =~= bytes_view(*b));
    }
    string_from_utf8(v)
}

/// The UTF-8 bytes of `s` as a buffer.
pub fn utf8_bytes(s: &String) -> (b: Bytes)
    ensures
        bytes_view(b) == encode_utf8(s@),
{
    let mut v: Vec<u8> = Vec::new();
    v.extend_from_slice(s.as_str().as_bytes());
    proof {
        assert(v@ =~= encode_utf8(s@));
    }
    crate::buf::bytes_from_vec(v)
}

/// A string written out, non-empty and no longer than `limit`, is read back,
/// leaving what follows untouched.
pub proof fn lemma_opt_text_roundtrip(s: Option<Seq<char>>, limit: nat, rest: Seq<u8>)
    requires
        s matches Some(c) ==> c.len() > 0 && encode_utf8(c).len() <= limit && encode_utf8(c).len()
            <= usize::MAX,
    ensures
        spec_read_opt_text(spec_opt_text_bytes(s) + rest, limit) == Ok::<
            (Option<Seq<char>>, Seq<u8>),
            ErrorKind,
        >((s, rest)),
{
    match s {
        Some(c) => {
            let b = encode_utf8(c);
            assert(b.len() > 0) by {
                lemma_encode_nonempty(c);
            }
            lemma_vi_roundtrip(b.len() as u64, b + rest);
            assert(spec_opt_text_bytes(s) + rest =~= spec_vi_encode(b.len() as u64) + (b + rest));
            assert((b + rest).take(b.len() as int) =~= b);
            assert((b + rest).skip(b.len() as int) =~= rest);
        },
        None => {
            lemma_vi_roundtrip(0, rest);
        },
    }
}

/// A non-empty string has a non-empty encoding.
proof fn lemma_encode_nonempty(c: Seq<char>)
    requires
        c.len() > 0,
    ensures
        encode_utf8(c).len() > 0,
{
    vstd::utf8::encode_utf8_first_scalar(c);
}

} // verus!
