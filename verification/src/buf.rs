use vstd::prelude::*;
use vstd::utf8::{encode_utf8, valid_utf8};
use bytes::{Buf, Bytes, BytesMut};

verus! {

#[verifier::external_type_specification]
#[verifier::external_body]
pub struct ExBytes(Bytes);

#[verifier::external_type_specification]
#[verifier::external_body]
pub struct ExBytesMut(BytesMut);

/// The bytes that a `Bytes` handle currently exposes.
pub uninterp spec fn bytes_view(b: Bytes) -> Seq<u8>;


/// `Buf::advance` on `Bytes`: drops the first `n` bytes of the handle.
#[verifier::external_body]
pub fn bytes_advance(b: &mut Bytes, n: usize)
    requires
        n <= bytes_view(*old(b)).len(),
    ensures
        bytes_view(*final(b)) == bytes_view(*old(b)).skip(n as int),
{
    b.advance(n)
}

/// `Deref` of `Bytes`: the slice of bytes the handle exposes.
#[verifier::external_body]
pub fn bytes_as_slice(b: &Bytes) -> (s: &[u8])
    ensures
        s@ == bytes_view(*b),
{
    b.as_ref()
}

/// The bytes written so far into a `BytesMut`.
pub uninterp spec fn bytes_mut_view(b: BytesMut) -> Seq<u8>;

/// `BytesMut::extend_from_slice`: appends a copy of `s`.
#[verifier::external_body]
pub fn bytes_mut_extend_from_slice(b: &mut BytesMut, s: &[u8])
    ensures
        bytes_mut_view(*final(b)) == bytes_mut_view(*old(b)) + s@,
{
    b.extend_from_slice(s)
}

/// `Bytes::len`: how many bytes the handle exposes.
#[verifier::external_body]
pub fn bytes_len(b: &Bytes) -> (n: usize)
    ensures
        n == bytes_view(*b).len(),
{
    b.len()
}

/// `Buf::get_u8` on `Bytes`: the first byte, which is then dropped from the handle.
#[verifier::external_body]
pub fn bytes_get_u8(b: &mut Bytes) -> (x: u8)
    requires
        bytes_view(*old(b)).len() >= 1,
    ensures
        x == bytes_view(*old(b))[0],
        bytes_view(*final(b)) == bytes_view(*old(b)).skip(1),
{
    b.get_u8()
}

/// `Buf::copy_to_bytes` on `Bytes`: splits off the first `n` bytes as a new handle.
#[verifier::external_body]
pub fn bytes_copy_to_bytes(b: &mut Bytes, n: usize) -> (r: Bytes)
    requires
        n <= bytes_view(*old(b)).len(),
    ensures
        bytes_view(r) == bytes_view(*old(b)).take(n as int),
        bytes_view(*final(b)) == bytes_view(*old(b)).skip(n as int),
{
    b.copy_to_bytes(n)
}

/// `Bytes::from(Vec<u8>)`: a handle over the vector's bytes.
#[verifier::external_body]
pub fn bytes_from_vec(v: Vec<u8>) -> (b: Bytes)
    ensures
        bytes_view(b) == v@,
{
    Bytes::from(v)
}

/// `Bytes::clone`: another handle over the same bytes.
pub assume_specification[ <bytes::Bytes as Clone>::clone ](b: &bytes::Bytes) -> (r: bytes::Bytes)
    ensures
        bytes_view(r) == bytes_view(*b),
;

/// `String::from_utf8`: the string whose UTF-8 encoding is `v`, or `None`
/// when `v` is not valid UTF-8.
#[verifier::external_body]
pub fn string_from_utf8(v: Vec<u8>) -> (r: Option<String>)
    ensures
        match r {
            Some(s) => valid_utf8(v@) && encode_utf8(s@) == v@,
            None => !valid_utf8(v@),
        },
{
    match String::from_utf8(v) {
        Ok(s) => Some(s),
        Err(_) => None,
    }
}

} // verus!
