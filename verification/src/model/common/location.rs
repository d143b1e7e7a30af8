use crate::buf::{bytes_from_vec, bytes_view};
use crate::error::{ErrorKind, ParseError};
use crate::model::common::varint::{lemma_vi_roundtrip, push_vi, spec_get_vi, spec_vi_encode, BufVarIntExt};
use bytes::Bytes;
use vstd::prelude::*;

verus! {

/// A position in a track: a group and an object within it.
#[derive(Debug, Clone, Copy, PartialEq, Eq, Hash, Structural)]
pub struct Location {
    pub group: u64,
    pub object: u64,
}

/// The wire form of a location: group then object, each a varint.
pub open spec fn spec_serialize_location(l: Location) -> Seq<u8> {
    spec_vi_encode(l.group) + spec_vi_encode(l.object)
}

/// Reading a location.
pub open spec fn spec_deserialize_location(s: Seq<u8>) -> Result<(Location, Seq<u8>), ErrorKind> {
    match spec_get_vi(s) {
        Err(e) => Err(e),
        Ok((g, r)) => match spec_get_vi(r) {
            Err(e) => Err(e),
            Ok((o, r2)) => Ok((Location { group: g, object: o }, r2)),
        },
    }
}

/// A serialized location is read back, leaving what follows untouched.
pub proof fn lemma_location_roundtrip(l: Location, rest: Seq<u8>)
    ensures
        spec_deserialize_location(spec_serialize_location(l) + rest) == Ok::<
            (Location, Seq<u8>),
            ErrorKind,
        >((l, rest)),
{
    lemma_vi_roundtrip(l.group, spec_vi_encode(l.object) + rest);
    lemma_vi_roundtrip(l.object, rest);
    assert(spec_serialize_location(l) + rest =~= spec_vi_encode(l.group) + (spec_vi_encode(l.object)
        + rest));
}

impl Location {
    pub fn new(group: u64, object: u64) -> (l: Self)
        ensures
            l == (Location { group, object }),
    {
        Location { group, object }
    }

    /// Appends the wire form of this location.
    pub fn push_serialized(&self, out: &mut Vec<u8>)
        ensures
            final(out)@ == old(out)@ + spec_serialize_location(*self),
    {
        let ghost start = out@;
        push_vi(out, self.group);
        push_vi(out, self.object);
        proof {
            assert(final(out)@ =~= start + spec_serialize_location(*self));
        }
    }

    pub fn serialize(&self) -> (r: Result<Bytes, ParseError>)
        ensures
            r matches Ok(b) && bytes_view(b) == spec_serialize_location(*self),
    {
        let mut out: Vec<u8> = Vec::new();
        self.push_serialized(&mut out);
        proof {
            assert(out@ =~= spec_serialize_location(*self));
        }
        Ok(bytes_from_vec(out))
    }

    pub fn deserialize(bytes: &mut Bytes) -> (r: Result<Self, ParseError>)
        ensures
            match r {
                Ok(l) => spec_deserialize_location(bytes_view(*old(bytes))) == Ok::<
                    (Location, Seq<u8>),
                    ErrorKind,
                >((l, bytes_view(*final(bytes)))),
                Err(e) => spec_deserialize_location(bytes_view(*old(bytes))) == Err::<
                    (Location, Seq<u8>),
                    ErrorKind,
                >(e.kind()),
            },
    {
        let group = bytes.get_vi()?;
        let object = bytes.get_vi()?;
        Ok(Location { group, object })
    }
}

} // verus!
