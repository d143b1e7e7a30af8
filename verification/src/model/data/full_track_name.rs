use crate::buf::{bytes_as_slice, bytes_copy_to_bytes, bytes_from_vec, bytes_len, bytes_view};
use crate::error::{ErrorKind, ParseError};
use crate::model::common::tuple::{
    fields_fit, lemma_tuple_roundtrip, spec_path_segments, spec_deserialize_tuple, spec_serialize_tuple, Tuple,
    TupleField,
};
use crate::model::common::varint::{lemma_vi_roundtrip, push_vi, spec_get_vi, spec_vi_encode, BufVarIntExt};
use bytes::Bytes;
use vstd::prelude::*;
use vstd::string::StringSliceAdditionalSpecFns;

verus! {

pub const MAX_NAMESPACE_TUPLE_COUNT: usize = 32;

pub const MAX_FULL_TRACK_NAME_LENGTH: usize = 4096;

/// A track's namespace and name.
#[derive(Debug, Clone, PartialEq, Eq, Hash)]
pub struct FullTrackName {
    pub namespace: Tuple,
    pub name: TupleField,
}

impl View for FullTrackName {
    type V = (Seq<Seq<u8>>, Seq<u8>);

    open spec fn view(&self) -> (Seq<Seq<u8>>, Seq<u8>) {
        (self.namespace@, self.name@)
    }
}

/// What makes a namespace and name unacceptable as a full track name: an
/// empty namespace or one of more than 32 fields, or a serialized namespace
/// plus name longer than 4096 bytes.
pub open spec fn spec_track_name_invalid(namespace: Seq<Seq<u8>>, name: Seq<u8>) -> bool {
    ||| namespace.len() == 0
    ||| namespace.len() > MAX_NAMESPACE_TUPLE_COUNT
    ||| spec_serialize_tuple(namespace).len() + name.len() > MAX_FULL_TRACK_NAME_LENGTH
}

/// The wire form of a full track name: the namespace tuple, then the name's
/// length and bytes.
pub open spec fn spec_serialize_full_track_name(f: (Seq<Seq<u8>>, Seq<u8>)) -> Seq<u8> {
    spec_serialize_tuple(f.0) + spec_vi_encode(f.1.len() as u64) + f.1
}

/// Reading a full track name.
pub open spec fn spec_deserialize_full_track_name(s: Seq<u8>) -> Result<
    ((Seq<Seq<u8>>, Seq<u8>), Seq<u8>),
    ErrorKind,
> {
    match spec_deserialize_tuple(s) {
        Err(e) => Err(e),
        Ok((ns, r)) => if ns.len() == 0 || ns.len() > MAX_NAMESPACE_TUPLE_COUNT {
            Err(ErrorKind::TrackNameError)
        } else {
            match spec_get_vi(r) {
                Err(e) => Err(e),
                Ok((l, r2)) => {
                    let n = l as usize;
                    if r2.len() < n {
                        Err(ErrorKind::NotEnoughBytes)
                    } else if spec_serialize_tuple(ns).len() + n > MAX_FULL_TRACK_NAME_LENGTH {
                        Err(ErrorKind::TrackNameError)
                    } else {
                        Ok(((ns, r2.take(n as int)), r2.skip(n as int)))
                    }
                },
            }
        },
    }
}

/// A valid full track name is read back from its wire form, leaving what
/// follows untouched.
#[verifier::spinoff_prover]
#[verifier::rlimit(40)]
pub proof fn lemma_full_track_name_roundtrip(f: (Seq<Seq<u8>>, Seq<u8>), rest: Seq<u8>)
    requires
        !spec_track_name_invalid(f.0, f.1),
        fields_fit(f.0),
    ensures
        spec_deserialize_full_track_name(spec_serialize_full_track_name(f) + rest) == Ok::<
            ((Seq<Seq<u8>>, Seq<u8>), Seq<u8>),
            ErrorKind,
        >((f, rest)),
{
    let name = f.1;
    let tail = spec_vi_encode(name.len() as u64) + name + rest;
    lemma_tuple_roundtrip(f.0, tail);
    assert(spec_serialize_full_track_name(f) + rest =~= spec_serialize_tuple(f.0) + tail);
    lemma_vi_roundtrip(name.len() as u64, name + rest);
    assert(tail =~= spec_vi_encode(name.len() as u64) + (name + rest));
    assert((name + rest).take(name.len() as int) =~= name);
    assert((name + rest).skip(name.len() as int) =~= rest);
    assert(spec_deserialize_tuple(spec_serialize_full_track_name(f) + rest) == Ok::<
        (Seq<Seq<u8>>, Seq<u8>),
        ErrorKind,
    >((f.0, tail)));
    assert(spec_get_vi(tail) == Ok::<(u64, Seq<u8>), ErrorKind>((name.len() as u64, name + rest)));
    assert((name.len() as u64) as usize == name.len());
}

impl FullTrackName {
    /// Validates and builds a full track name.
    pub fn new(namespace: Tuple, name: TupleField) -> (r: Result<Self, ParseError>)
        ensures
            match r {
                Ok(f) => !spec_track_name_invalid(namespace@, name@) && f@ == (namespace@, name@),
                Err(e) => spec_track_name_invalid(namespace@, name@) && e.kind()
                    == ErrorKind::TrackNameError,
            },
    {
        let ns_count = namespace.fields.len();
        if ns_count == 0 || ns_count > MAX_NAMESPACE_TUPLE_COUNT {
            return Err(ParseError::TrackNameError { context: "FullTrackName::new(ns_count)" });
        }
        let ns_len = Self::namespace_length(&namespace)?;
        let name_len = name.len();
        if ns_len > MAX_FULL_TRACK_NAME_LENGTH || name_len > MAX_FULL_TRACK_NAME_LENGTH - ns_len {
            return Err(ParseError::TrackNameError { context: "FullTrackName::new(total_length)" });
        }
        Ok(FullTrackName { namespace, name })
    }

    /// The length of the serialized namespace tuple.
    fn namespace_length(namespace: &Tuple) -> (r: Result<usize, ParseError>)
        ensures
            r matches Ok(n) && n == spec_serialize_tuple(namespace@).len(),
    {
        let b = namespace.serialize()?;
        Ok(bytes_len(&b))
    }

    /// A full track name from a `/`-separated namespace path and a name.
    pub fn try_new(namespace: &str, name: &str) -> (r: Result<Self, ParseError>)
        ensures
            ({
                let ns = spec_path_segments(namespace.spec_bytes(), Seq::empty());
                match r {
                    Ok(f) => !spec_track_name_invalid(ns, name.spec_bytes()) && f@ == (
                        ns,
                        name.spec_bytes(),
                    ),
                    Err(e) => spec_track_name_invalid(ns, name.spec_bytes()) && e.kind()
                        == ErrorKind::TrackNameError,
                }
            }),
    {
        let namespace_bytes = Tuple::from_utf8_path(namespace);
        let name_bytes = TupleField::from_utf8(name);
        Self::new(namespace_bytes, name_bytes)
    }

    /// Appends the wire form of this full track name.
    pub fn push_serialized(&self, out: &mut Vec<u8>)
        ensures
            final(out)@ == old(out)@ + spec_serialize_full_track_name(self@),
    {
        let ghost start = out@;
        self.namespace.push_serialized(out);
        let data = bytes_as_slice(&self.name.value);
        push_vi(out, data.len() as u64);
        out.extend_from_slice(data);
        proof {
            assert(final(out)@ =~= start + spec_serialize_full_track_name(self@));
        }
    }

    pub fn serialize(&self) -> (r: Result<Bytes, ParseError>)
        ensures
            r matches Ok(b) && bytes_view(b) == spec_serialize_full_track_name(self@),
    {
        let mut out: Vec<u8> = Vec::new();
        self.push_serialized(&mut out);
        proof {
            assert(out@ =~= spec_serialize_full_track_name(self@));
        }
        Ok(bytes_from_vec(out))
    }

    pub fn deserialize(buf: &mut Bytes) -> (r: Result<Self, ParseError>)
        ensures
            match r {
                Ok(f) => spec_deserialize_full_track_name(bytes_view(*old(buf))) == Ok::<
                    ((Seq<Seq<u8>>, Seq<u8>), Seq<u8>),
                    ErrorKind,
                >((f@, bytes_view(*final(buf)))),
                Err(e) => spec_deserialize_full_track_name(bytes_view(*old(buf))) == Err::<
                    ((Seq<Seq<u8>>, Seq<u8>), Seq<u8>),
                    ErrorKind,
                >(e.kind()),
            },
    {
        let namespace = Tuple::deserialize(buf)?;
        let ns_count = namespace.fields.len();
        if ns_count == 0 || ns_count > MAX_NAMESPACE_TUPLE_COUNT {
            return Err(ParseError::TrackNameError { context: "FullTrackName::deserialize(ns_count)" });
        }
        let name_len = #[verifier::truncate] (buf.get_vi()? as usize);
        let available = bytes_len(buf);
        if available < name_len {
            return Err(
                ParseError::NotEnoughBytes {
                    context: "FullTrackName::deserialize(name_length)",
                    needed: name_len,
                    available,
                },
            );
        }
        let name = bytes_copy_to_bytes(buf, name_len);
        let ns_len = Self::namespace_length(&namespace)?;
        if ns_len > MAX_FULL_TRACK_NAME_LENGTH || name_len > MAX_FULL_TRACK_NAME_LENGTH - ns_len {
            return Err(
                ParseError::TrackNameError { context: "FullTrackName::deserialize(total_length)" },
            );
        }
        Ok(FullTrackName { namespace, name: TupleField::new(name) })
    }

    /// A full track name holding the same namespace and name.
    pub fn duplicate(&self) -> (r: FullTrackName)
        ensures
            r@ == self@,
    {
        FullTrackName { namespace: self.namespace.duplicate(), name: self.name.duplicate() }
    }

    /// Whether both names hold the same namespace fields and name bytes.
    pub fn same_name(&self, other: &FullTrackName) -> (r: bool)
        ensures
            r == (self@ == other@),
    {
        self.namespace.same_fields(&other.namespace) && self.name.same_bytes(&other.name)
    }
}

} // verus!
