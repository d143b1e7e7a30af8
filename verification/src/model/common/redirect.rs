//! Where to retry a request that was redirected.
use crate::buf::{bytes_from_vec, bytes_view};
use crate::error::{ErrorKind, ParseError};
use crate::model::common::text::{
    lemma_opt_text_roundtrip, nonempty_text, push_opt_text, read_opt_text, spec_nonempty_text,
    spec_opt_text_bytes, spec_read_opt_text,
};
use crate::model::common::tuple::{
    deserialize_field, fields_fit, lemma_field_roundtrip, lemma_tuple_roundtrip, spec_deserialize_field,
    spec_deserialize_tuple, spec_field_bytes, spec_serialize_tuple, Tuple, TupleField,
};
use bytes::Bytes;
use vstd::prelude::*;
use vstd::utf8::encode_utf8;

verus! {

/// Directs the peer to retry a request at a different URI and/or Full Track Name.
/// Carried by a REQUEST_ERROR whose code is REDIRECT.
#[derive(Debug, PartialEq, Clone)]
pub struct Redirect {
    /// The URI to connect to. Empty means reuse the current session's URI.
    pub connect_uri: Option<String>,
    /// Track Namespace for the redirected request; empty (with an empty name)
    /// means reuse the original request's values.
    pub track_namespace: Tuple,
    /// Track Name for the redirected request; empty for namespace-scoped requests.
    pub track_name: TupleField,
}

/// What a redirect holds.
pub struct RedirectView {
    pub connect_uri: Option<Seq<char>>,
    pub track_namespace: Seq<Seq<u8>>,
    pub track_name: Seq<u8>,
}

impl View for Redirect {
    type V = RedirectView;

    open spec fn view(&self) -> RedirectView {
        RedirectView {
            connect_uri: match self.connect_uri {
                Some(u) => Some(u@),
                None => None,
            },
            track_namespace: self.track_namespace@,
            track_name: self.track_name@,
        }
    }
}

/// The wire form: the URI, the namespace, then the name.
pub open spec fn spec_serialize_redirect(r: RedirectView) -> Seq<u8> {
    spec_opt_text_bytes(r.connect_uri) + spec_serialize_tuple(r.track_namespace) + spec_field_bytes(r.track_name)
}

/// Reading a redirect; the URI has no length limit of its own.
pub open spec fn spec_deserialize_redirect(s: Seq<u8>) -> Result<(RedirectView, Seq<u8>), ErrorKind> {
    match spec_read_opt_text(s, usize::MAX as nat) {
        Err(e) => Err(e),
        Ok((uri, s1)) => match spec_deserialize_tuple(s1) {
            Err(e) => Err(e),
            Ok((ns, s2)) => match spec_deserialize_field(s2) {
                Err(e) => Err(e),
                Ok((name, s3)) => Ok((RedirectView { connect_uri: uri, track_namespace: ns, track_name: name }, s3)),
            },
        },
    }
}

impl Redirect {
    /// An empty URI is kept as none: the current one is reused.
    pub fn new(connect_uri: Option<String>, track_namespace: Tuple, track_name: TupleField) -> (r: Self)
        ensures
            r@ == (RedirectView {
                connect_uri: spec_nonempty_text(match connect_uri {
                    Some(u) => Some(u@),
                    None => None,
                }),
                track_namespace: track_namespace@,
                track_name: track_name@,
            }),
    {
        let connect_uri = nonempty_text(connect_uri);
        Self { connect_uri, track_namespace, track_name }
    }

    pub fn serialize(&self) -> (r: Result<Bytes, ParseError>)
        ensures
            r matches Ok(b) && bytes_view(b) == spec_serialize_redirect(self@),
    {
        let mut out: Vec<u8> = Vec::new();
        push_opt_text(&mut out, &self.connect_uri);
        self.track_namespace.push_serialized(&mut out);
        self.track_name.push_serialized(&mut out);
        proof {
            assert(out@ =~= spec_serialize_redirect(self@));
        }
        Ok(bytes_from_vec(out))
    }

    pub fn deserialize(payload: &mut Bytes) -> (r: Result<Self, ParseError>)
        ensures
            match r {
                Ok(x) => spec_deserialize_redirect(bytes_view(*old(payload))) == Ok::<(RedirectView, Seq<u8>), ErrorKind>(
                    (x@, bytes_view(*final(payload))),
                ),
                Err(e) => spec_deserialize_redirect(bytes_view(*old(payload))) == Err::<
                    (RedirectView, Seq<u8>),
                    ErrorKind,
                >(e.kind()),
            },
    {
        let connect_uri = read_opt_text(payload, usize::MAX, "Redirect::deserialize(connect_uri)")?;
        let track_namespace = Tuple::deserialize(payload)?;
        let track_name = deserialize_field(payload)?;
        Ok(Self { connect_uri, track_namespace, track_name })
    }
}

/// A redirect whose URI, if any, is non-empty reads back whole, leaving what follows.
pub proof fn lemma_redirect_roundtrip(r: RedirectView, rest: Seq<u8>)
    requires
        r.connect_uri matches Some(c) ==> c.len() > 0 && encode_utf8(c).len() <= usize::MAX,
        fields_fit(r.track_namespace),
        r.track_namespace.len() <= u64::MAX,
        r.track_name.len() <= usize::MAX,
    ensures
        spec_deserialize_redirect(spec_serialize_redirect(r) + rest) == Ok::<(RedirectView, Seq<u8>), ErrorKind>(
            (r, rest),
        ),
{
    let s2 = spec_field_bytes(r.track_name) + rest;
    let s1 = spec_serialize_tuple(r.track_namespace) + s2;
    lemma_field_roundtrip(r.track_name, rest);
    lemma_tuple_roundtrip(r.track_namespace, s2);
    lemma_opt_text_roundtrip(r.connect_uri, usize::MAX as nat, s1);
    assert(spec_serialize_redirect(r) + rest =~= spec_opt_text_bytes(r.connect_uri) + s1);
}

} // verus!
