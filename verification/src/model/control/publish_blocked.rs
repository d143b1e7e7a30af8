//! PUBLISH_BLOCKED: a publisher cannot start a subscription it was asked for
//! because the peer's stream limit blocks it.
use crate::buf::bytes_view;
use crate::error::{ErrorKind, ParseError};
use crate::model::common::tuple::{
    deserialize_field, fields_fit, lemma_field_roundtrip, lemma_tuple_roundtrip, spec_deserialize_field,
    spec_deserialize_tuple, spec_field_bytes, spec_serialize_tuple, Tuple, TupleField,
};
use crate::model::control::constant::ControlMessageType;
use crate::model::control::control_message::{frame, spec_frame, ControlMessageTrait};
use bytes::Bytes;
use vstd::prelude::*;

verus! {

/// PUBLISH_BLOCKED (0xF): a publisher tells the peer it cannot send a PUBLISH to
/// start a subscription for a track under a SUBSCRIBE_TRACKS namespace because it
/// is blocked by the peer's bidirectional stream limit. Since it always answers a
/// SUBSCRIBE_TRACKS, only the namespace suffix after the prefix is carried.
#[derive(Debug, PartialEq, Clone)]
pub struct PublishBlocked {
    pub track_namespace_suffix: Tuple,
    pub track_name: TupleField,
}

/// What a PUBLISH_BLOCKED holds.
pub struct PublishBlockedView {
    pub track_namespace_suffix: Seq<Seq<u8>>,
    pub track_name: Seq<u8>,
}

impl View for PublishBlocked {
    type V = PublishBlockedView;

    open spec fn view(&self) -> PublishBlockedView {
        PublishBlockedView { track_namespace_suffix: self.track_namespace_suffix@, track_name: self.track_name@ }
    }
}

/// The payload: the namespace suffix, then the track name.
pub open spec fn spec_publish_blocked_payload(m: PublishBlockedView) -> Seq<u8> {
    spec_serialize_tuple(m.track_namespace_suffix) + spec_field_bytes(m.track_name)
}

/// Reading the payload.
pub open spec fn spec_parse_publish_blocked(s: Seq<u8>) -> Result<(PublishBlockedView, Seq<u8>), ErrorKind> {
    match spec_deserialize_tuple(s) {
        Err(e) => Err(e),
        Ok((ns, r)) => match spec_deserialize_field(r) {
            Err(e) => Err(e),
            Ok((name, r2)) => Ok((PublishBlockedView { track_namespace_suffix: ns, track_name: name }, r2)),
        },
    }
}

impl PublishBlocked {
    pub fn new(track_namespace_suffix: Tuple, track_name: TupleField) -> (m: Self)
        ensures
            m.track_namespace_suffix == track_namespace_suffix,
            m.track_name == track_name,
    {
        Self { track_namespace_suffix, track_name }
    }
}

impl ControlMessageTrait for PublishBlocked {
    fn serialize(&self) -> (r: Result<Bytes, ParseError>)
        ensures
            match r {
                Ok(b) => spec_frame(ControlMessageType::PublishBlocked, spec_publish_blocked_payload(self@))
                    == Ok::<Seq<u8>, ErrorKind>(bytes_view(b)),
                Err(e) => spec_frame(ControlMessageType::PublishBlocked, spec_publish_blocked_payload(self@))
                    == Err::<Seq<u8>, ErrorKind>(e.kind()),
            },
    {
        let mut payload: Vec<u8> = Vec::new();
        self.track_namespace_suffix.push_serialized(&mut payload);
        self.track_name.push_serialized(&mut payload);
        proof {
            assert(payload@ =~= spec_publish_blocked_payload(self@));
        }
        frame(ControlMessageType::PublishBlocked, payload.as_slice(), "PublishBlocked::serialize(payload_length)")
    }

    fn parse_payload(payload: &mut Bytes) -> (r: Result<Box<Self>, ParseError>)
        ensures
            match r {
                Ok(m) => spec_parse_publish_blocked(bytes_view(*old(payload))) == Ok::<
                    (PublishBlockedView, Seq<u8>),
                    ErrorKind,
                >((m@, bytes_view(*final(payload)))),
                Err(e) => spec_parse_publish_blocked(bytes_view(*old(payload))) == Err::<
                    (PublishBlockedView, Seq<u8>),
                    ErrorKind,
                >(e.kind()),
            },
    {
        let track_namespace_suffix = Tuple::deserialize(payload)?;
        let track_name = deserialize_field(payload)?;
        Ok(Box::new(PublishBlocked { track_namespace_suffix, track_name }))
    }

    fn get_type(&self) -> (t: ControlMessageType)
        ensures
            t == ControlMessageType::PublishBlocked,
    {
        ControlMessageType::PublishBlocked
    }
}

/// A PUBLISH_BLOCKED reads back from its payload, leaving what follows.
pub proof fn lemma_publish_blocked_roundtrip(m: PublishBlockedView, rest: Seq<u8>)
    requires
        fields_fit(m.track_namespace_suffix),
        m.track_namespace_suffix.len() <= u64::MAX,
        m.track_name.len() <= usize::MAX,
    ensures
        spec_parse_publish_blocked(spec_publish_blocked_payload(m) + rest) == Ok::<
            (PublishBlockedView, Seq<u8>),
            ErrorKind,
        >((m, rest)),
{
    let tail = spec_field_bytes(m.track_name) + rest;
    lemma_tuple_roundtrip(m.track_namespace_suffix, tail);
    lemma_field_roundtrip(m.track_name, rest);
    assert(spec_publish_blocked_payload(m) + rest =~= spec_serialize_tuple(m.track_namespace_suffix) + tail);
}

} // verus!
