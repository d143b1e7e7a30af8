//! SUBSCRIBE_TRACKS: subscribe to every track under a namespace prefix,
//! present and future.
use crate::buf::bytes_view;
use crate::error::{ErrorKind, ParseError};
use crate::model::common::tuple::{fields_fit, lemma_tuple_roundtrip, spec_deserialize_tuple, spec_serialize_tuple, Tuple};
use crate::model::common::varint::{lemma_vi_roundtrip, push_vi, spec_get_vi, spec_vi_encode, BufVarIntExt};
use crate::model::control::constant::ControlMessageType;
use crate::model::control::control_message::{frame, spec_framed, ControlMessageTrait};
use crate::model::parameter::message_parameter::{
    lemma_param_block_roundtrip, params_fit, params_view, push_param_block, read_param_block,
    spec_param_block, spec_read_param_block, MessageParameter, MessageParameterView,
};
use bytes::Bytes;
use vstd::prelude::*;

verus! {

/// The most fields a namespace prefix may have.
pub const MAX_PREFIX_FIELDS: usize = 32;

/// SUBSCRIBE_TRACKS subscribes to every track under a namespace prefix,
/// present and future. It shares SUBSCRIBE_NAMESPACE's wire shape but has an
/// independent prefix-overlap space.
#[derive(Debug, PartialEq, Clone)]
pub struct SubscribeTracks {
    pub request_id: u64,
    pub track_namespace_prefix: Tuple,
    pub parameters: Vec<MessageParameter>,
}

/// What a SUBSCRIBE_TRACKS holds.
pub struct SubscribeTracksView {
    pub request_id: u64,
    pub track_namespace_prefix: Seq<Seq<u8>>,
    pub parameters: Seq<MessageParameterView>,
}

impl View for SubscribeTracks {
    type V = SubscribeTracksView;

    open spec fn view(&self) -> SubscribeTracksView {
        SubscribeTracksView {
            request_id: self.request_id,
            track_namespace_prefix: self.track_namespace_prefix@,
            parameters: params_view(self.parameters@),
        }
    }
}

/// The payload: the request ID, the prefix, then the parameters.
pub open spec fn spec_subscribe_tracks_payload(m: SubscribeTracksView) -> Result<Seq<u8>, ErrorKind> {
    match spec_param_block(m.parameters) {
        Err(e) => Err(e),
        Ok(p) => Ok(spec_vi_encode(m.request_id) + spec_serialize_tuple(m.track_namespace_prefix) + p),
    }
}

/// Reading the payload; a prefix of more than 32 fields is a protocol violation.
pub open spec fn spec_parse_subscribe_tracks(s: Seq<u8>) -> Result<(SubscribeTracksView, Seq<u8>), ErrorKind> {
    match spec_get_vi(s) {
        Err(e) => Err(e),
        Ok((request_id, s1)) => match spec_deserialize_tuple(s1) {
            Err(e) => Err(e),
            Ok((prefix, s2)) => if prefix.len() > MAX_PREFIX_FIELDS {
                Err(ErrorKind::ProtocolViolation)
            } else {
                match spec_read_param_block(s2, ControlMessageType::SubscribeTracks) {
                    Err(e) => Err(e),
                    Ok((ps, s3)) => Ok(
                        (SubscribeTracksView { request_id, track_namespace_prefix: prefix, parameters: ps }, s3),
                    ),
                }
            },
        },
    }
}

impl SubscribeTracks {
    pub fn new(request_id: u64, track_namespace_prefix: Tuple, parameters: Vec<MessageParameter>) -> (m: Self)
        ensures
            m.request_id == request_id,
            m.track_namespace_prefix == track_namespace_prefix,
            m.parameters == parameters,
    {
        Self { request_id, track_namespace_prefix, parameters }
    }
}

impl ControlMessageTrait for SubscribeTracks {
    fn serialize(&self) -> (r: Result<Bytes, ParseError>)
        ensures
            match r {
                Ok(b) => spec_framed(ControlMessageType::SubscribeTracks, spec_subscribe_tracks_payload(self@))
                    == Ok::<Seq<u8>, ErrorKind>(bytes_view(b)),
                Err(e) => spec_framed(ControlMessageType::SubscribeTracks, spec_subscribe_tracks_payload(self@))
                    == Err::<Seq<u8>, ErrorKind>(e.kind()),
            },
    {
        let mut payload: Vec<u8> = Vec::new();
        push_vi(&mut payload, self.request_id);
        self.track_namespace_prefix.push_serialized(&mut payload);
        push_param_block(&mut payload, self.parameters.as_slice())?;
        proof {
            assert(payload@ =~= spec_subscribe_tracks_payload(self@)->Ok_0);
        }
        frame(ControlMessageType::SubscribeTracks, payload.as_slice(), "SubscribeTracks::serialize")
    }

    fn parse_payload(payload: &mut Bytes) -> (r: Result<Box<Self>, ParseError>)
        ensures
            match r {
                Ok(m) => spec_parse_subscribe_tracks(bytes_view(*old(payload))) == Ok::<
                    (SubscribeTracksView, Seq<u8>),
                    ErrorKind,
                >((m@, bytes_view(*final(payload)))),
                Err(e) => spec_parse_subscribe_tracks(bytes_view(*old(payload))) == Err::<
                    (SubscribeTracksView, Seq<u8>),
                    ErrorKind,
                >(e.kind()),
            },
    {
        let request_id = payload.get_vi()?;
        let track_namespace_prefix = Tuple::deserialize(payload)?;
        if track_namespace_prefix.fields.len() > MAX_PREFIX_FIELDS {
            return Err(
                ParseError::ProtocolViolation {
                    context: "SubscribeTracks::parse_payload: track namespace prefix has more than 32 fields",
                },
            );
        }
        let parameters = read_param_block(payload, ControlMessageType::SubscribeTracks)?;
        Ok(Box::new(SubscribeTracks { request_id, track_namespace_prefix, parameters }))
    }

    fn get_type(&self) -> (t: ControlMessageType)
        ensures
            t == ControlMessageType::SubscribeTracks,
    {
        ControlMessageType::SubscribeTracks
    }
}

/// A SUBSCRIBE_TRACKS with a prefix of at most 32 fields and parameters fit
/// for it reads back from its payload, leaving what follows.
pub proof fn lemma_subscribe_tracks_roundtrip(m: SubscribeTracksView, rest: Seq<u8>)
    requires
        fields_fit(m.track_namespace_prefix),
        m.track_namespace_prefix.len() <= MAX_PREFIX_FIELDS,
        params_fit(m.parameters, ControlMessageType::SubscribeTracks),
    ensures
        spec_subscribe_tracks_payload(m) is Ok,
        spec_parse_subscribe_tracks(spec_subscribe_tracks_payload(m)->Ok_0 + rest) == Ok::<
            (SubscribeTracksView, Seq<u8>),
            ErrorKind,
        >((m, rest)),
{
    lemma_param_block_roundtrip(m.parameters, ControlMessageType::SubscribeTracks, rest);
    let p = spec_param_block(m.parameters)->Ok_0;
    lemma_tuple_roundtrip(m.track_namespace_prefix, p + rest);
    let t = spec_serialize_tuple(m.track_namespace_prefix) + (p + rest);
    lemma_vi_roundtrip(m.request_id, t);
    assert(spec_subscribe_tracks_payload(m)->Ok_0 + rest =~= spec_vi_encode(m.request_id) + t);
}

} // verus!
