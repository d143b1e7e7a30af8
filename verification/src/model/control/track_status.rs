//! TRACK_STATUS: ask for a track's status and properties without subscribing.
use crate::buf::bytes_view;
use crate::error::{ErrorKind, ParseError};
use crate::model::common::tuple::{
    deserialize_field, fields_fit, lemma_field_roundtrip, lemma_tuple_roundtrip, spec_deserialize_field,
    spec_deserialize_tuple, spec_field_bytes, spec_serialize_tuple, Tuple, TupleField,
};
use crate::model::common::varint::{lemma_vi_roundtrip, push_vi, spec_get_vi, spec_vi_encode, BufVarIntExt};
use crate::model::control::constant::ControlMessageType;
use crate::model::control::control_message::{frame, spec_framed, ControlMessageTrait};
use crate::model::data::full_track_name::FullTrackName;
use crate::model::parameter::message_parameter::{
    lemma_param_block_roundtrip, params_fit, params_view, push_param_block, read_param_block,
    spec_param_block, spec_read_param_block, MessageParameter, MessageParameterView,
};
use bytes::Bytes;
use vstd::prelude::*;

verus! {

/// A TRACK_STATUS has the same shape as a SUBSCRIBE. It asks for a track's properties
/// without subscribing, so parameters that govern delivery do not belong on it.
#[derive(Debug, PartialEq, Clone)]
pub struct TrackStatus {
    pub request_id: u64,
    pub track_namespace: Tuple,
    pub track_name: TupleField,
    pub subscribe_parameters: Vec<MessageParameter>,
}

/// What a TRACK_STATUS holds.
pub struct TrackStatusView {
    pub request_id: u64,
    pub track_namespace: Seq<Seq<u8>>,
    pub track_name: Seq<u8>,
    pub subscribe_parameters: Seq<MessageParameterView>,
}

impl View for TrackStatus {
    type V = TrackStatusView;

    open spec fn view(&self) -> TrackStatusView {
        TrackStatusView {
            request_id: self.request_id,
            track_namespace: self.track_namespace@,
            track_name: self.track_name@,
            subscribe_parameters: params_view(self.subscribe_parameters@),
        }
    }
}

/// The payload: the request ID, the namespace, the name, then the parameters.
pub open spec fn spec_track_status_payload(m: TrackStatusView) -> Result<Seq<u8>, ErrorKind> {
    match spec_param_block(m.subscribe_parameters) {
        Err(e) => Err(e),
        Ok(p) => Ok(
            spec_vi_encode(m.request_id) + spec_serialize_tuple(m.track_namespace) + spec_field_bytes(
                m.track_name,
            ) + p,
        ),
    }
}

/// Reading the payload.
pub open spec fn spec_parse_track_status(s: Seq<u8>) -> Result<(TrackStatusView, Seq<u8>), ErrorKind> {
    match spec_get_vi(s) {
        Err(e) => Err(e),
        Ok((request_id, s1)) => match spec_deserialize_tuple(s1) {
            Err(e) => Err(e),
            Ok((ns, s2)) => match spec_deserialize_field(s2) {
                Err(e) => Err(e),
                Ok((name, s3)) => match spec_read_param_block(s3, ControlMessageType::TrackStatus) {
                    Err(e) => Err(e),
                    Ok((ps, s4)) => Ok(
                        (
                            TrackStatusView {
                                request_id,
                                track_namespace: ns,
                                track_name: name,
                                subscribe_parameters: ps,
                            },
                            s4,
                        ),
                    ),
                },
            },
        },
    }
}

impl TrackStatus {
    pub fn new(
        request_id: u64,
        track_namespace: Tuple,
        track_name: TupleField,
        subscribe_parameters: Vec<MessageParameter>,
    ) -> (m: Self)
        ensures
            m.request_id == request_id,
            m.track_namespace == track_namespace,
            m.track_name == track_name,
            m.subscribe_parameters == subscribe_parameters,
    {
        Self { request_id, track_namespace, track_name, subscribe_parameters }
    }

    /// The namespace and name of the track asked about.
    pub fn get_full_track_name(&self) -> (f: FullTrackName)
        ensures
            f@ == (self.track_namespace@, self.track_name@),
    {
        FullTrackName { namespace: self.track_namespace.duplicate(), name: self.track_name.duplicate() }
    }
}

impl ControlMessageTrait for TrackStatus {
    fn serialize(&self) -> (r: Result<Bytes, ParseError>)
        ensures
            match r {
                Ok(b) => spec_framed(ControlMessageType::TrackStatus, spec_track_status_payload(self@))
                    == Ok::<Seq<u8>, ErrorKind>(bytes_view(b)),
                Err(e) => spec_framed(ControlMessageType::TrackStatus, spec_track_status_payload(self@))
                    == Err::<Seq<u8>, ErrorKind>(e.kind()),
            },
    {
        let mut payload: Vec<u8> = Vec::new();
        push_vi(&mut payload, self.request_id);
        self.track_namespace.push_serialized(&mut payload);
        self.track_name.push_serialized(&mut payload);
        push_param_block(&mut payload, self.subscribe_parameters.as_slice())?;
        proof {
            assert(payload@ =~= spec_track_status_payload(self@)->Ok_0);
        }
        frame(ControlMessageType::TrackStatus, payload.as_slice(), "TrackStatus::serialize")
    }

    fn parse_payload(payload: &mut Bytes) -> (r: Result<Box<Self>, ParseError>)
        ensures
            match r {
                Ok(m) => spec_parse_track_status(bytes_view(*old(payload))) == Ok::<
                    (TrackStatusView, Seq<u8>),
                    ErrorKind,
                >((m@, bytes_view(*final(payload)))),
                Err(e) => spec_parse_track_status(bytes_view(*old(payload))) == Err::<
                    (TrackStatusView, Seq<u8>),
                    ErrorKind,
                >(e.kind()),
            },
    {
        let request_id = payload.get_vi()?;
        let track_namespace = Tuple::deserialize(payload)?;
        let track_name = deserialize_field(payload)?;
        let subscribe_parameters = read_param_block(payload, ControlMessageType::TrackStatus)?;
        Ok(Box::new(TrackStatus { request_id, track_namespace, track_name, subscribe_parameters }))
    }

    fn get_type(&self) -> (t: ControlMessageType)
        ensures
            t == ControlMessageType::TrackStatus,
    {
        ControlMessageType::TrackStatus
    }
}

/// A TRACK_STATUS with parameters fit for it reads back from its payload,
/// leaving what follows.
pub proof fn lemma_track_status_roundtrip(m: TrackStatusView, rest: Seq<u8>)
    requires
        fields_fit(m.track_namespace),
        m.track_namespace.len() <= u64::MAX,
        m.track_name.len() <= usize::MAX,
        params_fit(m.subscribe_parameters, ControlMessageType::TrackStatus),
    ensures
        spec_track_status_payload(m) is Ok,
        spec_parse_track_status(spec_track_status_payload(m)->Ok_0 + rest) == Ok::<
            (TrackStatusView, Seq<u8>),
            ErrorKind,
        >((m, rest)),
{
    lemma_param_block_roundtrip(m.subscribe_parameters, ControlMessageType::TrackStatus, rest);
    let p = spec_param_block(m.subscribe_parameters)->Ok_0;
    lemma_field_roundtrip(m.track_name, p + rest);
    let f = spec_field_bytes(m.track_name) + (p + rest);
    lemma_tuple_roundtrip(m.track_namespace, f);
    let t = spec_serialize_tuple(m.track_namespace) + f;
    lemma_vi_roundtrip(m.request_id, t);
    assert(spec_track_status_payload(m)->Ok_0 + rest =~= spec_vi_encode(m.request_id) + t);
}

} // verus!
