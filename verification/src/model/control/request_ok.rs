//! REQUEST_OK: the one answer to PUBLISH, REQUEST_UPDATE, TRACK_STATUS,
//! SUBSCRIBE_NAMESPACE, SUBSCRIBE_TRACKS and PUBLISH_NAMESPACE.
use crate::buf::{bytes_as_slice, bytes_view};
use crate::error::{ErrorKind, ParseError};
use crate::model::control::constant::ControlMessageType;
use crate::model::control::control_message::{frame, spec_framed, ControlMessageTrait};
use crate::model::parameter::message_parameter::{
    lemma_param_block_roundtrip, params_fit, params_view, push_param_block, read_param_block,
    spec_param_block, spec_read_param_block, MessageParameter, MessageParameterView,
};
use crate::model::property::track_property::{
    deserialize_track_properties, lemma_sorted_track_properties_roundtrip, serialize_track_properties,
    spec_read_track_properties, spec_serialize_track_properties, spec_track_property_type,
    track_properties_view, track_property_canonical, TrackProperty, TrackPropertyView,
};
use bytes::Bytes;
use vstd::prelude::*;

verus! {

/// REQUEST_OK (0x7) answers PUBLISH, REQUEST_UPDATE, TRACK_STATUS,
/// SUBSCRIBE_NAMESPACE, SUBSCRIBE_TRACKS and PUBLISH_NAMESPACE. There is one wire
/// type; the per-request-type names (PUBLISH_OK, TRACK_STATUS_OK, ...) are
/// shorthands, not distinct messages.
#[derive(Debug, PartialEq, Clone)]
pub struct RequestOk {
    pub parameters: Vec<MessageParameter>,
    /// Populated only in TRACK_STATUS_OK; empty for every other request type.
    pub track_properties: Vec<TrackProperty>,
}

/// What a REQUEST_OK holds.
pub struct RequestOkView {
    pub parameters: Seq<MessageParameterView>,
    pub track_properties: Seq<TrackPropertyView>,
}

impl View for RequestOk {
    type V = RequestOkView;

    open spec fn view(&self) -> RequestOkView {
        RequestOkView {
            parameters: params_view(self.parameters@),
            track_properties: track_properties_view(self.track_properties@),
        }
    }
}

/// The payload: the parameters, then the track properties, which run to the
/// end of the payload with no count.
pub open spec fn spec_request_ok_payload(m: RequestOkView) -> Result<Seq<u8>, ErrorKind> {
    match spec_param_block(m.parameters) {
        Err(e) => Err(e),
        Ok(p) => match spec_serialize_track_properties(m.track_properties) {
            Err(e) => Err(e),
            Ok(t) => Ok(p + t),
        },
    }
}

/// Reading the payload: whatever follows the parameters is track properties.
pub open spec fn spec_parse_request_ok(s: Seq<u8>) -> Result<RequestOkView, ErrorKind> {
    match spec_read_param_block(s, ControlMessageType::RequestOk) {
        Err(e) => Err(e),
        Ok((ps, r)) => match spec_read_track_properties(r) {
            Err(e) => Err(e),
            Ok(props) => Ok(RequestOkView { parameters: ps, track_properties: props }),
        },
    }
}

impl RequestOk {
    /// A REQUEST_OK with no Track Properties (every request type except TRACK_STATUS).
    pub fn new(parameters: Vec<MessageParameter>) -> (m: Self)
        ensures
            m.parameters == parameters,
            m.track_properties@.len() == 0,
    {
        Self { parameters, track_properties: Vec::new() }
    }

    /// A TRACK_STATUS_OK carrying Track Properties.
    pub fn new_track_status(parameters: Vec<MessageParameter>, track_properties: Vec<TrackProperty>) -> (m: Self)
        ensures
            m.parameters == parameters,
            m.track_properties == track_properties,
    {
        Self { parameters, track_properties }
    }

    /// Track Properties may only be non-empty when this REQUEST_OK answers a
    /// TRACK_STATUS request. A receiver that sees them in any other REQUEST_OK
    /// MUST close the session with a PROTOCOL_VIOLATION.
    pub fn validate_track_properties(&self, answers_track_status: bool) -> (r: Result<(), ParseError>)
        ensures
            r is Ok <==> (answers_track_status || self.track_properties@.len() == 0),
            r matches Err(e) ==> e.kind() == ErrorKind::ProtocolViolation,
    {
        if !answers_track_status && self.track_properties.len() > 0 {
            return Err(
                ParseError::ProtocolViolation {
                    context: "RequestOk::validate_track_properties: Track Properties present in a non-TRACK_STATUS REQUEST_OK",
                },
            );
        }
        Ok(())
    }
}

impl ControlMessageTrait for RequestOk {
    fn serialize(&self) -> (r: Result<Bytes, ParseError>)
        ensures
            match r {
                Ok(b) => spec_framed(ControlMessageType::RequestOk, spec_request_ok_payload(self@))
                    == Ok::<Seq<u8>, ErrorKind>(bytes_view(b)),
                Err(e) => spec_framed(ControlMessageType::RequestOk, spec_request_ok_payload(self@))
                    == Err::<Seq<u8>, ErrorKind>(e.kind()),
            },
    {
        let mut payload: Vec<u8> = Vec::new();
        push_param_block(&mut payload, self.parameters.as_slice())?;
        let props = serialize_track_properties(self.track_properties.as_slice())?;
        payload.extend_from_slice(bytes_as_slice(&props));
        proof {
            assert(payload@ =~= spec_request_ok_payload(self@)->Ok_0);
        }
        frame(ControlMessageType::RequestOk, payload.as_slice(), "RequestOk::serialize(payload_length)")
    }

    fn parse_payload(payload: &mut Bytes) -> (r: Result<Box<Self>, ParseError>)
        ensures
            match r {
                Ok(m) => spec_parse_request_ok(bytes_view(*old(payload))) == Ok::<RequestOkView, ErrorKind>(m@)
                    && bytes_view(*final(payload)).len() == 0,
                Err(e) => spec_parse_request_ok(bytes_view(*old(payload))) == Err::<RequestOkView, ErrorKind>(
                    e.kind(),
                ),
            },
    {
        let parameters = read_param_block(payload, ControlMessageType::RequestOk)?;
        let track_properties = deserialize_track_properties(payload)?;
        Ok(Box::new(RequestOk { parameters, track_properties }))
    }

    fn get_type(&self) -> (t: ControlMessageType)
        ensures
            t == ControlMessageType::RequestOk,
    {
        ControlMessageType::RequestOk
    }
}

/// A REQUEST_OK with parameters fit for it, and canonical track properties in
/// ascending type order, reads back from its payload whole.
pub proof fn lemma_request_ok_roundtrip(m: RequestOkView)
    requires
        params_fit(m.parameters, ControlMessageType::RequestOk),
        forall|i: int| 0 <= i < m.track_properties.len() ==> track_property_canonical(#[trigger] m.track_properties[i]),
        forall|i: int, j: int|
            0 <= i <= j < m.track_properties.len() ==> spec_track_property_type(m.track_properties[i])
                <= spec_track_property_type(m.track_properties[j]),
    ensures
        spec_request_ok_payload(m) is Ok,
        spec_parse_request_ok(spec_request_ok_payload(m)->Ok_0) == Ok::<RequestOkView, ErrorKind>(m),
{
    lemma_sorted_track_properties_roundtrip(m.track_properties);
    let t = spec_serialize_track_properties(m.track_properties)->Ok_0;
    lemma_param_block_roundtrip(m.parameters, ControlMessageType::RequestOk, t);
}

} // verus!
