//! SUBSCRIBE_OK: accept a SUBSCRIBE, with the track's alias, parameters and
//! extensions.
use crate::buf::{bytes_as_slice, bytes_view};
use crate::error::{ErrorKind, ParseError};
use crate::model::common::varint::{lemma_vi_roundtrip, push_vi, spec_get_vi, spec_vi_encode, BufVarIntExt};
use crate::model::control::constant::ControlMessageType;
use crate::model::control::control_message::{frame, spec_framed, ControlMessageTrait};
use crate::model::extension_header::track_extension::{
    deserialize_track_extensions, lemma_track_extensions_roundtrip, serialize_track_extensions,
    spec_read_track_extensions, spec_serialize_track_extensions, track_extension_canonical,
    track_extensions_view, TrackExtension, TrackExtensionView,
};
use crate::model::parameter::message_parameter::{
    lemma_param_block_roundtrip, params_fit, params_view, push_param_block, read_param_block,
    spec_param_block, spec_read_param_block, MessageParameter, MessageParameterView,
};
use bytes::Bytes;
use vstd::prelude::*;

verus! {

#[derive(Debug, PartialEq, Clone)]
pub struct SubscribeOk {
    pub request_id: u64,
    pub track_alias: u64,
    pub subscribe_parameters: Vec<MessageParameter>,
    pub track_extensions: Vec<TrackExtension>,
}

/// What a SUBSCRIBE_OK holds.
pub struct SubscribeOkView {
    pub request_id: u64,
    pub track_alias: u64,
    pub subscribe_parameters: Seq<MessageParameterView>,
    pub track_extensions: Seq<TrackExtensionView>,
}

impl View for SubscribeOk {
    type V = SubscribeOkView;

    open spec fn view(&self) -> SubscribeOkView {
        SubscribeOkView {
            request_id: self.request_id,
            track_alias: self.track_alias,
            subscribe_parameters: params_view(self.subscribe_parameters@),
            track_extensions: track_extensions_view(self.track_extensions@),
        }
    }
}

/// The payload: request ID, track alias, parameters, then the track
/// extensions, which run to the end of the payload with no count.
pub open spec fn spec_subscribe_ok_payload(m: SubscribeOkView) -> Result<Seq<u8>, ErrorKind> {
    match spec_param_block(m.subscribe_parameters) {
        Err(e) => Err(e),
        Ok(p) => match spec_serialize_track_extensions(m.track_extensions) {
            Err(e) => Err(e),
            Ok(x) => Ok(spec_vi_encode(m.request_id) + spec_vi_encode(m.track_alias) + p + x),
        },
    }
}

/// Reading the payload: whatever follows the parameters is track extensions.
pub open spec fn spec_parse_subscribe_ok(s: Seq<u8>) -> Result<SubscribeOkView, ErrorKind> {
    match spec_get_vi(s) {
        Err(e) => Err(e),
        Ok((request_id, s1)) => match spec_get_vi(s1) {
            Err(e) => Err(e),
            Ok((track_alias, s2)) => match spec_read_param_block(s2, ControlMessageType::SubscribeOk) {
                Err(e) => Err(e),
                Ok((ps, s3)) => match spec_read_track_extensions(s3) {
                    Err(e) => Err(e),
                    Ok(xs) => Ok(
                        SubscribeOkView { request_id, track_alias, subscribe_parameters: ps, track_extensions: xs },
                    ),
                },
            },
        },
    }
}

impl SubscribeOk {
    pub fn new(
        request_id: u64,
        track_alias: u64,
        subscribe_parameters: Vec<MessageParameter>,
        track_extensions: Vec<TrackExtension>,
    ) -> (m: Self)
        ensures
            m.request_id == request_id,
            m.track_alias == track_alias,
            m.subscribe_parameters == subscribe_parameters,
            m.track_extensions == track_extensions,
    {
        Self { request_id, track_alias, subscribe_parameters, track_extensions }
    }
}

impl ControlMessageTrait for SubscribeOk {
    fn serialize(&self) -> (r: Result<Bytes, ParseError>)
        ensures
            match r {
                Ok(b) => spec_framed(ControlMessageType::SubscribeOk, spec_subscribe_ok_payload(self@))
                    == Ok::<Seq<u8>, ErrorKind>(bytes_view(b)),
                Err(e) => spec_framed(ControlMessageType::SubscribeOk, spec_subscribe_ok_payload(self@))
                    == Err::<Seq<u8>, ErrorKind>(e.kind()),
            },
    {
        let mut payload: Vec<u8> = Vec::new();
        push_vi(&mut payload, self.request_id);
        push_vi(&mut payload, self.track_alias);
        let ghost head = payload@;
        let mut block: Vec<u8> = Vec::new();
        push_param_block(&mut block, self.subscribe_parameters.as_slice())?;
        let exts = serialize_track_extensions(self.track_extensions.as_slice())?;
        payload.extend_from_slice(block.as_slice());
        payload.extend_from_slice(bytes_as_slice(&exts));
        proof {
            assert(payload@ =~= spec_subscribe_ok_payload(self@)->Ok_0);
        }
        frame(ControlMessageType::SubscribeOk, payload.as_slice(), "SubscribeOk::serialize(payload_length)")
    }

    fn parse_payload(payload: &mut Bytes) -> (r: Result<Box<Self>, ParseError>)
        ensures
            match r {
                Ok(m) => spec_parse_subscribe_ok(bytes_view(*old(payload))) == Ok::<SubscribeOkView, ErrorKind>(m@)
                    && bytes_view(*final(payload)).len() == 0,
                Err(e) => spec_parse_subscribe_ok(bytes_view(*old(payload))) == Err::<SubscribeOkView, ErrorKind>(
                    e.kind(),
                ),
            },
    {
        let request_id = payload.get_vi()?;
        let track_alias = payload.get_vi()?;
        let subscribe_parameters = read_param_block(payload, ControlMessageType::SubscribeOk)?;
        let track_extensions = deserialize_track_extensions(payload)?;
        Ok(Box::new(SubscribeOk { request_id, track_alias, subscribe_parameters, track_extensions }))
    }

    fn get_type(&self) -> (t: ControlMessageType)
        ensures
            t == ControlMessageType::SubscribeOk,
    {
        ControlMessageType::SubscribeOk
    }
}

/// A SUBSCRIBE_OK with parameters fit for it and canonical track extensions
/// reads back from its payload whole.
pub proof fn lemma_subscribe_ok_roundtrip(m: SubscribeOkView)
    requires
        params_fit(m.subscribe_parameters, ControlMessageType::SubscribeOk),
        forall|i: int| 0 <= i < m.track_extensions.len() ==> track_extension_canonical(#[trigger] m.track_extensions[i]),
    ensures
        spec_subscribe_ok_payload(m) is Ok,
        spec_parse_subscribe_ok(spec_subscribe_ok_payload(m)->Ok_0) == Ok::<SubscribeOkView, ErrorKind>(m),
{
    lemma_track_extensions_roundtrip(m.track_extensions);
    let x = spec_serialize_track_extensions(m.track_extensions)->Ok_0;
    lemma_param_block_roundtrip(m.subscribe_parameters, ControlMessageType::SubscribeOk, x);
    let p = spec_param_block(m.subscribe_parameters)->Ok_0;
    lemma_vi_roundtrip(m.track_alias, p + x);
    let t = spec_vi_encode(m.track_alias) + (p + x);
    lemma_vi_roundtrip(m.request_id, t);
    assert(spec_subscribe_ok_payload(m)->Ok_0 =~= spec_vi_encode(m.request_id) + t);
}

} // verus!
