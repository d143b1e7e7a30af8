//! PUBLISH_OK: accept a PUBLISH, with the subscriber's parameters.
use crate::buf::bytes_view;
use crate::error::{ErrorKind, ParseError};
use crate::model::common::varint::{lemma_vi_roundtrip, push_vi, spec_get_vi, spec_vi_encode, BufVarIntExt};
use crate::model::control::constant::ControlMessageType;
use crate::model::control::control_message::{frame, spec_framed, ControlMessageTrait};
use crate::model::parameter::message_parameter::{
    lemma_param_block_roundtrip, params_fit, params_view, push_param_block, read_param_block,
    spec_param_block, spec_read_param_block, MessageParameter, MessageParameterView,
};
use bytes::Bytes;
use vstd::prelude::*;

verus! {

#[derive(Debug, PartialEq, Clone)]
pub struct PublishOk {
    pub request_id: u64,
    pub parameters: Vec<MessageParameter>,
}

/// What a PUBLISH_OK holds.
pub struct PublishOkView {
    pub request_id: u64,
    pub parameters: Seq<MessageParameterView>,
}

impl View for PublishOk {
    type V = PublishOkView;

    open spec fn view(&self) -> PublishOkView {
        PublishOkView { request_id: self.request_id, parameters: params_view(self.parameters@) }
    }
}

/// The payload: the request ID, then the parameters.
pub open spec fn spec_publish_ok_payload(m: PublishOkView) -> Result<Seq<u8>, ErrorKind> {
    match spec_param_block(m.parameters) {
        Err(e) => Err(e),
        Ok(p) => Ok(spec_vi_encode(m.request_id) + p),
    }
}

/// Reading the payload.
pub open spec fn spec_parse_publish_ok(s: Seq<u8>) -> Result<(PublishOkView, Seq<u8>), ErrorKind> {
    match spec_get_vi(s) {
        Err(e) => Err(e),
        Ok((request_id, s1)) => match spec_read_param_block(s1, ControlMessageType::PublishOk) {
            Err(e) => Err(e),
            Ok((ps, s2)) => Ok((PublishOkView { request_id, parameters: ps }, s2)),
        },
    }
}

impl PublishOk {
    pub fn new(request_id: u64, parameters: Vec<MessageParameter>) -> (m: Self)
        ensures
            m.request_id == request_id,
            m.parameters == parameters,
    {
        Self { request_id, parameters }
    }
}

impl ControlMessageTrait for PublishOk {
    fn serialize(&self) -> (r: Result<Bytes, ParseError>)
        ensures
            match r {
                Ok(b) => spec_framed(ControlMessageType::PublishOk, spec_publish_ok_payload(self@))
                    == Ok::<Seq<u8>, ErrorKind>(bytes_view(b)),
                Err(e) => spec_framed(ControlMessageType::PublishOk, spec_publish_ok_payload(self@))
                    == Err::<Seq<u8>, ErrorKind>(e.kind()),
            },
    {
        let mut payload: Vec<u8> = Vec::new();
        push_vi(&mut payload, self.request_id);
        push_param_block(&mut payload, self.parameters.as_slice())?;
        proof {
            assert(payload@ =~= spec_publish_ok_payload(self@)->Ok_0);
        }
        frame(ControlMessageType::PublishOk, payload.as_slice(), "PublishOk::serialize(payload_length)")
    }

    fn parse_payload(payload: &mut Bytes) -> (r: Result<Box<Self>, ParseError>)
        ensures
            match r {
                Ok(m) => spec_parse_publish_ok(bytes_view(*old(payload))) == Ok::<(PublishOkView, Seq<u8>), ErrorKind>(
                    (m@, bytes_view(*final(payload))),
                ),
                Err(e) => spec_parse_publish_ok(bytes_view(*old(payload))) == Err::<
                    (PublishOkView, Seq<u8>),
                    ErrorKind,
                >(e.kind()),
            },
    {
        let request_id = payload.get_vi()?;
        let parameters = read_param_block(payload, ControlMessageType::PublishOk)?;
        Ok(Box::new(PublishOk { request_id, parameters }))
    }

    fn get_type(&self) -> (t: ControlMessageType)
        ensures
            t == ControlMessageType::PublishOk,
    {
        ControlMessageType::PublishOk
    }
}

/// A PUBLISH_OK with parameters fit for it reads back from its payload,
/// leaving what follows.
pub proof fn lemma_publish_ok_roundtrip(m: PublishOkView, rest: Seq<u8>)
    requires
        params_fit(m.parameters, ControlMessageType::PublishOk),
    ensures
        spec_publish_ok_payload(m) is Ok,
        spec_parse_publish_ok(spec_publish_ok_payload(m)->Ok_0 + rest) == Ok::<(PublishOkView, Seq<u8>), ErrorKind>(
            (m, rest),
        ),
{
    lemma_param_block_roundtrip(m.parameters, ControlMessageType::PublishOk, rest);
    let p = spec_param_block(m.parameters)->Ok_0;
    lemma_vi_roundtrip(m.request_id, p + rest);
    assert(spec_publish_ok_payload(m)->Ok_0 + rest =~= spec_vi_encode(m.request_id) + (p + rest));
}

} // verus!
