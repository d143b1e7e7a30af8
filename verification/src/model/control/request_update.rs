//! REQUEST_UPDATE: change the parameters of an existing request.
use crate::buf::bytes_view;
use crate::error::{ErrorKind, ParseError};
use crate::model::common::varint::{lemma_vi_roundtrip, push_vi, spec_get_vi, spec_vi_encode, BufVarIntExt};
use crate::model::control::constant::ControlMessageType;
use crate::model::control::control_message::{frame, spec_framed, ControlMessageTrait};
use crate::model::parameter::message_parameter::{
    lemma_param_block_roundtrip, params_fit, params_view, push_param_block, read_param_block,
    spec_param_block, spec_read_param_block, MessageParameter, MessageParameterView,
};
use bytes::Bytes;
use vstd::prelude::*;

verus! {

#[derive(Debug, PartialEq, Clone)]
pub struct RequestUpdate {
    pub request_id: u64,
    pub existing_request_id: u64,
    pub parameters: Vec<MessageParameter>,
}

/// What a REQUEST_UPDATE holds.
pub struct RequestUpdateView {
    pub request_id: u64,
    pub existing_request_id: u64,
    pub parameters: Seq<MessageParameterView>,
}

impl View for RequestUpdate {
    type V = RequestUpdateView;

    open spec fn view(&self) -> RequestUpdateView {
        RequestUpdateView {
            request_id: self.request_id,
            existing_request_id: self.existing_request_id,
            parameters: params_view(self.parameters@),
        }
    }
}

/// The payload: the request ID, the ID of the request updated, then the parameters.
pub open spec fn spec_request_update_payload(m: RequestUpdateView) -> Result<Seq<u8>, ErrorKind> {
    match spec_param_block(m.parameters) {
        Err(e) => Err(e),
        Ok(p) => Ok(spec_vi_encode(m.request_id) + spec_vi_encode(m.existing_request_id) + p),
    }
}

/// Reading the payload.
pub open spec fn spec_parse_request_update(s: Seq<u8>) -> Result<(RequestUpdateView, Seq<u8>), ErrorKind> {
    match spec_get_vi(s) {
        Err(e) => Err(e),
        Ok((request_id, s1)) => match spec_get_vi(s1) {
            Err(e) => Err(e),
            Ok((existing_request_id, s2)) => match spec_read_param_block(s2, ControlMessageType::RequestUpdate) {
                Err(e) => Err(e),
                Ok((ps, s3)) => Ok((RequestUpdateView { request_id, existing_request_id, parameters: ps }, s3)),
            },
        },
    }
}

impl RequestUpdate {
    pub fn new(request_id: u64, existing_request_id: u64, parameters: Vec<MessageParameter>) -> (m: Self)
        ensures
            m.request_id == request_id,
            m.existing_request_id == existing_request_id,
            m.parameters == parameters,
    {
        Self { request_id, existing_request_id, parameters }
    }
}

impl ControlMessageTrait for RequestUpdate {
    fn serialize(&self) -> (r: Result<Bytes, ParseError>)
        ensures
            match r {
                Ok(b) => spec_framed(ControlMessageType::RequestUpdate, spec_request_update_payload(self@))
                    == Ok::<Seq<u8>, ErrorKind>(bytes_view(b)),
                Err(e) => spec_framed(ControlMessageType::RequestUpdate, spec_request_update_payload(self@))
                    == Err::<Seq<u8>, ErrorKind>(e.kind()),
            },
    {
        let mut payload: Vec<u8> = Vec::new();
        push_vi(&mut payload, self.request_id);
        push_vi(&mut payload, self.existing_request_id);
        push_param_block(&mut payload, self.parameters.as_slice())?;
        proof {
            assert(payload@ =~= spec_request_update_payload(self@)->Ok_0);
        }
        frame(ControlMessageType::RequestUpdate, payload.as_slice(), "RequestUpdate::serialize(payload_length)")
    }

    fn parse_payload(payload: &mut Bytes) -> (r: Result<Box<Self>, ParseError>)
        ensures
            match r {
                Ok(m) => spec_parse_request_update(bytes_view(*old(payload))) == Ok::<
                    (RequestUpdateView, Seq<u8>),
                    ErrorKind,
                >((m@, bytes_view(*final(payload)))),
                Err(e) => spec_parse_request_update(bytes_view(*old(payload))) == Err::<
                    (RequestUpdateView, Seq<u8>),
                    ErrorKind,
                >(e.kind()),
            },
    {
        let request_id = payload.get_vi()?;
        let existing_request_id = payload.get_vi()?;
        let parameters = read_param_block(payload, ControlMessageType::RequestUpdate)?;
        Ok(Box::new(RequestUpdate { request_id, existing_request_id, parameters }))
    }

    fn get_type(&self) -> (t: ControlMessageType)
        ensures
            t == ControlMessageType::RequestUpdate,
    {
        ControlMessageType::RequestUpdate
    }
}

/// A REQUEST_UPDATE with parameters fit for it reads back from its payload,
/// leaving what follows.
pub proof fn lemma_request_update_roundtrip(m: RequestUpdateView, rest: Seq<u8>)
    requires
        params_fit(m.parameters, ControlMessageType::RequestUpdate),
    ensures
        spec_request_update_payload(m) is Ok,
        spec_parse_request_update(spec_request_update_payload(m)->Ok_0 + rest) == Ok::<
            (RequestUpdateView, Seq<u8>),
            ErrorKind,
        >((m, rest)),
{
    lemma_param_block_roundtrip(m.parameters, ControlMessageType::RequestUpdate, rest);
    let p = spec_param_block(m.parameters)->Ok_0;
    let t = spec_vi_encode(m.existing_request_id) + (p + rest);
    lemma_vi_roundtrip(m.existing_request_id, p + rest);
    lemma_vi_roundtrip(m.request_id, t);
    assert(spec_request_update_payload(m)->Ok_0 + rest =~= spec_vi_encode(m.request_id) + t);
}

} // verus!
