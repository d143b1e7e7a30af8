//! FETCH: ask for a range of past objects of a track.
use crate::buf::bytes_view;
use crate::error::{ErrorKind, ParseError};
use crate::model::common::location::{lemma_location_roundtrip, spec_deserialize_location, spec_serialize_location, Location};
use crate::model::common::tuple::{
    deserialize_field, fields_fit, lemma_field_roundtrip, lemma_tuple_roundtrip, spec_deserialize_field,
    spec_deserialize_tuple, spec_field_bytes, spec_serialize_tuple, Tuple, TupleField,
};
use crate::model::common::varint::{lemma_vi_roundtrip, push_vi, spec_get_vi, spec_vi_encode, BufVarIntExt};
use crate::model::control::constant::{ControlMessageType, GroupOrder};
use crate::model::control::control_message::{frame, spec_framed, ControlMessageTrait};
use crate::model::data::full_track_name::FullTrackName;
use crate::model::parameter::message_parameter::{
    lemma_param_block_roundtrip, params_fit, params_view, push_param_block, read_param_block,
    spec_param_block, spec_read_param_block, MessageParameter, MessageParameterView,
};
use bytes::Bytes;
use vstd::prelude::*;

verus! {

#[derive(Debug, PartialEq, Clone)]
pub struct Fetch {
    pub request_id: u64,
    pub track_namespace: Tuple,
    pub track_name: TupleField,
    pub start_location: Location,
    /// The last Object plus 1. An Object value of 0 means the entire group.
    pub end_location: Location,
    pub parameters: Vec<MessageParameter>,
}

/// What a FETCH holds.
pub struct FetchView {
    pub request_id: u64,
    pub track_namespace: Seq<Seq<u8>>,
    pub track_name: Seq<u8>,
    pub start_location: Location,
    pub end_location: Location,
    pub parameters: Seq<MessageParameterView>,
}

impl View for Fetch {
    type V = FetchView;

    open spec fn view(&self) -> FetchView {
        FetchView {
            request_id: self.request_id,
            track_namespace: self.track_namespace@,
            track_name: self.track_name@,
            start_location: self.start_location,
            end_location: self.end_location,
            parameters: params_view(self.parameters@),
        }
    }
}

/// The group order of the first Group Order parameter, if there is one.
pub open spec fn spec_first_group_order(ps: Seq<MessageParameterView>) -> Option<GroupOrder>
    decreases ps.len(),
{
    if ps.len() == 0 {
        None
    } else {
        match ps[0] {
            MessageParameterView::GroupOrder(o) => Some(o),
            _ => spec_first_group_order(ps.skip(1)),
        }
    }
}

/// The payload: request ID, namespace, name, start and end locations, then
/// the parameters.
pub open spec fn spec_fetch_payload(m: FetchView) -> Result<Seq<u8>, ErrorKind> {
    match spec_param_block(m.parameters) {
        Err(e) => Err(e),
        Ok(p) => Ok(
            spec_vi_encode(m.request_id) + spec_serialize_tuple(m.track_namespace) + spec_field_bytes(m.track_name)
                + spec_serialize_location(m.start_location) + spec_serialize_location(m.end_location) + p,
        ),
    }
}

/// Reading the payload.
pub open spec fn spec_parse_fetch(s: Seq<u8>) -> Result<(FetchView, Seq<u8>), ErrorKind> {
    match spec_get_vi(s) {
        Err(e) => Err(e),
        Ok((request_id, s1)) => match spec_deserialize_tuple(s1) {
            Err(e) => Err(e),
            Ok((ns, s2)) => match spec_deserialize_field(s2) {
                Err(e) => Err(e),
                Ok((name, s3)) => match spec_deserialize_location(s3) {
                    Err(e) => Err(e),
                    Ok((start, s4)) => match spec_deserialize_location(s4) {
                        Err(e) => Err(e),
                        Ok((end, s5)) => match spec_read_param_block(s5, ControlMessageType::Fetch) {
                            Err(e) => Err(e),
                            Ok((ps, s6)) => Ok(
                                (
                                    FetchView {
                                        request_id,
                                        track_namespace: ns,
                                        track_name: name,
                                        start_location: start,
                                        end_location: end,
                                        parameters: ps,
                                    },
                                    s6,
                                ),
                            ),
                        },
                    },
                },
            },
        },
    }
}

impl Fetch {
    pub fn new(
        request_id: u64,
        track_namespace: Tuple,
        track_name: TupleField,
        start_location: Location,
        end_location: Location,
        parameters: Vec<MessageParameter>,
    ) -> (m: Self)
        ensures
            m.request_id == request_id,
            m.track_namespace == track_namespace,
            m.track_name == track_name,
            m.start_location == start_location,
            m.end_location == end_location,
            m.parameters == parameters,
    {
        Self { request_id, track_namespace, track_name, start_location, end_location, parameters }
    }

    /// The namespace and name of the track fetched from.
    pub fn get_full_track_name(&self) -> (f: FullTrackName)
        ensures
            f@ == (self.track_namespace@, self.track_name@),
    {
        FullTrackName { namespace: self.track_namespace.duplicate(), name: self.track_name.duplicate() }
    }

    /// The group order the first Group Order parameter asks for, or
    /// ascending when there is none.
    pub fn group_order(&self) -> (o: GroupOrder)
        ensures
            o == match spec_first_group_order(params_view(self.parameters@)) {
                Some(g) => g,
                None => GroupOrder::Ascending,
            },
    {
        let ghost ps = params_view(self.parameters@);
        let mut i: usize = 0;
        proof {
            assert(ps.skip(0) =~= ps);
        }
        while i < self.parameters.len()
            invariant
                i <= self.parameters@.len(),
                ps == params_view(self.parameters@),
                spec_first_group_order(ps) == spec_first_group_order(ps.skip(i as int)),
            decreases self.parameters.len() - i,
        {
            proof {
                assert(ps.skip(i as int)[0] == ps[i as int]);
                assert(ps.skip(i as int).skip(1) =~= ps.skip(i + 1));
            }
            match &self.parameters[i] {
                MessageParameter::GroupOrder { order } => {
                    return *order;
                },
                _ => {},
            }
            i = i + 1;
        }
        proof {
            assert(ps.skip(i as int).len() == 0);
        }
        GroupOrder::Ascending
    }
}

impl ControlMessageTrait for Fetch {
    fn serialize(&self) -> (r: Result<Bytes, ParseError>)
        ensures
            match r {
                Ok(b) => spec_framed(ControlMessageType::Fetch, spec_fetch_payload(self@)) == Ok::<Seq<u8>, ErrorKind>(
                    bytes_view(b),
                ),
                Err(e) => spec_framed(ControlMessageType::Fetch, spec_fetch_payload(self@)) == Err::<
                    Seq<u8>,
                    ErrorKind,
                >(e.kind()),
            },
    {
        let mut payload: Vec<u8> = Vec::new();
        push_vi(&mut payload, self.request_id);
        self.track_namespace.push_serialized(&mut payload);
        self.track_name.push_serialized(&mut payload);
        self.start_location.push_serialized(&mut payload);
        self.end_location.push_serialized(&mut payload);
        push_param_block(&mut payload, self.parameters.as_slice())?;
        proof {
            assert(payload@ =~= spec_fetch_payload(self@)->Ok_0);
        }
        frame(ControlMessageType::Fetch, payload.as_slice(), "Fetch::serialize(payload_length)")
    }

    fn parse_payload(payload: &mut Bytes) -> (r: Result<Box<Self>, ParseError>)
        ensures
            match r {
                Ok(m) => spec_parse_fetch(bytes_view(*old(payload))) == Ok::<(FetchView, Seq<u8>), ErrorKind>(
                    (m@, bytes_view(*final(payload))),
                ),
                Err(e) => spec_parse_fetch(bytes_view(*old(payload))) == Err::<(FetchView, Seq<u8>), ErrorKind>(
                    e.kind(),
                ),
            },
    {
        let request_id = payload.get_vi()?;
        let track_namespace = Tuple::deserialize(payload)?;
        let track_name = deserialize_field(payload)?;
        let start_location = Location::deserialize(payload)?;
        let end_location = Location::deserialize(payload)?;
        let parameters = read_param_block(payload, ControlMessageType::Fetch)?;
        Ok(Box::new(Fetch { request_id, track_namespace, track_name, start_location, end_location, parameters }))
    }

    fn get_type(&self) -> (t: ControlMessageType)
        ensures
            t == ControlMessageType::Fetch,
    {
        ControlMessageType::Fetch
    }
}

/// A FETCH with parameters fit for it reads back from its payload, leaving
/// what follows.
pub proof fn lemma_fetch_roundtrip(m: FetchView, rest: Seq<u8>)
    requires
        fields_fit(m.track_namespace),
        m.track_namespace.len() <= u64::MAX,
        m.track_name.len() <= usize::MAX,
        params_fit(m.parameters, ControlMessageType::Fetch),
    ensures
        spec_fetch_payload(m) is Ok,
        spec_parse_fetch(spec_fetch_payload(m)->Ok_0 + rest) == Ok::<(FetchView, Seq<u8>), ErrorKind>((m, rest)),
{
    lemma_param_block_roundtrip(m.parameters, ControlMessageType::Fetch, rest);
    let p = spec_param_block(m.parameters)->Ok_0;
    let s5 = p + rest;
    let s4 = spec_serialize_location(m.end_location) + s5;
    let s3 = spec_serialize_location(m.start_location) + s4;
    let s2 = spec_field_bytes(m.track_name) + s3;
    let s1 = spec_serialize_tuple(m.track_namespace) + s2;
    lemma_location_roundtrip(m.end_location, s5);
    lemma_location_roundtrip(m.start_location, s4);
    lemma_field_roundtrip(m.track_name, s3);
    lemma_tuple_roundtrip(m.track_namespace, s2);
    lemma_vi_roundtrip(m.request_id, s1);
    assert(spec_fetch_payload(m)->Ok_0 + rest =~= spec_vi_encode(m.request_id) + s1);
}

} // verus!
