//! PUBLISH: a publisher offers a track to the peer.
use crate::buf::{bytes_as_slice, bytes_view};
use crate::error::{ErrorKind, ParseError};
use crate::model::common::location::{lemma_location_roundtrip, spec_deserialize_location, spec_serialize_location, Location};
use crate::model::common::tuple::{
    deserialize_field, fields_fit, lemma_field_roundtrip, lemma_tuple_roundtrip, spec_deserialize_field,
    spec_deserialize_tuple, spec_field_bytes, spec_serialize_tuple, Tuple, TupleField,
};
use crate::model::common::varint::{lemma_vi_roundtrip, push_vi, spec_get_vi, spec_vi_encode, BufVarIntExt};
use crate::model::control::constant::{ControlMessageType, GroupOrder};
use crate::model::control::control_message::{frame, read_u8, spec_framed, spec_read_u8, ControlMessageTrait};
use crate::model::extension_header::track_extension::{
    deserialize_track_extensions, lemma_track_extensions_roundtrip, serialize_track_extensions,
    spec_read_track_extensions, spec_serialize_track_extensions, track_extension_canonical,
    track_extensions_view, TrackExtension, TrackExtensionView,
};
use crate::model::parameter::message_parameter::{
    lemma_param_block_roundtrip, params_fit, params_view, push_param_block, read_param_block,
    spec_param_block, spec_read_param_block, MessageParameter, MessageParameterView,
};
use bytes::Bytes;
use vstd::prelude::*;

verus! {

#[derive(Debug, PartialEq, Clone)]
pub struct Publish {
    pub request_id: u64,
    pub track_namespace: Tuple,
    pub track_name: TupleField,
    pub track_alias: u64,
    pub group_order: GroupOrder,
    pub content_exists: u8,
    pub largest_location: Option<Location>,
    pub forward: u8,
    pub parameters: Vec<MessageParameter>,
    pub track_extensions: Vec<TrackExtension>,
}

/// What a PUBLISH holds.
pub struct PublishView {
    pub request_id: u64,
    pub track_namespace: Seq<Seq<u8>>,
    pub track_name: Seq<u8>,
    pub track_alias: u64,
    pub group_order: GroupOrder,
    pub content_exists: u8,
    pub largest_location: Option<Location>,
    pub forward: u8,
    pub parameters: Seq<MessageParameterView>,
    pub track_extensions: Seq<TrackExtensionView>,
}

impl View for Publish {
    type V = PublishView;

    open spec fn view(&self) -> PublishView {
        PublishView {
            request_id: self.request_id,
            track_namespace: self.track_namespace@,
            track_name: self.track_name@,
            track_alias: self.track_alias,
            group_order: self.group_order,
            content_exists: self.content_exists,
            largest_location: self.largest_location,
            forward: self.forward,
            parameters: params_view(self.parameters@),
            track_extensions: track_extensions_view(self.track_extensions@),
        }
    }
}

/// The fields up to and including the content-exists byte.
pub open spec fn spec_publish_head(m: PublishView) -> Seq<u8> {
    spec_vi_encode(m.request_id) + spec_serialize_tuple(m.track_namespace) + spec_field_bytes(m.track_name)
        + spec_vi_encode(m.track_alias) + seq![m.group_order.spec_value(), m.content_exists]
}

/// The largest location, written only when content exists.
pub open spec fn spec_publish_location(m: PublishView) -> Seq<u8> {
    if m.content_exists == 1 {
        spec_serialize_location(m.largest_location->Some_0)
    } else {
        Seq::empty()
    }
}

/// The payload. Content said to exist without a largest location is a
/// protocol violation; the track extensions run to the end with no count.
pub open spec fn spec_publish_payload(m: PublishView) -> Result<Seq<u8>, ErrorKind> {
    if m.content_exists == 1 && m.largest_location is None {
        Err(ErrorKind::ProtocolViolation)
    } else {
        match spec_param_block(m.parameters) {
            Err(e) => Err(e),
            Ok(p) => match spec_serialize_track_extensions(m.track_extensions) {
                Err(e) => Err(e),
                Ok(x) => Ok(spec_publish_head(m) + spec_publish_location(m) + seq![m.forward] + p + x),
            },
        }
    }
}

/// Reading the track's identity: request ID, namespace, name and alias.
pub open spec fn spec_parse_publish_track(s: Seq<u8>) -> Result<
    ((u64, Seq<Seq<u8>>, Seq<u8>, u64), Seq<u8>),
    ErrorKind,
> {
    match spec_get_vi(s) {
        Err(e) => Err(e),
        Ok((request_id, s1)) => match spec_deserialize_tuple(s1) {
            Err(e) => Err(e),
            Ok((ns, s2)) => match spec_deserialize_field(s2) {
                Err(e) => Err(e),
                Ok((name, s3)) => match spec_get_vi(s3) {
                    Err(e) => Err(e),
                    Ok((alias, s4)) => Ok(((request_id, ns, name, alias), s4)),
                },
            },
        },
    }
}

/// Reading the group order, the content flag with the location it calls
/// for, and the forward flag; flags other than 0 or 1 are protocol violations.
pub open spec fn spec_parse_publish_flags(s: Seq<u8>) -> Result<
    ((GroupOrder, u8, Option<Location>, u8), Seq<u8>),
    ErrorKind,
> {
    match spec_read_u8(s) {
        Err(e) => Err(e),
        Ok((go, s1)) => match GroupOrder::spec_from_value(go) {
            None => Err(ErrorKind::InvalidType),
            Some(order) => match spec_read_u8(s1) {
                Err(e) => Err(e),
                Ok((ce, s2)) => if ce != 0 && ce != 1 {
                    Err(ErrorKind::ProtocolViolation)
                } else {
                    match (if ce == 1 {
                        match spec_deserialize_location(s2) {
                            Err(e) => Err(e),
                            Ok((l, r)) => Ok((Some(l), r)),
                        }
                    } else {
                        Ok((None, s2))
                    }) {
                        Err(e) => Err(e),
                        Ok((loc, s3)) => match spec_read_u8(s3) {
                            Err(e) => Err(e),
                            Ok((fwd, s4)) => if fwd != 0 && fwd != 1 {
                                Err(ErrorKind::ProtocolViolation)
                            } else {
                                Ok(((order, ce, loc, fwd), s4))
                            },
                        },
                    }
                },
            },
        },
    }
}

/// Reading the payload: whatever follows the parameters is track extensions.
pub open spec fn spec_parse_publish(s: Seq<u8>) -> Result<PublishView, ErrorKind> {
    match spec_parse_publish_track(s) {
        Err(e) => Err(e),
        Ok(((request_id, ns, name, alias), s1)) => match spec_parse_publish_flags(s1) {
            Err(e) => Err(e),
            Ok(((order, ce, loc, fwd), s2)) => match spec_read_param_block(s2, ControlMessageType::Publish) {
                Err(e) => Err(e),
                Ok((ps, s3)) => match spec_read_track_extensions(s3) {
                    Err(e) => Err(e),
                    Ok(xs) => Ok(
                        PublishView {
                            request_id,
                            track_namespace: ns,
                            track_name: name,
                            track_alias: alias,
                            group_order: order,
                            content_exists: ce,
                            largest_location: loc,
                            forward: fwd,
                            parameters: ps,
                            track_extensions: xs,
                        },
                    ),
                },
            },
        },
    }
}

#[allow(clippy::too_many_arguments)]
impl Publish {
    pub fn new(
        request_id: u64,
        track_namespace: Tuple,
        track_name: TupleField,
        track_alias: u64,
        group_order: GroupOrder,
        content_exists: u8,
        largest_location: Option<Location>,
        forward: u8,
        parameters: Vec<MessageParameter>,
        track_extensions: Vec<TrackExtension>,
    ) -> (m: Self)
        ensures
            m.request_id == request_id,
            m.track_namespace == track_namespace,
            m.track_name == track_name,
            m.track_alias == track_alias,
            m.group_order == group_order,
            m.content_exists == content_exists,
            m.largest_location == largest_location,
            m.forward == forward,
            m.parameters == parameters,
            m.track_extensions == track_extensions,
    {
        Self {
            request_id,
            track_namespace,
            track_name,
            track_alias,
            group_order,
            content_exists,
            largest_location,
            forward,
            parameters,
            track_extensions,
        }
    }
}

fn read_publish_track(bytes: &mut Bytes) -> (r: Result<(u64, Tuple, TupleField, u64), ParseError>)
    ensures
        match r {
            Ok((rid, ns, name, alias)) => spec_parse_publish_track(bytes_view(*old(bytes))) == Ok::<
                ((u64, Seq<Seq<u8>>, Seq<u8>, u64), Seq<u8>),
                ErrorKind,
            >(((rid, ns@, name@, alias), bytes_view(*final(bytes)))),
            Err(e) => spec_parse_publish_track(bytes_view(*old(bytes))) == Err::<
                ((u64, Seq<Seq<u8>>, Seq<u8>, u64), Seq<u8>),
                ErrorKind,
            >(e.kind()),
        },
{
    let request_id = bytes.get_vi()?;
    let track_namespace = Tuple::deserialize(bytes)?;
    let track_name = deserialize_field(bytes)?;
    let track_alias = bytes.get_vi()?;
    Ok((request_id, track_namespace, track_name, track_alias))
}

fn read_publish_flags(bytes: &mut Bytes) -> (r: Result<(GroupOrder, u8, Option<Location>, u8), ParseError>)
    ensures
        match r {
            Ok(f) => spec_parse_publish_flags(bytes_view(*old(bytes))) == Ok::<
                ((GroupOrder, u8, Option<Location>, u8), Seq<u8>),
                ErrorKind,
            >((f, bytes_view(*final(bytes)))),
            Err(e) => spec_parse_publish_flags(bytes_view(*old(bytes))) == Err::<
                ((GroupOrder, u8, Option<Location>, u8), Seq<u8>),
                ErrorKind,
            >(e.kind()),
        },
{
    let go = read_u8(bytes, "Publish::parse_payload(group_order)")?;
    let group_order = GroupOrder::try_from(go)?;
    let content_exists = read_u8(bytes, "Publish::parse_payload(content_exists)")?;
    if content_exists != 0 && content_exists != 1 {
        return Err(
            ParseError::ProtocolViolation { context: "Publish::parse_payload(content_exists): must be 0 or 1" },
        );
    }
    let largest_location = if content_exists == 1 {
        Some(Location::deserialize(bytes)?)
    } else {
        None
    };
    let forward = read_u8(bytes, "Publish::parse_payload(forward)")?;
    if forward != 0 && forward != 1 {
        return Err(ParseError::ProtocolViolation { context: "Publish::parse_payload(forward): must be 0 or 1" });
    }
    Ok((group_order, content_exists, largest_location, forward))
}

impl ControlMessageTrait for Publish {
    fn serialize(&self) -> (r: Result<Bytes, ParseError>)
        ensures
            match r {
                Ok(b) => spec_framed(ControlMessageType::Publish, spec_publish_payload(self@)) == Ok::<
                    Seq<u8>,
                    ErrorKind,
                >(bytes_view(b)),
                Err(e) => spec_framed(ControlMessageType::Publish, spec_publish_payload(self@)) == Err::<
                    Seq<u8>,
                    ErrorKind,
                >(e.kind()),
            },
    {
        let mut payload: Vec<u8> = Vec::new();
        push_vi(&mut payload, self.request_id);
        self.track_namespace.push_serialized(&mut payload);
        self.track_name.push_serialized(&mut payload);
        push_vi(&mut payload, self.track_alias);
        payload.push(self.group_order.value());
        payload.push(self.content_exists);
        proof {
            assert(payload@ =~= spec_publish_head(self@));
        }
        let ghost head = payload@;
        if self.content_exists == 1 {
            match &self.largest_location {
                Some(location) => location.push_serialized(&mut payload),
                None => {
                    return Err(
                        ParseError::ProtocolViolation {
                            context: "Publish::serialize: content_exists is 1 but largest_location is None",
                        },
                    );
                },
            }
        }
        payload.push(self.forward);
        proof {
            assert(payload@ =~= head + spec_publish_location(self@) + seq![self.forward]);
        }
        let ghost before_params = payload@;
        push_param_block(&mut payload, self.parameters.as_slice())?;
        let exts = serialize_track_extensions(self.track_extensions.as_slice())?;
        payload.extend_from_slice(bytes_as_slice(&exts));
        proof {
            assert(payload@ =~= spec_publish_payload(self@)->Ok_0);
        }
        frame(ControlMessageType::Publish, payload.as_slice(), "Publish::serialize(payload_length)")
    }

    fn parse_payload(payload: &mut Bytes) -> (r: Result<Box<Self>, ParseError>)
        ensures
            match r {
                Ok(m) => spec_parse_publish(bytes_view(*old(payload))) == Ok::<PublishView, ErrorKind>(m@)
                    && bytes_view(*final(payload)).len() == 0,
                Err(e) => spec_parse_publish(bytes_view(*old(payload))) == Err::<PublishView, ErrorKind>(e.kind()),
            },
    {
        let (request_id, track_namespace, track_name, track_alias) = read_publish_track(payload)?;
        let (group_order, content_exists, largest_location, forward) = read_publish_flags(payload)?;
        let parameters = read_param_block(payload, ControlMessageType::Publish)?;
        let track_extensions = deserialize_track_extensions(payload)?;
        Ok(
            Box::new(
                Publish {
                    request_id,
                    track_namespace,
                    track_name,
                    track_alias,
                    group_order,
                    content_exists,
                    largest_location,
                    forward,
                    parameters,
                    track_extensions,
                },
            ),
        )
    }

    fn get_type(&self) -> (t: ControlMessageType)
        ensures
            t == ControlMessageType::Publish,
    {
        ControlMessageType::Publish
    }
}

/// The track's identity as written.
pub open spec fn spec_publish_track_bytes(m: PublishView) -> Seq<u8> {
    spec_vi_encode(m.request_id) + spec_serialize_tuple(m.track_namespace) + spec_field_bytes(m.track_name)
        + spec_vi_encode(m.track_alias)
}

/// The flags, and the location they call for, as written.
pub open spec fn spec_publish_flag_bytes(m: PublishView) -> Seq<u8> {
    seq![m.group_order.spec_value(), m.content_exists] + spec_publish_location(m) + seq![m.forward]
}

proof fn lemma_publish_track_roundtrip(m: PublishView, tail: Seq<u8>)
    requires
        fields_fit(m.track_namespace),
        m.track_namespace.len() <= u64::MAX,
        m.track_name.len() <= usize::MAX,
    ensures
        spec_parse_publish_track(spec_publish_track_bytes(m) + tail) == Ok::<
            ((u64, Seq<Seq<u8>>, Seq<u8>, u64), Seq<u8>),
            ErrorKind,
        >(((m.request_id, m.track_namespace, m.track_name, m.track_alias), tail)),
{
    let s4 = spec_vi_encode(m.track_alias) + tail;
    let s3 = spec_field_bytes(m.track_name) + s4;
    let s2 = spec_serialize_tuple(m.track_namespace) + s3;
    lemma_vi_roundtrip(m.track_alias, tail);
    lemma_field_roundtrip(m.track_name, s4);
    lemma_tuple_roundtrip(m.track_namespace, s3);
    lemma_vi_roundtrip(m.request_id, s2);
    assert(spec_publish_track_bytes(m) + tail =~= spec_vi_encode(m.request_id) + s2);
}

proof fn lemma_publish_flags_roundtrip(m: PublishView, tail: Seq<u8>)
    requires
        m.content_exists == 0 || m.content_exists == 1,
        m.forward == 0 || m.forward == 1,
        m.content_exists == 1 <==> m.largest_location is Some,
    ensures
        spec_parse_publish_flags(spec_publish_flag_bytes(m) + tail) == Ok::<
            ((GroupOrder, u8, Option<Location>, u8), Seq<u8>),
            ErrorKind,
        >(((m.group_order, m.content_exists, m.largest_location, m.forward), tail)),
{
    m.group_order.lemma_codepoints(m.group_order.spec_value());
    let loc = spec_publish_location(m);
    let after = seq![m.forward] + tail;
    let s = spec_publish_flag_bytes(m) + tail;
    assert(s =~= seq![m.group_order.spec_value(), m.content_exists] + (loc + after));
    assert(s.skip(1) =~= seq![m.content_exists] + (loc + after));
    assert(s.skip(1).skip(1) =~= loc + after);
    if m.content_exists == 1 {
        lemma_location_roundtrip(m.largest_location->Some_0, after);
    } else {
        assert(loc + after =~= after);
    }
    assert(after.skip(1) =~= tail);
}

/// A PUBLISH whose flags are 0 or 1, with a largest location exactly when
/// content exists, parameters fit for it and canonical track extensions,
/// reads back from its payload whole.
pub proof fn lemma_publish_roundtrip(m: PublishView)
    requires
        fields_fit(m.track_namespace),
        m.track_namespace.len() <= u64::MAX,
        m.track_name.len() <= usize::MAX,
        m.content_exists == 0 || m.content_exists == 1,
        m.forward == 0 || m.forward == 1,
        m.content_exists == 1 <==> m.largest_location is Some,
        params_fit(m.parameters, ControlMessageType::Publish),
        forall|i: int| 0 <= i < m.track_extensions.len() ==> track_extension_canonical(#[trigger] m.track_extensions[i]),
    ensures
        spec_publish_payload(m) is Ok,
        spec_parse_publish(spec_publish_payload(m)->Ok_0) == Ok::<PublishView, ErrorKind>(m),
{
    lemma_track_extensions_roundtrip(m.track_extensions);
    let x = spec_serialize_track_extensions(m.track_extensions)->Ok_0;
    lemma_param_block_roundtrip(m.parameters, ControlMessageType::Publish, x);
    let p = spec_param_block(m.parameters)->Ok_0;
    let px = p + x;
    let f = spec_publish_flag_bytes(m) + px;
    lemma_publish_flags_roundtrip(m, px);
    lemma_publish_track_roundtrip(m, f);
    assert(spec_publish_payload(m)->Ok_0 =~= spec_publish_track_bytes(m) + f);
}

} // verus!
