//! Parameters carried by control messages, and the rules on which message
//! each may appear in.
use crate::buf::{bytes_from_vec, bytes_get_u8, bytes_len, bytes_view};
use crate::error::{ErrorKind, ParseError};
use crate::model::common::location::{
    lemma_location_roundtrip, spec_deserialize_location, spec_serialize_location, Location,
};
use crate::model::common::pair::{
    kvps_view, lemma_sort_by_type, sort_by_type, spec_deserialize_value, types_ascending,
    KeyValuePair, KvpView, MAX_VALUE_LENGTH,
};
use crate::model::common::varint::{
    lemma_vi_roundtrip, push_vi, spec_get_vi, spec_vi_encode, BufVarIntExt,
};
use crate::model::control::constant::{ControlMessageType, FilterType, GroupOrder};
use crate::model::parameter::authorization_token::{
    auth_token_wf, lemma_auth_token_roundtrip, spec_deserialize_auth_token,
    spec_serialize_auth_token, AuthTokenView, AuthorizationToken,
};
use crate::model::parameter::constant::MessageParameterType;
use bytes::Bytes;
use vstd::prelude::*;

verus! {

#[derive(Debug, Clone, PartialEq)]
pub enum MessageParameter {
    ObjectDeliveryTimeout { timeout: u64 },
    SubgroupDeliveryTimeout { timeout: u64 },
    RendezvousTimeout { timeout: u64 },
    FillTimeout { timeout: u64 },
    AuthorizationToken { token: AuthorizationToken },
    Expires { expires: u64 },
    LargestObject { location: Location },
    Forward { forward: bool },
    SubscriberPriority { priority: u8 },
    GroupOrder { order: GroupOrder },
    SubscriptionFilter {
        filter_type: FilterType,
        start_location: Option<Location>,
        end_group: Option<u64>,
    },
    NewGroupRequest { group: u64 },
}

/// What a message parameter holds.
pub enum MessageParameterView {
    ObjectDeliveryTimeout(u64),
    SubgroupDeliveryTimeout(u64),
    RendezvousTimeout(u64),
    FillTimeout(u64),
    AuthorizationToken(AuthTokenView),
    Expires(u64),
    LargestObject(Location),
    Forward(bool),
    SubscriberPriority(u8),
    GroupOrder(GroupOrder),
    SubscriptionFilter(FilterType, Option<Location>, Option<u64>),
    NewGroupRequest(u64),
}

impl View for MessageParameter {
    type V = MessageParameterView;

    open spec fn view(&self) -> MessageParameterView {
        match self {
            MessageParameter::ObjectDeliveryTimeout { timeout } => MessageParameterView::ObjectDeliveryTimeout(
                *timeout,
            ),
            MessageParameter::SubgroupDeliveryTimeout { timeout } => MessageParameterView::SubgroupDeliveryTimeout(
                *timeout,
            ),
            MessageParameter::RendezvousTimeout { timeout } => MessageParameterView::RendezvousTimeout(
                *timeout,
            ),
            MessageParameter::FillTimeout { timeout } => MessageParameterView::FillTimeout(*timeout),
            MessageParameter::AuthorizationToken { token } => MessageParameterView::AuthorizationToken(
                token@,
            ),
            MessageParameter::Expires { expires } => MessageParameterView::Expires(*expires),
            MessageParameter::LargestObject { location } => MessageParameterView::LargestObject(
                *location,
            ),
            MessageParameter::Forward { forward } => MessageParameterView::Forward(*forward),
            MessageParameter::SubscriberPriority { priority } => MessageParameterView::SubscriberPriority(
                *priority,
            ),
            MessageParameter::GroupOrder { order } => MessageParameterView::GroupOrder(*order),
            MessageParameter::SubscriptionFilter { filter_type, start_location, end_group } =>
                MessageParameterView::SubscriptionFilter(*filter_type, *start_location, *end_group),
            MessageParameter::NewGroupRequest { group } => MessageParameterView::NewGroupRequest(
                *group,
            ),
        }
    }
}

pub open spec fn params_view(ps: Seq<MessageParameter>) -> Seq<MessageParameterView> {
    ps.map_values(|p: MessageParameter| p@)
}

/// The wire type of a parameter.
pub open spec fn spec_param_type(p: MessageParameterView) -> u64 {
    match p {
        MessageParameterView::ObjectDeliveryTimeout(_) => MessageParameterType::ObjectDeliveryTimeout.spec_value(),
        MessageParameterView::SubgroupDeliveryTimeout(_) => MessageParameterType::SubgroupDeliveryTimeout.spec_value(),
        MessageParameterView::RendezvousTimeout(_) => MessageParameterType::RendezvousTimeout.spec_value(),
        MessageParameterView::FillTimeout(_) => MessageParameterType::FillTimeout.spec_value(),
        MessageParameterView::AuthorizationToken(_) => MessageParameterType::AuthorizationToken.spec_value(),
        MessageParameterView::Expires(_) => MessageParameterType::Expires.spec_value(),
        MessageParameterView::LargestObject(_) => MessageParameterType::LargestObject.spec_value(),
        MessageParameterView::Forward(_) => MessageParameterType::Forward.spec_value(),
        MessageParameterView::SubscriberPriority(_) => MessageParameterType::SubscriberPriority.spec_value(),
        MessageParameterView::GroupOrder(_) => MessageParameterType::GroupOrder.spec_value(),
        MessageParameterView::SubscriptionFilter(..) => MessageParameterType::SubscriptionFilter.spec_value(),
        MessageParameterView::NewGroupRequest(_) => MessageParameterType::NewGroupRequest.spec_value(),
    }
}

/// The control messages each parameter is defined for; anywhere else it is a
/// protocol violation.
pub open spec fn spec_param_valid_for(p: MessageParameterView, t: ControlMessageType) -> bool {
    match p {
        MessageParameterView::AuthorizationToken(_) => t == ControlMessageType::Publish || t
            == ControlMessageType::Subscribe || t == ControlMessageType::RequestUpdate || t
            == ControlMessageType::SubscribeNamespace || t == ControlMessageType::SubscribeTracks
            || t == ControlMessageType::PublishNamespace || t == ControlMessageType::TrackStatus
            || t == ControlMessageType::Fetch,
        MessageParameterView::ObjectDeliveryTimeout(_) => t == ControlMessageType::PublishOk || t
            == ControlMessageType::RequestOk || t == ControlMessageType::Subscribe || t
            == ControlMessageType::RequestUpdate,
        MessageParameterView::SubgroupDeliveryTimeout(_) => t == ControlMessageType::PublishOk || t
            == ControlMessageType::RequestOk || t == ControlMessageType::Subscribe || t
            == ControlMessageType::RequestUpdate,
        MessageParameterView::RendezvousTimeout(_) => t == ControlMessageType::Subscribe,
        MessageParameterView::FillTimeout(_) => t == ControlMessageType::Fetch,
        MessageParameterView::SubscriberPriority(_) => t == ControlMessageType::Subscribe || t
            == ControlMessageType::Fetch || t == ControlMessageType::RequestUpdate || t
            == ControlMessageType::PublishOk || t == ControlMessageType::RequestOk,
        MessageParameterView::GroupOrder(_) => t == ControlMessageType::Subscribe || t
            == ControlMessageType::PublishOk || t == ControlMessageType::Fetch || t
            == ControlMessageType::SubscribeOk || t == ControlMessageType::FetchOk || t
            == ControlMessageType::Publish || t == ControlMessageType::RequestOk,
        MessageParameterView::SubscriptionFilter(..) => t == ControlMessageType::Subscribe || t
            == ControlMessageType::PublishOk || t == ControlMessageType::RequestOk || t
            == ControlMessageType::RequestUpdate,
        MessageParameterView::Expires(_) => t == ControlMessageType::SubscribeOk || t
            == ControlMessageType::Publish || t == ControlMessageType::PublishOk || t
            == ControlMessageType::RequestOk,
        MessageParameterView::LargestObject(_) => t == ControlMessageType::SubscribeOk || t
            == ControlMessageType::Publish || t == ControlMessageType::FetchOk || t
            == ControlMessageType::RequestOk,
        MessageParameterView::Forward(_) => t == ControlMessageType::Subscribe || t
            == ControlMessageType::RequestUpdate || t == ControlMessageType::Publish || t
            == ControlMessageType::PublishOk || t == ControlMessageType::RequestOk || t
            == ControlMessageType::SubscribeNamespace || t == ControlMessageType::SubscribeTracks,
        MessageParameterView::NewGroupRequest(_) => t == ControlMessageType::PublishOk || t
            == ControlMessageType::RequestOk || t == ControlMessageType::Subscribe || t
            == ControlMessageType::RequestUpdate,
    }
}

/// The value of a subscription filter: its type, the start location for
/// the absolute filters, and for an absolute range the end group as a delta
/// from the start group (never below zero).
pub open spec fn spec_filter_bytes(ft: FilterType, start: Option<Location>, end: Option<u64>) -> Seq<
    u8,
> {
    let start_group: u64 = match start {
        Some(l) => l.group,
        None => 0,
    };
    spec_vi_encode(ft.spec_value()) + (if (ft == FilterType::AbsoluteStart || ft
        == FilterType::AbsoluteRange) && start is Some {
        spec_serialize_location(start->Some_0)
    } else {
        Seq::empty()
    }) + (if ft == FilterType::AbsoluteRange && end is Some {
        spec_vi_encode(
            if end->Some_0 >= start_group {
                (end->Some_0 - start_group) as u64
            } else {
                0
            },
        )
    } else {
        Seq::empty()
    })
}

/// The pair a parameter is written as.
pub open spec fn spec_param_pair(p: MessageParameterView) -> Result<KvpView, ErrorKind> {
    let t = spec_param_type(p);
    match p {
        MessageParameterView::ObjectDeliveryTimeout(v) => Ok(KvpView::VarInt { type_value: t, value: v }),
        MessageParameterView::SubgroupDeliveryTimeout(v) => Ok(KvpView::VarInt { type_value: t, value: v }),
        MessageParameterView::RendezvousTimeout(v) => Ok(KvpView::VarInt { type_value: t, value: v }),
        MessageParameterView::FillTimeout(v) => Ok(KvpView::VarInt { type_value: t, value: v }),
        MessageParameterView::Expires(v) => Ok(KvpView::VarInt { type_value: t, value: v }),
        MessageParameterView::NewGroupRequest(v) => Ok(KvpView::VarInt { type_value: t, value: v }),
        MessageParameterView::Forward(b) => Ok(
            KvpView::VarInt {
                type_value: t,
                value: if b {
                    1
                } else {
                    0
                },
            },
        ),
        MessageParameterView::SubscriberPriority(v) => Ok(
            KvpView::VarInt { type_value: t, value: v as u64 },
        ),
        MessageParameterView::GroupOrder(o) => Ok(
            KvpView::VarInt { type_value: t, value: o.spec_value() as u64 },
        ),
        MessageParameterView::AuthorizationToken(tok) => match spec_serialize_auth_token(tok) {
            Err(e) => Err(e),
            Ok(b) => if b.len() > MAX_VALUE_LENGTH {
                Err(ErrorKind::LengthExceedsMax)
            } else {
                Ok(KvpView::Bytes { type_value: t, value: b })
            },
        },
        MessageParameterView::LargestObject(l) => Ok(
            KvpView::Bytes { type_value: t, value: spec_serialize_location(l) },
        ),
        MessageParameterView::SubscriptionFilter(ft, start, end) => Ok(
            KvpView::Bytes { type_value: t, value: spec_filter_bytes(ft, start, end) },
        ),
    }
}

/// Reading a subscription filter value. An absolute range whose end group
/// delta overflows is a protocol violation; bytes after the filter are ignored.
pub open spec fn spec_read_filter(value: Seq<u8>) -> Result<MessageParameterView, ErrorKind> {
    match spec_get_vi(value) {
        Err(e) => Err(e),
        Ok((raw, r)) => match FilterType::spec_from_value(raw) {
            None => Err(ErrorKind::InvalidType),
            Some(FilterType::AbsoluteStart) => match spec_deserialize_location(r) {
                Err(e) => Err(e),
                Ok((loc, _)) => Ok(
                    MessageParameterView::SubscriptionFilter(FilterType::AbsoluteStart, Some(loc), None),
                ),
            },
            Some(FilterType::AbsoluteRange) => match spec_deserialize_location(r) {
                Err(e) => Err(e),
                Ok((loc, r2)) => match spec_get_vi(r2) {
                    Err(e) => Err(e),
                    Ok((delta, _)) => if loc.group + delta > u64::MAX {
                        Err(ErrorKind::ProtocolViolation)
                    } else {
                        Ok(
                            MessageParameterView::SubscriptionFilter(
                                FilterType::AbsoluteRange,
                                Some(loc),
                                Some((loc.group + delta) as u64),
                            ),
                        )
                    },
                },
            },
            Some(ft) => Ok(MessageParameterView::SubscriptionFilter(ft, None, None)),
        },
    }
}

/// The parameter a pair stands for. Unknown types, a varint where bytes
/// are due or bytes where a varint is due, and values out of range are
/// protocol violations; a zero timeout is valid and means no timeout.
pub open spec fn spec_param_of(k: KvpView) -> Result<MessageParameterView, ErrorKind> {
    match k {
        KvpView::VarInt { type_value, value } => match MessageParameterType::spec_from_value(
            type_value,
        ) {
            None => Err(ErrorKind::ProtocolViolation),
            Some(MessageParameterType::ObjectDeliveryTimeout) => Ok(
                MessageParameterView::ObjectDeliveryTimeout(value),
            ),
            Some(MessageParameterType::SubgroupDeliveryTimeout) => Ok(
                MessageParameterView::SubgroupDeliveryTimeout(value),
            ),
            Some(MessageParameterType::RendezvousTimeout) => Ok(
                MessageParameterView::RendezvousTimeout(value),
            ),
            Some(MessageParameterType::FillTimeout) => Ok(MessageParameterView::FillTimeout(value)),
            Some(MessageParameterType::Expires) => Ok(MessageParameterView::Expires(value)),
            Some(MessageParameterType::Forward) => if value == 0 {
                Ok(MessageParameterView::Forward(false))
            } else if value == 1 {
                Ok(MessageParameterView::Forward(true))
            } else {
                Err(ErrorKind::ProtocolViolation)
            },
            Some(MessageParameterType::SubscriberPriority) => if value > 255 {
                Err(ErrorKind::ProtocolViolation)
            } else {
                Ok(MessageParameterView::SubscriberPriority(value as u8))
            },
            Some(MessageParameterType::GroupOrder) => if value == 0 {
                Ok(MessageParameterView::GroupOrder(GroupOrder::Original))
            } else if value == 1 {
                Ok(MessageParameterView::GroupOrder(GroupOrder::Ascending))
            } else if value == 2 {
                Ok(MessageParameterView::GroupOrder(GroupOrder::Descending))
            } else {
                Err(ErrorKind::ProtocolViolation)
            },
            Some(MessageParameterType::NewGroupRequest) => Ok(
                MessageParameterView::NewGroupRequest(value),
            ),
            Some(_) => Err(ErrorKind::ProtocolViolation),
        },
        KvpView::Bytes { type_value, value } => match MessageParameterType::spec_from_value(
            type_value,
        ) {
            None => Err(ErrorKind::ProtocolViolation),
            Some(MessageParameterType::AuthorizationToken) => match spec_deserialize_auth_token(
                value,
            ) {
                Err(e) => Err(e),
                Ok((tok, _)) => Ok(MessageParameterView::AuthorizationToken(tok)),
            },
            Some(MessageParameterType::LargestObject) => match spec_deserialize_location(value) {
                Err(e) => Err(e),
                Ok((loc, _)) => Ok(MessageParameterView::LargestObject(loc)),
            },
            Some(MessageParameterType::SubscriptionFilter) => spec_read_filter(value),
            Some(_) => Err(ErrorKind::ProtocolViolation),
        },
    }
}

/// FORWARD, SUBSCRIBER_PRIORITY and GROUP_ORDER carry a single byte, not
/// the varint their even types would otherwise call for.
pub open spec fn spec_is_uint8_param(t: u64) -> bool {
    t == 0x10 || t == 0x20 || t == 0x22
}

/// The bytes of a pair's value in a parameter list.
pub open spec fn spec_param_value_bytes(k: KvpView) -> Result<Seq<u8>, ErrorKind> {
    match k {
        KvpView::VarInt { type_value, value } => if spec_is_uint8_param(type_value) {
            if value > 255 {
                Err(ErrorKind::ProtocolViolation)
            } else {
                Ok(seq![value as u8])
            }
        } else {
            Ok(spec_vi_encode(value))
        },
        KvpView::Bytes { value, .. } => Ok(spec_vi_encode(value.len() as u64) + value),
    }
}

/// Writing pairs of a parameter list, each type as a delta from the one
/// before it, the first from `prev_type`.
pub open spec fn spec_write_param_pairs(ks: Seq<KvpView>, prev_type: u64) -> Result<
    Seq<u8>,
    ErrorKind,
>
    decreases ks.len(),
{
    if ks.len() == 0 {
        Ok(Seq::empty())
    } else if ks[0].type_of() < prev_type {
        Err(ErrorKind::ProtocolViolation)
    } else {
        match spec_param_value_bytes(ks[0]) {
            Err(e) => Err(e),
            Ok(v) => match spec_write_param_pairs(ks.skip(1), ks[0].type_of()) {
                Err(e) => Err(e),
                Ok(r) => Ok(spec_vi_encode((ks[0].type_of() - prev_type) as u64) + v + r),
            },
        }
    }
}

/// The pairs of a list of parameters; the first that cannot be written wins.
pub open spec fn spec_param_pairs(ps: Seq<MessageParameterView>) -> Result<Seq<KvpView>, ErrorKind>
    decreases ps.len(),
{
    if ps.len() == 0 {
        Ok(Seq::empty())
    } else {
        match spec_param_pairs(ps.drop_last()) {
            Err(e) => Err(e),
            Ok(ks) => match spec_param_pair(ps.last()) {
                Err(e) => Err(e),
                Ok(k) => Ok(ks.push(k)),
            },
        }
    }
}

/// The wire form of a parameter list: the pairs sorted by ascending type
/// (stable), then delta-encoded.
pub open spec fn spec_serialize_message_parameters(ps: Seq<MessageParameterView>) -> Result<
    Seq<u8>,
    ErrorKind,
> {
    match spec_param_pairs(ps) {
        Err(e) => Err(e),
        Ok(ks) => spec_write_param_pairs(sort_by_type(ks), 0),
    }
}

/// Reading the value of a parameter whose type is known.
pub open spec fn spec_read_param_value(s: Seq<u8>, t: u64) -> Result<(KvpView, Seq<u8>), ErrorKind> {
    if spec_is_uint8_param(t) {
        if s.len() < 1 {
            Err(ErrorKind::NotEnoughBytes)
        } else {
            Ok((KvpView::VarInt { type_value: t, value: s[0] as u64 }, s.skip(1)))
        }
    } else {
        spec_deserialize_value(s, t)
    }
}

/// Reading `count` parameters for a message of type `msg`, types written as
/// deltas from `prev_type`. A parameter the message does not allow is a
/// protocol violation.
pub open spec fn spec_read_message_parameters(
    s: Seq<u8>,
    count: nat,
    prev_type: u64,
    msg: ControlMessageType,
) -> Result<(Seq<MessageParameterView>, Seq<u8>), ErrorKind>
    decreases count,
{
    if count == 0 {
        Ok((Seq::empty(), s))
    } else {
        match spec_get_vi(s) {
            Err(e) => Err(e),
            Ok((d, r)) => if prev_type + d > u64::MAX {
                Err(ErrorKind::ProtocolViolation)
            } else {
                let t = (prev_type + d) as u64;
                match spec_read_param_value(r, t) {
                    Err(e) => Err(e),
                    Ok((k, r2)) => match spec_param_of(k) {
                        Err(e) => Err(e),
                        Ok(p) => if !spec_param_valid_for(p, msg) {
                            Err(ErrorKind::ProtocolViolation)
                        } else {
                            match spec_read_message_parameters(r2, (count - 1) as nat, t, msg) {
                                Err(e) => Err(e),
                                Ok((ps, r3)) => Ok((seq![p] + ps, r3)),
                            }
                        },
                    },
                }
            },
        }
    }
}


/// Reads a subscription filter value.
fn read_filter(value: Bytes) -> (r: Result<MessageParameter, ParseError>)
    ensures
        match r {
            Ok(p) => spec_read_filter(bytes_view(value)) == Ok::<MessageParameterView, ErrorKind>(p@),
            Err(e) => spec_read_filter(bytes_view(value)) == Err::<MessageParameterView, ErrorKind>(
                e.kind(),
            ),
        },
{
    let mut payload = value;
    let ft_raw = payload.get_vi()?;
    let filter_type = FilterType::try_from(ft_raw)?;
    match filter_type {
        FilterType::AbsoluteStart => {
            let loc = Location::deserialize(&mut payload)?;
            Ok(
                MessageParameter::SubscriptionFilter {
                    filter_type,
                    start_location: Some(loc),
                    end_group: None,
                },
            )
        },
        FilterType::AbsoluteRange => {
            let loc = Location::deserialize(&mut payload)?;
            // The end group is a delta from the start group on the wire.
            let delta = payload.get_vi()?;
            if delta > u64::MAX - loc.group {
                return Err(
                    ParseError::ProtocolViolation {
                        context: "MessageParameter::deserialize: AbsoluteRange End Group Delta overflows u64",
                    },
                );
            }
            Ok(
                MessageParameter::SubscriptionFilter {
                    filter_type,
                    start_location: Some(loc),
                    end_group: Some(loc.group + delta),
                },
            )
        },
        _ => Ok(
            MessageParameter::SubscriptionFilter {
                filter_type,
                start_location: None,
                end_group: None,
            },
        ),
    }
}

/// The value bytes of a subscription filter.
fn filter_bytes(filter_type: FilterType, start_location: Option<Location>, end_group: Option<u64>) -> (r:
    Vec<u8>)
    ensures
        r@ == spec_filter_bytes(filter_type, start_location, end_group),
        r@.len() <= 36,
{
    let mut buf: Vec<u8> = Vec::new();
    push_vi(&mut buf, filter_type.value());
    let ghost a = buf@;
    let start_group: u64 = match start_location {
        Some(l) => l.group,
        None => 0,
    };
    if filter_type == FilterType::AbsoluteStart || filter_type == FilterType::AbsoluteRange {
        if let Some(loc) = start_location {
            loc.push_serialized(&mut buf);
        }
    }
    let ghost b = buf@;
    if filter_type == FilterType::AbsoluteRange {
        if let Some(eg) = end_group {
            let delta = if eg >= start_group {
                eg - start_group
            } else {
                0
            };
            push_vi(&mut buf, delta);
        }
    }
    proof {
        crate::model::common::varint::lemma_vi_encode_len(filter_type.spec_value());
        if let Some(l) = start_location {
            crate::model::common::varint::lemma_vi_encode_len(l.group);
            crate::model::common::varint::lemma_vi_encode_len(l.object);
        }
        if let Some(eg) = end_group {
            crate::model::common::varint::lemma_vi_encode_len(
                if eg >= start_group {
                    (eg - start_group) as u64
                } else {
                    0
                },
            );
        }
        assert(buf@ =~= spec_filter_bytes(filter_type, start_location, end_group));
    }
    buf
}

impl MessageParameter {
    pub fn new_object_delivery_timeout(timeout: u64) -> (p: Self)
        ensures
            p@ == MessageParameterView::ObjectDeliveryTimeout(timeout),
    {
        MessageParameter::ObjectDeliveryTimeout { timeout }
    }

    pub fn new_subgroup_delivery_timeout(timeout: u64) -> (p: Self)
        ensures
            p@ == MessageParameterView::SubgroupDeliveryTimeout(timeout),
    {
        MessageParameter::SubgroupDeliveryTimeout { timeout }
    }

    pub fn new_rendezvous_timeout(timeout: u64) -> (p: Self)
        ensures
            p@ == MessageParameterView::RendezvousTimeout(timeout),
    {
        MessageParameter::RendezvousTimeout { timeout }
    }

    pub fn new_fill_timeout(timeout: u64) -> (p: Self)
        ensures
            p@ == MessageParameterView::FillTimeout(timeout),
    {
        MessageParameter::FillTimeout { timeout }
    }

    pub fn new_authorization_token(token: AuthorizationToken) -> (p: Self)
        ensures
            p@ == MessageParameterView::AuthorizationToken(token@),
    {
        MessageParameter::AuthorizationToken { token }
    }

    pub fn new_expires(expires: u64) -> (p: Self)
        ensures
            p@ == MessageParameterView::Expires(expires),
    {
        MessageParameter::Expires { expires }
    }

    pub fn new_largest_object(location: Location) -> (p: Self)
        ensures
            p@ == MessageParameterView::LargestObject(location),
    {
        MessageParameter::LargestObject { location }
    }

    pub fn new_forward(forward: bool) -> (p: Self)
        ensures
            p@ == MessageParameterView::Forward(forward),
    {
        MessageParameter::Forward { forward }
    }

    pub fn new_subscriber_priority(priority: u8) -> (p: Self)
        ensures
            p@ == MessageParameterView::SubscriberPriority(priority),
    {
        MessageParameter::SubscriberPriority { priority }
    }

    pub fn new_group_order(order: GroupOrder) -> (p: Self)
        ensures
            p@ == MessageParameterView::GroupOrder(order),
    {
        MessageParameter::GroupOrder { order }
    }

    pub fn new_subscription_filter(
        filter_type: FilterType,
        start_location: Option<Location>,
        end_group: Option<u64>,
    ) -> (p: Self)
        ensures
            p@ == MessageParameterView::SubscriptionFilter(filter_type, start_location, end_group),
    {
        MessageParameter::SubscriptionFilter { filter_type, start_location, end_group }
    }

    pub fn new_group_request(group: u64) -> (p: Self)
        ensures
            p@ == MessageParameterView::NewGroupRequest(group),
    {
        MessageParameter::NewGroupRequest { group }
    }

    /// The raw wire type of this parameter.
    pub fn type_value(&self) -> (t: u64)
        ensures
            t == spec_param_type(self@),
    {
        match self {
            MessageParameter::ObjectDeliveryTimeout { .. } => MessageParameterType::ObjectDeliveryTimeout.value(),
            MessageParameter::SubgroupDeliveryTimeout { .. } => MessageParameterType::SubgroupDeliveryTimeout.value(),
            MessageParameter::RendezvousTimeout { .. } => MessageParameterType::RendezvousTimeout.value(),
            MessageParameter::FillTimeout { .. } => MessageParameterType::FillTimeout.value(),
            MessageParameter::AuthorizationToken { .. } => MessageParameterType::AuthorizationToken.value(),
            MessageParameter::Expires { .. } => MessageParameterType::Expires.value(),
            MessageParameter::LargestObject { .. } => MessageParameterType::LargestObject.value(),
            MessageParameter::Forward { .. } => MessageParameterType::Forward.value(),
            MessageParameter::SubscriberPriority { .. } => MessageParameterType::SubscriberPriority.value(),
            MessageParameter::GroupOrder { .. } => MessageParameterType::GroupOrder.value(),
            MessageParameter::SubscriptionFilter { .. } => MessageParameterType::SubscriptionFilter.value(),
            MessageParameter::NewGroupRequest { .. } => MessageParameterType::NewGroupRequest.value(),
        }
    }

    /// Whether this parameter is permitted in the given control message type;
    /// one that appears where it is not defined is a protocol violation.
    pub fn is_valid_for(&self, msg_type: ControlMessageType) -> (b: bool)
        ensures
            b == spec_param_valid_for(self@, msg_type),
    {
        let t = msg_type;
        match self {
            MessageParameter::AuthorizationToken { .. } => t == ControlMessageType::Publish || t
                == ControlMessageType::Subscribe || t == ControlMessageType::RequestUpdate || t
                == ControlMessageType::SubscribeNamespace || t
                == ControlMessageType::SubscribeTracks || t == ControlMessageType::PublishNamespace
                || t == ControlMessageType::TrackStatus || t == ControlMessageType::Fetch,
            MessageParameter::ObjectDeliveryTimeout { .. }
            | MessageParameter::SubgroupDeliveryTimeout { .. } => t == ControlMessageType::PublishOk
                || t == ControlMessageType::RequestOk || t == ControlMessageType::Subscribe || t
                == ControlMessageType::RequestUpdate,
            MessageParameter::RendezvousTimeout { .. } => t == ControlMessageType::Subscribe,
            MessageParameter::FillTimeout { .. } => t == ControlMessageType::Fetch,
            MessageParameter::SubscriberPriority { .. } => t == ControlMessageType::Subscribe || t
                == ControlMessageType::Fetch || t == ControlMessageType::RequestUpdate || t
                == ControlMessageType::PublishOk || t == ControlMessageType::RequestOk,
            MessageParameter::GroupOrder { .. } => t == ControlMessageType::Subscribe || t
                == ControlMessageType::PublishOk || t == ControlMessageType::Fetch || t
                == ControlMessageType::SubscribeOk || t == ControlMessageType::FetchOk || t
                == ControlMessageType::Publish || t == ControlMessageType::RequestOk,
            MessageParameter::SubscriptionFilter { .. } => t == ControlMessageType::Subscribe || t
                == ControlMessageType::PublishOk || t == ControlMessageType::RequestOk || t
                == ControlMessageType::RequestUpdate,
            MessageParameter::Expires { .. } => t == ControlMessageType::SubscribeOk || t
                == ControlMessageType::Publish || t == ControlMessageType::PublishOk || t
                == ControlMessageType::RequestOk,
            MessageParameter::LargestObject { .. } => t == ControlMessageType::SubscribeOk || t
                == ControlMessageType::Publish || t == ControlMessageType::FetchOk || t
                == ControlMessageType::RequestOk,
            MessageParameter::Forward { .. } => t == ControlMessageType::Subscribe || t
                == ControlMessageType::RequestUpdate || t == ControlMessageType::Publish || t
                == ControlMessageType::PublishOk || t == ControlMessageType::RequestOk || t
                == ControlMessageType::SubscribeNamespace || t
                == ControlMessageType::SubscribeTracks,
            MessageParameter::NewGroupRequest { .. } => t == ControlMessageType::PublishOk || t
                == ControlMessageType::RequestOk || t == ControlMessageType::Subscribe || t
                == ControlMessageType::RequestUpdate,
        }
    }

    /// The pair this parameter is written as.
    pub fn to_kvp(&self) -> (r: Result<KeyValuePair, ParseError>)
        ensures
            match r {
                Ok(k) => spec_param_pair(self@) == Ok::<KvpView, ErrorKind>(k@),
                Err(e) => spec_param_pair(self@) == Err::<KvpView, ErrorKind>(e.kind()),
            },
    {
        let t = self.type_value();
        match self {
            MessageParameter::ObjectDeliveryTimeout { timeout } => KeyValuePair::try_new_varint(
                t,
                *timeout,
            ),
            MessageParameter::SubgroupDeliveryTimeout { timeout } => KeyValuePair::try_new_varint(
                t,
                *timeout,
            ),
            MessageParameter::RendezvousTimeout { timeout } => KeyValuePair::try_new_varint(
                t,
                *timeout,
            ),
            MessageParameter::FillTimeout { timeout } => KeyValuePair::try_new_varint(t, *timeout),
            MessageParameter::Expires { expires } => KeyValuePair::try_new_varint(t, *expires),
            MessageParameter::NewGroupRequest { group } => KeyValuePair::try_new_varint(t, *group),
            MessageParameter::Forward { forward } => KeyValuePair::try_new_varint(
                t,
                if *forward {
                    1
                } else {
                    0
                },
            ),
            MessageParameter::SubscriberPriority { priority } => KeyValuePair::try_new_varint(
                t,
                *priority as u64,
            ),
            MessageParameter::GroupOrder { order } => KeyValuePair::try_new_varint(
                t,
                order.value() as u64,
            ),
            MessageParameter::AuthorizationToken { token } => {
                let payload = token.serialize()?;
                KeyValuePair::try_new_bytes(t, payload)
            },
            MessageParameter::LargestObject { location } => {
                let mut buf: Vec<u8> = Vec::new();
                location.push_serialized(&mut buf);
                proof {
                    crate::model::common::varint::lemma_vi_encode_len(location.group);
                    crate::model::common::varint::lemma_vi_encode_len(location.object);
                    assert(buf@ =~= spec_serialize_location(*location));
                }
                KeyValuePair::try_new_bytes(t, bytes_from_vec(buf))
            },
            MessageParameter::SubscriptionFilter { filter_type, start_location, end_group } => {
                let buf = filter_bytes(*filter_type, *start_location, *end_group);
                KeyValuePair::try_new_bytes(t, bytes_from_vec(buf))
            },
        }
    }

    /// Serializes this parameter as a pair with its type written whole.
    pub fn serialize(&self) -> (r: Result<Bytes, ParseError>)
        ensures
            match r {
                Ok(b) => spec_param_pair(self@) is Ok && crate::model::common::pair::spec_serialize_delta(
                    spec_param_pair(self@)->Ok_0,
                    0,
                ) == Ok::<Seq<u8>, ErrorKind>(bytes_view(b)),
                Err(e) => spec_param_pair(self@) == Err::<KvpView, ErrorKind>(e.kind()),
            },
    {
        let kvp = self.to_kvp()?;
        let r = kvp.serialize();
        proof {
            crate::model::extension_header::immutable::lemma_kvp_bytes_is_delta_from_zero(kvp@);
        }
        r
    }

    /// The parameter a pair stands for.
    pub fn deserialize(kvp: &KeyValuePair) -> (r: Result<Self, ParseError>)
        ensures
            match r {
                Ok(p) => spec_param_of(kvp@) == Ok::<MessageParameterView, ErrorKind>(p@),
                Err(e) => spec_param_of(kvp@) == Err::<MessageParameterView, ErrorKind>(e.kind()),
            },
    {
        match kvp {
            KeyValuePair::VarInt { type_value, value } => {
                let param_type = match MessageParameterType::try_from(*type_value) {
                    Ok(t) => t,
                    Err(_) => {
                        return Err(
                            ParseError::ProtocolViolation {
                                context: "MessageParameter::deserialize: unknown message parameter type",
                            },
                        );
                    },
                };
                let v = *value;
                match param_type {
                    MessageParameterType::ObjectDeliveryTimeout => Ok(
                        MessageParameter::ObjectDeliveryTimeout { timeout: v },
                    ),
                    MessageParameterType::SubgroupDeliveryTimeout => Ok(
                        MessageParameter::SubgroupDeliveryTimeout { timeout: v },
                    ),
                    MessageParameterType::RendezvousTimeout => Ok(
                        MessageParameter::RendezvousTimeout { timeout: v },
                    ),
                    MessageParameterType::FillTimeout => Ok(
                        MessageParameter::FillTimeout { timeout: v },
                    ),
                    MessageParameterType::Expires => Ok(MessageParameter::Expires { expires: v }),
                    MessageParameterType::Forward => {
                        if v == 0 {
                            Ok(MessageParameter::Forward { forward: false })
                        } else if v == 1 {
                            Ok(MessageParameter::Forward { forward: true })
                        } else {
                            Err(
                                ParseError::ProtocolViolation {
                                    context: "MessageParameter::deserialize: FORWARD must be 0 or 1",
                                },
                            )
                        }
                    },
                    MessageParameterType::SubscriberPriority => {
                        if v > 255 {
                            return Err(
                                ParseError::ProtocolViolation {
                                    context: "MessageParameter::deserialize: SUBSCRIBER_PRIORITY must be 0-255",
                                },
                            );
                        }
                        Ok(MessageParameter::SubscriberPriority { priority: v as u8 })
                    },
                    MessageParameterType::GroupOrder => {
                        if v == 0 {
                            Ok(MessageParameter::GroupOrder { order: GroupOrder::Original })
                        } else if v == 1 {
                            Ok(MessageParameter::GroupOrder { order: GroupOrder::Ascending })
                        } else if v == 2 {
                            Ok(MessageParameter::GroupOrder { order: GroupOrder::Descending })
                        } else {
                            Err(
                                ParseError::ProtocolViolation {
                                    context: "MessageParameter::deserialize: GROUP_ORDER must be 0, 1 or 2",
                                },
                            )
                        }
                    },
                    MessageParameterType::NewGroupRequest => Ok(
                        MessageParameter::NewGroupRequest { group: v },
                    ),
                    _ => Err(
                        ParseError::ProtocolViolation {
                            context: "MessageParameter::deserialize: bytes-typed parameter received as varint",
                        },
                    ),
                }
            },
            KeyValuePair::Bytes { type_value, value } => {
                let param_type = match MessageParameterType::try_from(*type_value) {
                    Ok(t) => t,
                    Err(_) => {
                        return Err(
                            ParseError::ProtocolViolation {
                                context: "MessageParameter::deserialize: unknown message parameter type",
                            },
                        );
                    },
                };
                match param_type {
                    MessageParameterType::AuthorizationToken => {
                        let mut payload = value.clone();
                        let token = AuthorizationToken::deserialize(&mut payload)?;
                        Ok(MessageParameter::AuthorizationToken { token })
                    },
                    MessageParameterType::LargestObject => {
                        let mut payload = value.clone();
                        let location = Location::deserialize(&mut payload)?;
                        Ok(MessageParameter::LargestObject { location })
                    },
                    MessageParameterType::SubscriptionFilter => read_filter(value.clone()),
                    _ => Err(
                        ParseError::ProtocolViolation {
                            context: "MessageParameter::deserialize: varint-typed parameter received as bytes",
                        },
                    ),
                }
            },
        }
    }

    /// A parameter holding the same values.
    pub fn duplicate(&self) -> (r: Self)
        ensures
            r@ == self@,
    {
        match self {
            MessageParameter::AuthorizationToken { token } => MessageParameter::AuthorizationToken {
                token: token.duplicate(),
            },
            MessageParameter::ObjectDeliveryTimeout { timeout } => MessageParameter::ObjectDeliveryTimeout {
                timeout: *timeout,
            },
            MessageParameter::SubgroupDeliveryTimeout { timeout } => MessageParameter::SubgroupDeliveryTimeout {
                timeout: *timeout,
            },
            MessageParameter::RendezvousTimeout { timeout } => MessageParameter::RendezvousTimeout {
                timeout: *timeout,
            },
            MessageParameter::FillTimeout { timeout } => MessageParameter::FillTimeout {
                timeout: *timeout,
            },
            MessageParameter::Expires { expires } => MessageParameter::Expires { expires: *expires },
            MessageParameter::LargestObject { location } => MessageParameter::LargestObject {
                location: *location,
            },
            MessageParameter::Forward { forward } => MessageParameter::Forward { forward: *forward },
            MessageParameter::SubscriberPriority { priority } => MessageParameter::SubscriberPriority {
                priority: *priority,
            },
            MessageParameter::GroupOrder { order } => MessageParameter::GroupOrder { order: *order },
            MessageParameter::SubscriptionFilter { filter_type, start_location, end_group } =>
                MessageParameter::SubscriptionFilter {
                filter_type: *filter_type,
                start_location: *start_location,
                end_group: *end_group,
            },
            MessageParameter::NewGroupRequest { group } => MessageParameter::NewGroupRequest {
                group: *group,
            },
        }
    }
}


/// Reads the value of a parameter whose type is known.
fn read_param_value(bytes: &mut Bytes, type_value: u64) -> (r: Result<KeyValuePair, ParseError>)
    ensures
        match r {
            Ok(k) => spec_read_param_value(bytes_view(*old(bytes)), type_value) == Ok::<
                (KvpView, Seq<u8>),
                ErrorKind,
            >((k@, bytes_view(*final(bytes)))),
            Err(e) => spec_read_param_value(bytes_view(*old(bytes)), type_value) == Err::<
                (KvpView, Seq<u8>),
                ErrorKind,
            >(e.kind()),
        },
{
    if type_value == 0x10 || type_value == 0x20 || type_value == 0x22 {
        // These carry a single uint8; their even types would otherwise call
        // for a varint and desync on any value of 64 or more.
        if bytes_len(bytes) < 1 {
            return Err(
                ParseError::NotEnoughBytes {
                    context: "deserialize_message_parameters(uint8 value)",
                    needed: 1,
                    available: 0,
                },
            );
        }
        let b = bytes_get_u8(bytes);
        Ok(KeyValuePair::VarInt { type_value, value: b as u64 })
    } else {
        KeyValuePair::deserialize_value(bytes, type_value)
    }
}

/// Reads `count` parameters for a message of type `msg_type`. An unknown
/// parameter type, or a known one the message does not allow, is a protocol
/// violation.
pub fn deserialize_message_parameters(bytes: &mut Bytes, count: u64, msg_type: ControlMessageType) -> (r:
    Result<Vec<MessageParameter>, ParseError>)
    ensures
        match r {
            Ok(v) => spec_read_message_parameters(bytes_view(*old(bytes)), count as nat, 0, msg_type)
                == Ok::<(Seq<MessageParameterView>, Seq<u8>), ErrorKind>(
                (params_view(v@), bytes_view(*final(bytes))),
            ),
            Err(e) => spec_read_message_parameters(bytes_view(*old(bytes)), count as nat, 0, msg_type)
                == Err::<(Seq<MessageParameterView>, Seq<u8>), ErrorKind>(e.kind()),
        },
{
    let ghost orig = bytes_view(*bytes);
    let mut params: Vec<MessageParameter> = Vec::new();
    let mut prev_type: u64 = 0;
    let mut i: u64 = 0;
    proof {
        assert(params_view(params@) =~= Seq::<MessageParameterView>::empty());
        assert forall|ps: Seq<MessageParameterView>| #[trigger] (params_view(params@) + ps) =~= ps by {}
    }
    while i < count
        invariant
            i <= count,
            orig == bytes_view(*old(bytes)),
            spec_read_message_parameters(orig, count as nat, 0, msg_type) == (
            match spec_read_message_parameters(bytes_view(*bytes), (count - i) as nat, prev_type, msg_type) {
                Ok((ps, r)) => Ok::<(Seq<MessageParameterView>, Seq<u8>), ErrorKind>(
                    (params_view(params@) + ps, r),
                ),
                Err(e) => Err(e),
            }),
        decreases count - i,
    {
        let ghost cur = bytes_view(*bytes);
        let ghost n = (count - i) as nat;
        let delta_type = match bytes.get_vi() {
            Ok(d) => d,
            Err(e) => {
                proof {
                    assert(spec_read_message_parameters(cur, n, prev_type, msg_type) == Err::<
                        (Seq<MessageParameterView>, Seq<u8>),
                        ErrorKind,
                    >(e.kind()));
                }
                return Err(e);
            },
        };
        if delta_type > u64::MAX - prev_type {
            proof {
                assert(spec_read_message_parameters(cur, n, prev_type, msg_type) == Err::<
                    (Seq<MessageParameterView>, Seq<u8>),
                    ErrorKind,
                >(ErrorKind::ProtocolViolation));
            }
            return Err(
                ParseError::ProtocolViolation {
                    context: "deserialize_message_parameters: previous type plus delta type exceeds 2^64 - 1",
                },
            );
        }
        let type_value = prev_type + delta_type;
        let ghost after_type = bytes_view(*bytes);
        let kvp = match read_param_value(bytes, type_value) {
            Ok(k) => k,
            Err(e) => {
                proof {
                    assert(spec_read_message_parameters(cur, n, prev_type, msg_type) == Err::<
                        (Seq<MessageParameterView>, Seq<u8>),
                        ErrorKind,
                    >(e.kind()));
                }
                return Err(e);
            },
        };
        let param = match MessageParameter::deserialize(&kvp) {
            Ok(p) => p,
            Err(e) => {
                proof {
                    assert(spec_read_message_parameters(cur, n, prev_type, msg_type) == Err::<
                        (Seq<MessageParameterView>, Seq<u8>),
                        ErrorKind,
                    >(e.kind()));
                }
                return Err(e);
            },
        };
        if !param.is_valid_for(msg_type) {
            proof {
                assert(spec_read_message_parameters(cur, n, prev_type, msg_type) == Err::<
                    (Seq<MessageParameterView>, Seq<u8>),
                    ErrorKind,
                >(ErrorKind::ProtocolViolation));
            }
            return Err(
                ParseError::ProtocolViolation {
                    context: "deserialize_message_parameters: parameter type is not allowed in this message",
                },
            );
        }
        let ghost before = params_view(params@);
        params.push(param);
        proof {
            assert(params_view(params@) =~= before.push(param@));
            assert forall|ps: Seq<MessageParameterView>| #[trigger] (before + (seq![param@] + ps))
                =~= params_view(params@) + ps by {}
            assert((n - 1) as nat == (count - (i + 1)) as nat);
        }
        prev_type = type_value;
        i = i + 1;
    }
    proof {
        assert(params_view(params@) + Seq::<MessageParameterView>::empty() =~= params_view(params@));
    }
    Ok(params)
}

/// Serializes parameters into delta-encoded wire bytes, ready to append to a
/// message payload. The pairs are sorted by ascending type first (stable),
/// since a type delta cannot represent a decrease.
pub fn serialize_message_parameters(params: &[MessageParameter]) -> (r: Result<Bytes, ParseError>)
    ensures
        match r {
            Ok(b) => spec_serialize_message_parameters(params_view(params@)) == Ok::<Seq<u8>, ErrorKind>(
                bytes_view(b),
            ),
            Err(e) => spec_serialize_message_parameters(params_view(params@)) == Err::<
                Seq<u8>,
                ErrorKind,
            >(e.kind()),
        },
{
    let ghost all = params_view(params@);
    let mut kvps: Vec<KeyValuePair> = Vec::new();
    let mut i: usize = 0;
    proof {
        assert(all.take(0) =~= Seq::<MessageParameterView>::empty());
        assert(kvps_view(kvps@) =~= Seq::<KvpView>::empty());
    }
    while i < params.len()
        invariant
            i <= params@.len(),
            all == params_view(params@),
            spec_param_pairs(all.take(i as int)) == Ok::<Seq<KvpView>, ErrorKind>(kvps_view(kvps@)),
        decreases params.len() - i,
    {
        proof {
            assert(all.take(i + 1).drop_last() =~= all.take(i as int));
            assert(all.take(i + 1).last() == all[i as int]);
        }
        let k = match params[i].to_kvp() {
            Ok(k) => k,
            Err(e) => {
                proof {
                    lemma_param_pairs_prefix_fails(all, i as int);
                }
                return Err(e);
            },
        };
        let ghost before = kvps_view(kvps@);
        kvps.push(k);
        proof {
            assert(kvps_view(kvps@) =~= before.push(k@));
        }
        i = i + 1;
    }
    proof {
        assert(all.take(params@.len() as int) =~= all);
    }
    let sorted = crate::model::common::pair::sorted_by_type(kvps.as_slice());
    let ghost ks = kvps_view(sorted@);
    let mut out: Vec<u8> = Vec::new();
    let mut prev_type: u64 = 0;
    let mut j: usize = 0;
    proof {
        assert(ks.skip(0) =~= ks);
        assert forall|x: Seq<u8>| #[trigger] (out@ + x) =~= x by {}
    }
    while j < sorted.len()
        invariant
            j <= sorted@.len(),
            ks == kvps_view(sorted@),
            ks.len() == sorted@.len(),
            spec_serialize_message_parameters(params_view(params@)) == spec_write_param_pairs(ks, 0),
            spec_write_param_pairs(ks, 0) == (match spec_write_param_pairs(ks.skip(j as int), prev_type) {
                Ok(rest) => Ok::<Seq<u8>, ErrorKind>(out@ + rest),
                Err(e) => Err(e),
            }),
        decreases sorted.len() - j,
    {
        let ghost tail = ks.skip(j as int);
        let ghost before = out@;
        proof {
            assert(tail[0] == ks[j as int]);
            assert(tail.skip(1) =~= ks.skip(j + 1));
            assert(ks[j as int] == sorted@[j as int]@);
        }
        let type_value = sorted[j].get_type();
        if type_value < prev_type {
            proof {
                assert(spec_write_param_pairs(tail, prev_type) == Err::<Seq<u8>, ErrorKind>(
                    ErrorKind::ProtocolViolation,
                ));
            }
            return Err(
                ParseError::ProtocolViolation {
                    context: "serialize_message_parameters: type is less than previous type",
                },
            );
        }
        push_vi(&mut out, type_value - prev_type);
        match &sorted[j] {
            KeyValuePair::VarInt { value, .. } => {
                if type_value == 0x10 || type_value == 0x20 || type_value == 0x22 {
                    if *value > 255 {
                        proof {
                            assert(spec_write_param_pairs(tail, prev_type) == Err::<Seq<u8>, ErrorKind>(
                                ErrorKind::ProtocolViolation,
                            ));
                        }
                        return Err(
                            ParseError::ProtocolViolation {
                                context: "serialize_message_parameters: uint8 parameter value exceeds 255",
                            },
                        );
                    }
                    out.push(*value as u8);
                } else {
                    push_vi(&mut out, *value);
                }
            },
            KeyValuePair::Bytes { value, .. } => {
                let data = crate::buf::bytes_as_slice(value);
                push_vi(&mut out, data.len() as u64);
                out.extend_from_slice(data);
            },
        }
        proof {
            let v = spec_param_value_bytes(ks[j as int])->Ok_0;
            assert(out@ =~= before + (spec_vi_encode((type_value - prev_type) as u64) + v));
            assert forall|rest: Seq<u8>| #[trigger] (before + (spec_vi_encode(
                (type_value - prev_type) as u64,
            ) + v + rest)) =~= out@ + rest by {}
        }
        prev_type = type_value;
        j = j + 1;
    }
    proof {
        assert(ks.skip(sorted@.len() as int) =~= Seq::<KvpView>::empty());
        assert(out@ + Seq::<u8>::empty() =~= out@);
    }
    Ok(bytes_from_vec(out))
}

/// When the pairs of the parameters before `i` are written and the one at
/// `i` cannot be, the whole list fails the same way.
proof fn lemma_param_pairs_prefix_fails(all: Seq<MessageParameterView>, i: int)
    requires
        0 <= i < all.len(),
        spec_param_pairs(all.take(i)) is Ok,
        spec_param_pair(all[i]) is Err,
    ensures
        spec_param_pairs(all) == Err::<Seq<KvpView>, ErrorKind>(spec_param_pair(all[i])->Err_0),
    decreases all.len(),
{
    if i == all.len() - 1 {
        assert(all.drop_last() =~= all.take(i));
    } else {
        assert(all.drop_last().take(i) =~= all.take(i));
        assert(all.drop_last()[i] == all[i]);
        lemma_param_pairs_prefix_fails(all.drop_last(), i);
    }
}


/// The position of the first parameter of wire type `t`, if there is one.
pub open spec fn spec_first_of_type(ps: Seq<MessageParameterView>, t: u64) -> Option<int> {
    if exists|i: int|
        0 <= i < ps.len() && spec_param_type(#[trigger] ps[i]) == t && forall|k: int|
            0 <= k < i ==> spec_param_type(#[trigger] ps[k]) != t {
        Some(
            choose|i: int|
                0 <= i < ps.len() && spec_param_type(#[trigger] ps[i]) == t && forall|k: int|
                    0 <= k < i ==> spec_param_type(#[trigger] ps[k]) != t,
        )
    } else {
        None
    }
}

/// `p` put in place of the first parameter of its type, or appended when
/// there is none.
pub open spec fn spec_set_param(ps: Seq<MessageParameterView>, p: MessageParameterView) -> Seq<
    MessageParameterView,
> {
    match spec_first_of_type(ps, spec_param_type(p)) {
        Some(i) => ps.update(i, p),
        None => ps.push(p),
    }
}

/// Each update in turn put in place of the parameter of its type, or appended.
pub open spec fn spec_apply_updates(
    current: Seq<MessageParameterView>,
    updates: Seq<MessageParameterView>,
) -> Seq<MessageParameterView>
    decreases updates.len(),
{
    if updates.len() == 0 {
        current
    } else {
        spec_set_param(spec_apply_updates(current, updates.drop_last()), updates.last())
    }
}

/// The first parameter of type `t` sits at `i` when it has that type and no
/// parameter before it does.
proof fn lemma_first_of_type_at(ps: Seq<MessageParameterView>, t: u64, i: int)
    requires
        0 <= i < ps.len(),
        spec_param_type(ps[i]) == t,
        forall|k: int| 0 <= k < i ==> spec_param_type(#[trigger] ps[k]) != t,
    ensures
        spec_first_of_type(ps, t) == Some(i),
{
    let j = choose|j: int|
        0 <= j < ps.len() && spec_param_type(#[trigger] ps[j]) == t && forall|k: int|
            0 <= k < j ==> spec_param_type(#[trigger] ps[k]) != t;
    if j < i {
        assert(spec_param_type(ps[j]) != t);
    } else if j > i {
        assert(spec_param_type(ps[i]) != t);
    }
}

/// The position of the first parameter of wire type `t` in `ps`.
fn find_of_type(ps: &Vec<MessageParameter>, t: u64) -> (r: Option<usize>)
    ensures
        match r {
            Some(i) => spec_first_of_type(params_view(ps@), t) == Some(i as int),
            None => spec_first_of_type(params_view(ps@), t) is None,
        },
{
    let ghost v = params_view(ps@);
    let mut i: usize = 0;
    while i < ps.len()
        invariant
            i <= ps@.len(),
            v == params_view(ps@),
            forall|k: int| 0 <= k < i ==> spec_param_type(#[trigger] v[k]) != t,
        decreases ps.len() - i,
    {
        if ps[i].type_value() == t {
            proof {
                lemma_first_of_type_at(v, t, i as int);
            }
            return Some(i);
        }
        i = i + 1;
    }
    None
}

/// Puts `param` in place of the first parameter of its type, or appends it.
fn set_param_in(current: &mut Vec<MessageParameter>, param: MessageParameter)
    ensures
        params_view(final(current)@) == spec_set_param(params_view(old(current)@), param@),
{
    let ghost v = params_view(current@);
    match find_of_type(current, param.type_value()) {
        Some(i) => {
            current.set(i, param);
            proof {
                assert(params_view(current@) =~= v.update(i as int, param@));
            }
        },
        None => {
            current.push(param);
            proof {
                assert(params_view(current@) =~= v.push(param@));
            }
        },
    }
}

/// Applies parameter updates to an existing list: each replaces the
/// parameter of its type, or is appended. A parameter no update names is
/// unchanged.
pub fn apply_message_parameter_update(current: &mut Vec<MessageParameter>, updates: Vec<MessageParameter>)
    ensures
        params_view(final(current)@) == spec_apply_updates(
            params_view(old(current)@),
            params_view(updates@),
        ),
{
    let ghost start = params_view(current@);
    let ghost us = params_view(updates@);
    let mut i: usize = 0;
    proof {
        assert(us.take(0) =~= Seq::<MessageParameterView>::empty());
    }
    while i < updates.len()
        invariant
            i <= updates@.len(),
            us == params_view(updates@),
            params_view(current@) == spec_apply_updates(start, us.take(i as int)),
        decreases updates.len() - i,
    {
        let u = updates[i].duplicate();
        set_param_in(current, u);
        proof {
            assert(us.take(i + 1).drop_last() =~= us.take(i as int));
            assert(us.take(i + 1).last() == us[i as int]);
        }
        i = i + 1;
    }
    proof {
        assert(us.take(updates@.len() as int) =~= us);
    }
}

/// Getting and setting parameters by type.
pub trait MessageParameterVecExt {
    /// The first parameter of the given type, if any.
    fn get_param(&self, param_type: MessageParameterType) -> Option<&MessageParameter>;

    /// A copy of the first parameter of the given type, or `default` when
    /// there is none.
    fn get_param_or(&self, param_type: MessageParameterType, default: MessageParameter) -> MessageParameter;

    /// Inserts `param`, replacing the first parameter of the same type.
    fn set_param(&mut self, param: MessageParameter);
}

impl MessageParameterVecExt for Vec<MessageParameter> {
    fn get_param(&self, param_type: MessageParameterType) -> (r: Option<&MessageParameter>)
        ensures
            match spec_first_of_type(params_view(self@), param_type.spec_value()) {
                Some(i) => r matches Some(p) && p@ == params_view(self@)[i],
                None => r is None,
            },
    {
        match find_of_type(self, param_type.value()) {
            Some(i) => Some(&self[i]),
            None => None,
        }
    }

    fn get_param_or(&self, param_type: MessageParameterType, default: MessageParameter) -> (r:
        MessageParameter)
        ensures
            r@ == match spec_first_of_type(params_view(self@), param_type.spec_value()) {
                Some(i) => params_view(self@)[i],
                None => default@,
            },
    {
        match find_of_type(self, param_type.value()) {
            Some(i) => self[i].duplicate(),
            None => default,
        }
    }

    fn set_param(&mut self, param: MessageParameter)
        ensures
            params_view(final(self)@) == spec_set_param(params_view(old(self)@), param@),
    {
        set_param_in(self, param);
    }
}

/// After a parameter is set, the first parameter of its type is that parameter.
pub proof fn lemma_get_after_set(ps: Seq<MessageParameterView>, p: MessageParameterView)
    ensures
        spec_first_of_type(spec_set_param(ps, p), spec_param_type(p)) is Some,
        spec_set_param(ps, p)[spec_first_of_type(spec_set_param(ps, p), spec_param_type(p))->Some_0]
            == p,
{
    let t = spec_param_type(p);
    let r = spec_set_param(ps, p);
    match spec_first_of_type(ps, t) {
        Some(i) => {
            assert forall|k: int| 0 <= k < i implies spec_param_type(#[trigger] r[k]) != t by {
                assert(r[k] == ps[k]);
            }
            lemma_first_of_type_at(r, t, i);
        },
        None => {
            let n = ps.len() as int;
            assert forall|k: int| 0 <= k < n implies spec_param_type(#[trigger] r[k]) != t by {
                assert(r[k] == ps[k]);
                if spec_param_type(ps[k]) == t {
                    lemma_least_of_type_exists(ps, t, k);
                }
            }
            lemma_first_of_type_at(r, t, n);
        },
    }
}

/// If some parameter has type `t`, a first one does.
proof fn lemma_least_of_type_exists(ps: Seq<MessageParameterView>, t: u64, k: int)
    requires
        0 <= k < ps.len(),
        spec_param_type(ps[k]) == t,
    ensures
        spec_first_of_type(ps, t) is Some,
    decreases k,
{
    if exists|j: int| 0 <= j < k && spec_param_type(#[trigger] ps[j]) == t {
        let j = choose|j: int| 0 <= j < k && spec_param_type(#[trigger] ps[j]) == t;
        lemma_least_of_type_exists(ps, t, j);
    } else {
        lemma_first_of_type_at(ps, t, k);
    }
}

/// A parameter type that no update carries keeps its first parameter,
/// where it was.
pub proof fn lemma_update_keeps_other_types(
    current: Seq<MessageParameterView>,
    updates: Seq<MessageParameterView>,
    t: u64,
)
    requires
        forall|i: int| 0 <= i < updates.len() ==> spec_param_type(#[trigger] updates[i]) != t,
    ensures
        spec_first_of_type(spec_apply_updates(current, updates), t) == spec_first_of_type(current, t),
        spec_first_of_type(current, t) matches Some(i) ==> spec_apply_updates(current, updates)[i]
            == current[i],
    decreases updates.len(),
{
    if updates.len() > 0 {
        let us = updates.drop_last();
        assert forall|i: int| 0 <= i < us.len() implies spec_param_type(#[trigger] us[i]) != t by {
            assert(us[i] == updates[i]);
        }
        lemma_update_keeps_other_types(current, us, t);
        let mid = spec_apply_updates(current, us);
        let u = updates.last();
        assert(spec_param_type(u) != t);
        lemma_set_keeps_other_type(mid, u, t);
    }
}

proof fn lemma_set_keeps_other_type(ps: Seq<MessageParameterView>, p: MessageParameterView, t: u64)
    requires
        spec_param_type(p) != t,
    ensures
        spec_first_of_type(spec_set_param(ps, p), t) == spec_first_of_type(ps, t),
        spec_first_of_type(ps, t) matches Some(i) ==> spec_set_param(ps, p)[i] == ps[i],
{
    let r = spec_set_param(ps, p);
    assert(forall|k: int| 0 <= k < r.len() ==> (spec_param_type(#[trigger] r[k]) == t ==> (k
        < ps.len() && r[k] == ps[k])));
    match spec_first_of_type(ps, t) {
        Some(i) => {
            assert forall|k: int| 0 <= k < i implies spec_param_type(#[trigger] r[k]) != t by {
                if spec_param_type(r[k]) == t {
                    assert(r[k] == ps[k]);
                }
            }
            lemma_first_of_type_at(r, t, i);
        },
        None => {
            if spec_first_of_type(r, t) is Some {
                let i = spec_first_of_type(r, t)->Some_0;
                assert(spec_param_type(r[i]) == t);
                assert(r[i] == ps[i]);
                lemma_least_of_type_exists(ps, t, i);
            }
        },
    }
}


/// A parameter that reads back as itself: an authorization token is well
/// formed and short enough for a pair value, and a subscription filter
/// carries exactly the fields its type calls for, an absolute range not
/// ending before it starts.
pub open spec fn param_canonical(p: MessageParameterView) -> bool {
    match p {
        MessageParameterView::AuthorizationToken(t) => auth_token_wf(t) && spec_serialize_auth_token(
            t,
        )->Ok_0.len() <= MAX_VALUE_LENGTH,
        MessageParameterView::SubscriptionFilter(ft, start, end) => match ft {
            FilterType::AbsoluteStart => start is Some && end is None,
            FilterType::AbsoluteRange => start is Some && end is Some && end->Some_0
                >= start->Some_0.group,
            _ => start is None && end is None,
        },
        _ => true,
    }
}

proof fn lemma_filter_roundtrip(ft: FilterType, start: Option<Location>, end: Option<u64>)
    requires
        param_canonical(MessageParameterView::SubscriptionFilter(ft, start, end)),
    ensures
        spec_read_filter(spec_filter_bytes(ft, start, end)) == Ok::<MessageParameterView, ErrorKind>(
            MessageParameterView::SubscriptionFilter(ft, start, end),
        ),
{
    let head = spec_vi_encode(ft.spec_value());
    ft.lemma_codepoints(ft.spec_value());
    if ft == FilterType::AbsoluteStart {
        let l = start->Some_0;
        let body = spec_serialize_location(l);
        assert(spec_filter_bytes(ft, start, end) =~= head + body);
        lemma_vi_roundtrip(ft.spec_value(), body);
        lemma_location_roundtrip(l, Seq::empty());
        assert(body + Seq::<u8>::empty() =~= body);
    } else if ft == FilterType::AbsoluteRange {
        let l = start->Some_0;
        let e = end->Some_0;
        let d = (e - l.group) as u64;
        let tail = spec_vi_encode(d);
        let body = spec_serialize_location(l) + tail;
        assert(spec_filter_bytes(ft, start, end) =~= head + body);
        lemma_vi_roundtrip(ft.spec_value(), body);
        lemma_location_roundtrip(l, tail);
        lemma_vi_roundtrip(d, Seq::empty());
        assert(tail + Seq::<u8>::empty() =~= tail);
    } else {
        assert(spec_filter_bytes(ft, start, end) =~= head + Seq::<u8>::empty());
        lemma_vi_roundtrip(ft.spec_value(), Seq::empty());
    }
}

/// A canonical parameter is written as a well-formed pair that reads back
/// as the same parameter; its value bytes in a parameter list read back as
/// the pair.
pub proof fn lemma_param_roundtrip(p: MessageParameterView, rest: Seq<u8>)
    requires
        param_canonical(p),
    ensures
        spec_param_pair(p) is Ok,
        spec_param_pair(p)->Ok_0.wf(),
        spec_param_pair(p)->Ok_0.type_of() == spec_param_type(p),
        spec_param_of(spec_param_pair(p)->Ok_0) == Ok::<MessageParameterView, ErrorKind>(p),
        spec_param_value_bytes(spec_param_pair(p)->Ok_0) is Ok,
        spec_read_param_value(
            spec_param_value_bytes(spec_param_pair(p)->Ok_0)->Ok_0 + rest,
            spec_param_type(p),
        ) == Ok::<(KvpView, Seq<u8>), ErrorKind>((spec_param_pair(p)->Ok_0, rest)),
{
    let k = spec_param_pair(p)->Ok_0;
    let t = spec_param_type(p);
    match p {
        MessageParameterView::AuthorizationToken(tok) => {
            lemma_auth_token_roundtrip(tok);
            let b = spec_serialize_auth_token(tok)->Ok_0;
            lemma_bytes_value_roundtrip(t, b, rest);
        },
        MessageParameterView::LargestObject(l) => {
            lemma_location_roundtrip(l, Seq::empty());
            assert(spec_serialize_location(l) + Seq::<u8>::empty() =~= spec_serialize_location(l));
            crate::model::common::varint::lemma_vi_encode_len(l.group);
            crate::model::common::varint::lemma_vi_encode_len(l.object);
            lemma_bytes_value_roundtrip(t, spec_serialize_location(l), rest);
        },
        MessageParameterView::SubscriptionFilter(ft, start, end) => {
            lemma_filter_roundtrip(ft, start, end);
            lemma_filter_bytes_len(ft, start, end);
            lemma_bytes_value_roundtrip(t, spec_filter_bytes(ft, start, end), rest);
        },
        MessageParameterView::Forward(b) => {
            assert(seq![(if b { 1u64 } else { 0u64 }) as u8] + rest =~= seq![(if b { 1u8 } else { 0u8 })] + rest);
            assert((seq![(if b { 1u64 } else { 0u64 }) as u8] + rest).skip(1) =~= rest);
        },
        MessageParameterView::SubscriberPriority(v) => {
            assert((seq![(v as u64) as u8] + rest).skip(1) =~= rest);
        },
        MessageParameterView::GroupOrder(o) => {
            assert((seq![(o.spec_value() as u64) as u8] + rest).skip(1) =~= rest);
        },
        MessageParameterView::ObjectDeliveryTimeout(v) => {
            lemma_vi_roundtrip(v, rest);
        },
        MessageParameterView::SubgroupDeliveryTimeout(v) => {
            lemma_vi_roundtrip(v, rest);
        },
        MessageParameterView::RendezvousTimeout(v) => {
            lemma_vi_roundtrip(v, rest);
        },
        MessageParameterView::FillTimeout(v) => {
            lemma_vi_roundtrip(v, rest);
        },
        MessageParameterView::Expires(v) => {
            lemma_vi_roundtrip(v, rest);
        },
        MessageParameterView::NewGroupRequest(v) => {
            lemma_vi_roundtrip(v, rest);
        },
    }
}

proof fn lemma_filter_bytes_len(ft: FilterType, start: Option<Location>, end: Option<u64>)
    ensures
        spec_filter_bytes(ft, start, end).len() <= 36,
{
    let start_group: u64 = match start {
        Some(l) => l.group,
        None => 0,
    };
    crate::model::common::varint::lemma_vi_encode_len(ft.spec_value());
    if let Some(l) = start {
        crate::model::common::varint::lemma_vi_encode_len(l.group);
        crate::model::common::varint::lemma_vi_encode_len(l.object);
    }
    if let Some(eg) = end {
        crate::model::common::varint::lemma_vi_encode_len(
            if eg >= start_group {
                (eg - start_group) as u64
            } else {
                0
            },
        );
    }
}

/// A short byte string under an odd type reads back from its length prefix.
proof fn lemma_bytes_value_roundtrip(t: u64, b: Seq<u8>, rest: Seq<u8>)
    requires
        t % 2 == 1,
        !spec_is_uint8_param(t),
        b.len() <= MAX_VALUE_LENGTH,
    ensures
        spec_read_param_value(spec_vi_encode(b.len() as u64) + b + rest, t) == Ok::<
            (KvpView, Seq<u8>),
            ErrorKind,
        >((KvpView::Bytes { type_value: t, value: b }, rest)),
{
    lemma_vi_roundtrip(b.len() as u64, b + rest);
    assert(spec_vi_encode(b.len() as u64) + b + rest =~= spec_vi_encode(b.len() as u64) + (b
        + rest));
    assert((b + rest).take(b.len() as int) =~= b);
    assert((b + rest).skip(b.len() as int) =~= rest);
}


/// A pair standing for a canonical parameter that `msg` allows, and written
/// as that parameter's pair.
pub open spec fn pair_fits(k: KvpView, msg: ControlMessageType) -> bool {
    &&& spec_param_of(k) is Ok
    &&& param_canonical(spec_param_of(k)->Ok_0)
    &&& spec_param_valid_for(spec_param_of(k)->Ok_0, msg)
    &&& spec_param_pair(spec_param_of(k)->Ok_0) == Ok::<KvpView, ErrorKind>(k)
}

#[verifier::spinoff_prover]
#[verifier::rlimit(40)]
proof fn lemma_read_written_pairs(ks: Seq<KvpView>, prev: u64, msg: ControlMessageType, rest: Seq<u8>)
    requires
        types_ascending(ks),
        ks.len() > 0 ==> prev <= ks[0].type_of(),
        forall|i: int| 0 <= i < ks.len() ==> pair_fits(#[trigger] ks[i], msg),
    ensures
        spec_write_param_pairs(ks, prev) is Ok,
        ({
            let r = spec_read_message_parameters(
                spec_write_param_pairs(ks, prev)->Ok_0 + rest,
                ks.len(),
                prev,
                msg,
            );
            &&& r is Ok
            &&& r->Ok_0.1 == rest
            &&& r->Ok_0.0.len() == ks.len()
            &&& forall|i: int|
                0 <= i < ks.len() ==> spec_param_pair(#[trigger] r->Ok_0.0[i]) == Ok::<
                    KvpView,
                    ErrorKind,
                >(ks[i])
            &&& forall|i: int|
                0 <= i < ks.len() ==> spec_param_of(#[trigger] ks[i]) == Ok::<
                    MessageParameterView,
                    ErrorKind,
                >(r->Ok_0.0[i])
        }),
    decreases ks.len(),
{
    if ks.len() == 0 {
        assert(Seq::<u8>::empty() + rest =~= rest);
    } else {
        let k0 = ks[0];
        let t = ks.skip(1);
        assert(pair_fits(ks[0], msg));
        let p0 = spec_param_of(k0)->Ok_0;
        assert forall|i: int, j: int| 0 <= i <= j < t.len() implies t[i].type_of() <= t[j].type_of() by {
            assert(t[i] == ks[i + 1]);
            assert(t[j] == ks[j + 1]);
        }
        assert forall|i: int| 0 <= i < t.len() implies pair_fits(#[trigger] t[i], msg) by {
            assert(t[i] == ks[i + 1]);
        }
        if t.len() > 0 {
            assert(t[0] == ks[1]);
        }
        lemma_read_written_pairs(t, k0.type_of(), msg, rest);
        let wt = spec_write_param_pairs(t, k0.type_of())->Ok_0;
        lemma_param_roundtrip(p0, wt + rest);
        let v0 = spec_param_value_bytes(k0)->Ok_0;
        let d = (k0.type_of() - prev) as u64;
        lemma_vi_roundtrip(d, v0 + (wt + rest));
        let w = spec_write_param_pairs(ks, prev)->Ok_0;
        assert(w == spec_vi_encode(d) + v0 + wt);
        assert(w + rest =~= spec_vi_encode(d) + (v0 + (wt + rest)));
        assert(v0 + (wt + rest) =~= v0 + wt + rest);
        let inner = spec_read_message_parameters(wt + rest, t.len(), k0.type_of(), msg);
        assert((ks.len() - 1) as nat == t.len());
        let r = spec_read_message_parameters(w + rest, ks.len(), prev, msg);
        assert(r == Ok::<(Seq<MessageParameterView>, Seq<u8>), ErrorKind>(
            (seq![p0] + inner->Ok_0.0, rest),
        ));
        assert forall|i: int| 0 <= i < ks.len() implies spec_param_pair(
            #[trigger] r->Ok_0.0[i],
        ) == Ok::<KvpView, ErrorKind>(ks[i]) by {
            if i > 0 {
                assert(r->Ok_0.0[i] == inner->Ok_0.0[i - 1]);
                assert(ks[i] == t[i - 1]);
            }
        }
        assert forall|i: int| 0 <= i < ks.len() implies spec_param_of(#[trigger] ks[i]) == Ok::<
            MessageParameterView,
            ErrorKind,
        >(r->Ok_0.0[i]) by {
            if i > 0 {
                assert(r->Ok_0.0[i] == inner->Ok_0.0[i - 1]);
                assert(ks[i] == t[i - 1]);
            }
        }
    }
}

proof fn lemma_param_pairs_each(ps: Seq<MessageParameterView>)
    requires
        forall|i: int| 0 <= i < ps.len() ==> param_canonical(#[trigger] ps[i]),
    ensures
        spec_param_pairs(ps) is Ok,
        spec_param_pairs(ps)->Ok_0.len() == ps.len(),
        forall|i: int|
            0 <= i < ps.len() ==> spec_param_pair(#[trigger] ps[i]) == Ok::<KvpView, ErrorKind>(
                spec_param_pairs(ps)->Ok_0[i],
            ),
    decreases ps.len(),
{
    if ps.len() > 0 {
        let q = ps.drop_last();
        assert forall|i: int| 0 <= i < q.len() implies param_canonical(#[trigger] q[i]) by {
            assert(q[i] == ps[i]);
        }
        lemma_param_pairs_each(q);
        lemma_param_roundtrip(ps.last(), Seq::empty());
        assert forall|i: int| 0 <= i < ps.len() implies spec_param_pair(#[trigger] ps[i]) == Ok::<
            KvpView,
            ErrorKind,
        >(spec_param_pairs(ps)->Ok_0[i]) by {
            if i < q.len() {
                assert(q[i] == ps[i]);
            }
        }
    }
}

/// Canonical parameters that `msg` allows, written as a list, read back as
/// many parameters, leaving what follows untouched: the parameters read back
/// are written as the pairs that were written, in ascending type order.
pub proof fn lemma_message_parameters_roundtrip(
    ps: Seq<MessageParameterView>,
    msg: ControlMessageType,
    rest: Seq<u8>,
)
    requires
        forall|i: int|
            0 <= i < ps.len() ==> param_canonical(#[trigger] ps[i]) && spec_param_valid_for(
                ps[i],
                msg,
            ),
    ensures
        spec_serialize_message_parameters(ps) is Ok,
        ({
            let r = spec_read_message_parameters(
                spec_serialize_message_parameters(ps)->Ok_0 + rest,
                ps.len(),
                0,
                msg,
            );
            let sorted = sort_by_type(spec_param_pairs(ps)->Ok_0);
            &&& r is Ok
            &&& r->Ok_0.1 == rest
            &&& r->Ok_0.0.len() == ps.len()
            &&& forall|i: int|
                0 <= i < ps.len() ==> spec_param_pair(#[trigger] r->Ok_0.0[i]) == Ok::<
                    KvpView,
                    ErrorKind,
                >(sorted[i])
            &&& forall|i: int|
                0 <= i < ps.len() ==> spec_param_of(#[trigger] sorted[i]) == Ok::<
                    MessageParameterView,
                    ErrorKind,
                >(r->Ok_0.0[i])
        }),
{
    broadcast use vstd::seq_lib::group_to_multiset_ensures;

    lemma_param_pairs_each(ps);
    let pairs = spec_param_pairs(ps)->Ok_0;
    let sorted = sort_by_type(pairs);
    lemma_sort_by_type(pairs);
    assert forall|j: int| 0 <= j < sorted.len() implies pair_fits(#[trigger] sorted[j], msg) by {
        assert(sorted.contains(sorted[j]));
        assert(pairs.to_multiset().count(sorted[j]) > 0);
        assert(pairs.contains(sorted[j]));
        let i = choose|i: int| 0 <= i < pairs.len() && pairs[i] == sorted[j];
        lemma_param_roundtrip(ps[i], Seq::empty());
    }
    lemma_read_written_pairs(sorted, 0, msg, rest);
}


/// Parameters in ascending type order, canonical and allowed by `msg`, read
/// back exactly as they were written, leaving what follows untouched.
pub proof fn lemma_sorted_message_parameters_roundtrip(
    ps: Seq<MessageParameterView>,
    msg: ControlMessageType,
    rest: Seq<u8>,
)
    requires
        forall|i: int|
            0 <= i < ps.len() ==> param_canonical(#[trigger] ps[i]) && spec_param_valid_for(
                ps[i],
                msg,
            ),
        forall|i: int, j: int|
            0 <= i <= j < ps.len() ==> spec_param_type(ps[i]) <= spec_param_type(ps[j]),
    ensures
        spec_serialize_message_parameters(ps) is Ok,
        spec_read_message_parameters(
            spec_serialize_message_parameters(ps)->Ok_0 + rest,
            ps.len(),
            0,
            msg,
        ) == Ok::<(Seq<MessageParameterView>, Seq<u8>), ErrorKind>((ps, rest)),
{
    lemma_message_parameters_roundtrip(ps, msg, rest);
    lemma_param_pairs_each(ps);
    let pairs = spec_param_pairs(ps)->Ok_0;
    assert forall|i: int| 0 <= i < ps.len() implies #[trigger] pairs[i] == spec_param_pair(ps[i])->Ok_0
        && pairs[i].type_of() == spec_param_type(ps[i]) && spec_param_of(pairs[i]) == Ok::<
        MessageParameterView,
        ErrorKind,
    >(ps[i]) by {
        lemma_param_roundtrip(ps[i], Seq::empty());
    }
    assert forall|i: int, j: int| 0 <= i <= j < pairs.len() implies pairs[i].type_of()
        <= pairs[j].type_of() by {
        assert(pairs[i].type_of() == spec_param_type(ps[i]));
        assert(pairs[j].type_of() == spec_param_type(ps[j]));
    }
    crate::model::common::pair::lemma_sort_ascending_is_identity(pairs);
    let r = spec_read_message_parameters(
        spec_serialize_message_parameters(ps)->Ok_0 + rest,
        ps.len(),
        0,
        msg,
    );
    assert(r->Ok_0.0 =~= ps) by {
        assert forall|i: int| 0 <= i < ps.len() implies r->Ok_0.0[i] == ps[i] by {
            assert(spec_param_of(pairs[i]) == Ok::<MessageParameterView, ErrorKind>(r->Ok_0.0[i]));
        }
    }
}


/// The parameters as a message carries them: their count, then the list.
pub open spec fn spec_param_block(ps: Seq<MessageParameterView>) -> Result<Seq<u8>, ErrorKind> {
    match spec_serialize_message_parameters(ps) {
        Err(e) => Err(e),
        Ok(b) => Ok(spec_vi_encode(ps.len() as u64) + b),
    }
}

/// Reading a parameter count, then that many parameters for message `msg`.
pub open spec fn spec_read_param_block(s: Seq<u8>, msg: ControlMessageType) -> Result<
    (Seq<MessageParameterView>, Seq<u8>),
    ErrorKind,
> {
    match spec_get_vi(s) {
        Err(e) => Err(e),
        Ok((n, r)) => spec_read_message_parameters(r, n as nat, 0, msg),
    }
}

/// Appends the parameter count and the parameters.
pub fn push_param_block(out: &mut Vec<u8>, params: &[MessageParameter]) -> (r: Result<(), ParseError>)
    ensures
        match r {
            Ok(_) => spec_param_block(params_view(params@)) is Ok && final(out)@ == old(out)@
                + spec_param_block(params_view(params@))->Ok_0,
            Err(e) => spec_param_block(params_view(params@)) == Err::<Seq<u8>, ErrorKind>(e.kind()),
        },
{
    let body = serialize_message_parameters(params)?;
    push_vi(out, params.len() as u64);
    out.extend_from_slice(crate::buf::bytes_as_slice(&body));
    proof {
        assert(final(out)@ =~= old(out)@ + spec_param_block(params_view(params@))->Ok_0);
    }
    Ok(())
}

/// Reads a parameter count, then that many parameters for `msg_type`.
pub fn read_param_block(bytes: &mut Bytes, msg_type: ControlMessageType) -> (r: Result<
    Vec<MessageParameter>,
    ParseError,
>)
    ensures
        match r {
            Ok(v) => spec_read_param_block(bytes_view(*old(bytes)), msg_type) == Ok::<
                (Seq<MessageParameterView>, Seq<u8>),
                ErrorKind,
            >((params_view(v@), bytes_view(*final(bytes)))),
            Err(e) => spec_read_param_block(bytes_view(*old(bytes)), msg_type) == Err::<
                (Seq<MessageParameterView>, Seq<u8>),
                ErrorKind,
            >(e.kind()),
        },
{
    let count = bytes.get_vi()?;
    deserialize_message_parameters(bytes, count, msg_type)
}

/// Parameters fit to be carried whole by message `msg`: canonical, allowed
/// there, and already in ascending type order, as the wire form sorts them.
pub open spec fn params_fit(ps: Seq<MessageParameterView>, msg: ControlMessageType) -> bool {
    &&& forall|i: int| 0 <= i < ps.len() ==> param_canonical(#[trigger] ps[i]) && spec_param_valid_for(ps[i], msg)
    &&& forall|i: int, j: int| 0 <= i <= j < ps.len() ==> spec_param_type(ps[i]) <= spec_param_type(ps[j])
    &&& ps.len() <= u64::MAX
}

/// A parameter block of parameters fit for `msg` reads back exactly,
/// leaving what follows untouched.
pub proof fn lemma_param_block_roundtrip(ps: Seq<MessageParameterView>, msg: ControlMessageType, rest: Seq<u8>)
    requires
        params_fit(ps, msg),
    ensures
        spec_param_block(ps) is Ok,
        spec_read_param_block(spec_param_block(ps)->Ok_0 + rest, msg) == Ok::<
            (Seq<MessageParameterView>, Seq<u8>),
            ErrorKind,
        >((ps, rest)),
{
    lemma_sorted_message_parameters_roundtrip(ps, msg, rest);
    let b = spec_serialize_message_parameters(ps)->Ok_0;
    lemma_vi_roundtrip(ps.len() as u64, b + rest);
    assert(spec_param_block(ps)->Ok_0 + rest =~= spec_vi_encode(ps.len() as u64) + (b + rest));
}

/// Where each parameter may be carried. A canonical parameter written alone as
/// a parameter block reads back as itself, leaving what follows, in exactly
/// the control messages listed for it below; read in any other message it is
/// a protocol violation.
///
/// - AUTHORIZATION_TOKEN: PUBLISH, SUBSCRIBE, REQUEST_UPDATE, SUBSCRIBE_NAMESPACE,
///   SUBSCRIBE_TRACKS, PUBLISH_NAMESPACE, TRACK_STATUS, FETCH.
/// - Object and subgroup DELIVERY_TIMEOUT, SUBSCRIPTION_FILTER, NEW_GROUP_REQUEST:
///   SUBSCRIBE, PUBLISH_OK, REQUEST_OK, REQUEST_UPDATE.
/// - RENDEZVOUS_TIMEOUT: SUBSCRIBE. FILL_TIMEOUT: FETCH.
/// - SUBSCRIBER_PRIORITY: SUBSCRIBE, FETCH, REQUEST_UPDATE, PUBLISH_OK, REQUEST_OK.
/// - GROUP_ORDER: SUBSCRIBE, PUBLISH_OK, FETCH, SUBSCRIBE_OK, FETCH_OK, PUBLISH, REQUEST_OK.
/// - EXPIRES: SUBSCRIBE_OK, PUBLISH, PUBLISH_OK, REQUEST_OK.
/// - LARGEST_OBJECT: SUBSCRIBE_OK, PUBLISH, FETCH_OK, REQUEST_OK.
/// - FORWARD: SUBSCRIBE, REQUEST_UPDATE, PUBLISH, PUBLISH_OK, REQUEST_OK,
///   SUBSCRIBE_NAMESPACE, SUBSCRIBE_TRACKS.
pub proof fn lemma_param_carried_in(p: MessageParameterView, t: ControlMessageType, rest: Seq<u8>)
    requires
        param_canonical(p),
    ensures
        spec_param_block(seq![p]) is Ok,
        ({
            let accepted = match p {
                MessageParameterView::AuthorizationToken(_) => t == ControlMessageType::Publish
                    || t == ControlMessageType::Subscribe || t == ControlMessageType::RequestUpdate
                    || t == ControlMessageType::SubscribeNamespace || t
                    == ControlMessageType::SubscribeTracks || t == ControlMessageType::PublishNamespace
                    || t == ControlMessageType::TrackStatus || t == ControlMessageType::Fetch,
                MessageParameterView::ObjectDeliveryTimeout(_) | MessageParameterView::SubgroupDeliveryTimeout(
                    _,
                ) | MessageParameterView::SubscriptionFilter(..) | MessageParameterView::NewGroupRequest(
                    _,
                ) => t == ControlMessageType::Subscribe || t == ControlMessageType::PublishOk || t
                    == ControlMessageType::RequestOk || t == ControlMessageType::RequestUpdate,
                MessageParameterView::RendezvousTimeout(_) => t == ControlMessageType::Subscribe,
                MessageParameterView::FillTimeout(_) => t == ControlMessageType::Fetch,
                MessageParameterView::SubscriberPriority(_) => t == ControlMessageType::Subscribe || t
                    == ControlMessageType::Fetch || t == ControlMessageType::RequestUpdate || t
                    == ControlMessageType::PublishOk || t == ControlMessageType::RequestOk,
                MessageParameterView::GroupOrder(_) => t == ControlMessageType::Subscribe || t
                    == ControlMessageType::PublishOk || t == ControlMessageType::Fetch || t
                    == ControlMessageType::SubscribeOk || t == ControlMessageType::FetchOk || t
                    == ControlMessageType::Publish || t == ControlMessageType::RequestOk,
                MessageParameterView::Expires(_) => t == ControlMessageType::SubscribeOk || t
                    == ControlMessageType::Publish || t == ControlMessageType::PublishOk || t
                    == ControlMessageType::RequestOk,
                MessageParameterView::LargestObject(_) => t == ControlMessageType::SubscribeOk || t
                    == ControlMessageType::Publish || t == ControlMessageType::FetchOk || t
                    == ControlMessageType::RequestOk,
                MessageParameterView::Forward(_) => t == ControlMessageType::Subscribe || t
                    == ControlMessageType::RequestUpdate || t == ControlMessageType::Publish || t
                    == ControlMessageType::PublishOk || t == ControlMessageType::RequestOk || t
                    == ControlMessageType::SubscribeNamespace || t == ControlMessageType::SubscribeTracks,
            };
            spec_read_param_block(spec_param_block(seq![p])->Ok_0 + rest, t) == if accepted {
                Ok::<(Seq<MessageParameterView>, Seq<u8>), ErrorKind>((seq![p], rest))
            } else {
                Err::<(Seq<MessageParameterView>, Seq<u8>), ErrorKind>(ErrorKind::ProtocolViolation)
            }
        }),
{
    // A message that carries `p`, to learn how its block reads.
    let w = match p {
        MessageParameterView::FillTimeout(_) => ControlMessageType::Fetch,
        MessageParameterView::Expires(_) => ControlMessageType::SubscribeOk,
        MessageParameterView::LargestObject(_) => ControlMessageType::SubscribeOk,
        _ => ControlMessageType::Subscribe,
    };
    let ps = seq![p];
    assert(params_fit(ps, w));
    lemma_param_block_roundtrip(ps, w, rest);
    let s = spec_param_block(ps)->Ok_0 + rest;
    let (n, r) = spec_get_vi(s)->Ok_0;
    assert(spec_read_param_block(s, w) == spec_read_message_parameters(r, n as nat, 0, w));
    reveal_with_fuel(spec_read_message_parameters, 2);
    if spec_param_valid_for(p, t) {
        assert(params_fit(ps, t));
        lemma_param_block_roundtrip(ps, t, rest);
    }
}

} // verus!
