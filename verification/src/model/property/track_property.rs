//! Track-level properties, carried as a delta-encoded pair list.
use crate::buf::{bytes_view};
use crate::error::{ErrorKind, ParseError};
use crate::model::common::pair::{
    all_wf, deserialize_kvp_list_until_empty, lemma_sort_ascending_is_identity, kvps_view, lemma_kvp_list_roundtrip,
    lemma_sort_by_type, serialize_kvp_list, sort_by_type, spec_deserialize_kvps_until_empty,
    spec_serialize_delta, spec_serialize_kvps, types_ascending, KeyValuePair, KvpView,
    MAX_VALUE_LENGTH,
};
use crate::model::control::constant::GroupOrder;
use crate::model::extension_header::immutable::{kvp_bytes_value, kvp_varint_value};
use crate::model::property::constant::TrackPropertyType;
use bytes::Bytes;
use vstd::prelude::*;

verus! {

/// Typed representation of a MOQT track-level Property.
///
/// Unknown property types are preserved as raw pairs so that relays can
/// forward them unchanged (relays must not modify or drop unknown properties).
#[derive(Debug, Clone, PartialEq)]
pub enum TrackProperty {
    ObjectDeliveryTimeout { timeout_ms: u64 },
    SubgroupDeliveryTimeout { timeout_ms: u64 },
    MaxCacheDuration { duration_ms: u64 },
    ImmutableProperties { properties: Vec<KeyValuePair> },
    DefaultPublisherPriority { priority: u8 },
    DefaultPublisherGroupOrder { order: GroupOrder },
    DynamicGroups { enabled: bool },
    Unknown { kvp: KeyValuePair },
}

/// What a track property holds.
pub enum TrackPropertyView {
    ObjectDeliveryTimeout(u64),
    SubgroupDeliveryTimeout(u64),
    MaxCacheDuration(u64),
    ImmutableProperties(Seq<KvpView>),
    DefaultPublisherPriority(u8),
    DefaultPublisherGroupOrder(GroupOrder),
    DynamicGroups(bool),
    Unknown(KvpView),
}

impl View for TrackProperty {
    type V = TrackPropertyView;

    open spec fn view(&self) -> TrackPropertyView {
        match self {
            TrackProperty::ObjectDeliveryTimeout { timeout_ms } => TrackPropertyView::ObjectDeliveryTimeout(
                *timeout_ms,
            ),
            TrackProperty::SubgroupDeliveryTimeout { timeout_ms } => TrackPropertyView::SubgroupDeliveryTimeout(
                *timeout_ms,
            ),
            TrackProperty::MaxCacheDuration { duration_ms } => TrackPropertyView::MaxCacheDuration(
                *duration_ms,
            ),
            TrackProperty::ImmutableProperties { properties } => TrackPropertyView::ImmutableProperties(
                kvps_view(properties@),
            ),
            TrackProperty::DefaultPublisherPriority { priority } => TrackPropertyView::DefaultPublisherPriority(
                *priority,
            ),
            TrackProperty::DefaultPublisherGroupOrder { order } => TrackPropertyView::DefaultPublisherGroupOrder(
                *order,
            ),
            TrackProperty::DynamicGroups { enabled } => TrackPropertyView::DynamicGroups(*enabled),
            TrackProperty::Unknown { kvp } => TrackPropertyView::Unknown(kvp@),
        }
    }
}

pub open spec fn track_properties_view(ps: Seq<TrackProperty>) -> Seq<TrackPropertyView> {
    ps.map_values(|p: TrackProperty| p@)
}

/// The wire type of a track property.
pub open spec fn spec_track_property_type(p: TrackPropertyView) -> u64 {
    match p {
        TrackPropertyView::ObjectDeliveryTimeout(_) => TrackPropertyType::ObjectDeliveryTimeout.spec_value(),
        TrackPropertyView::SubgroupDeliveryTimeout(_) => TrackPropertyType::SubgroupDeliveryTimeout.spec_value(),
        TrackPropertyView::MaxCacheDuration(_) => TrackPropertyType::MaxCacheDuration.spec_value(),
        TrackPropertyView::ImmutableProperties(_) => TrackPropertyType::ImmutableProperties.spec_value(),
        TrackPropertyView::DefaultPublisherPriority(_) => TrackPropertyType::DefaultPublisherPriority.spec_value(),
        TrackPropertyView::DefaultPublisherGroupOrder(_) => TrackPropertyType::DefaultPublisherGroupOrder.spec_value(),
        TrackPropertyView::DynamicGroups(_) => TrackPropertyType::DynamicGroups.spec_value(),
        TrackPropertyView::Unknown(k) => k.type_of(),
    }
}

/// The pair a track property is written as. The Immutable Properties value is
/// the nested pairs as a sorted, delta-encoded list.
pub open spec fn spec_track_property_pair(p: TrackPropertyView) -> Result<KvpView, ErrorKind> {
    let t = spec_track_property_type(p);
    match p {
        TrackPropertyView::ObjectDeliveryTimeout(v) => Ok(KvpView::VarInt { type_value: t, value: v }),
        TrackPropertyView::SubgroupDeliveryTimeout(v) => Ok(KvpView::VarInt { type_value: t, value: v }),
        TrackPropertyView::MaxCacheDuration(v) => Ok(KvpView::VarInt { type_value: t, value: v }),
        TrackPropertyView::ImmutableProperties(ks) => match spec_serialize_kvps(sort_by_type(ks), 0) {
            Err(e) => Err(e),
            Ok(b) => if b.len() > MAX_VALUE_LENGTH {
                Err(ErrorKind::LengthExceedsMax)
            } else {
                Ok(KvpView::Bytes { type_value: t, value: b })
            },
        },
        TrackPropertyView::DefaultPublisherPriority(v) => Ok(
            KvpView::VarInt { type_value: t, value: v as u64 },
        ),
        TrackPropertyView::DefaultPublisherGroupOrder(o) => Ok(
            KvpView::VarInt { type_value: t, value: o.spec_value() as u64 },
        ),
        TrackPropertyView::DynamicGroups(b) => Ok(
            KvpView::VarInt {
                type_value: t,
                value: if b {
                    1
                } else {
                    0
                },
            },
        ),
        TrackPropertyView::Unknown(k) => Ok(k),
    }
}

/// Whether some pair of `ks` is itself an Immutable Properties pair.
pub open spec fn spec_has_nested_immutable(ks: Seq<KvpView>) -> bool {
    exists|i: int|
        0 <= i < ks.len() && (#[trigger] ks[i]).type_of()
            == TrackPropertyType::ImmutableProperties.spec_value()
}

/// The track property a pair stands for. Object-scope and unknown types are
/// kept as they came; a zero delivery timeout is valid and means none.
pub open spec fn spec_track_property_of(k: KvpView) -> Result<TrackPropertyView, ErrorKind> {
    match TrackPropertyType::spec_from_value(k.type_of()) {
        None => Ok(TrackPropertyView::Unknown(k)),
        Some(TrackPropertyType::PriorGroupIdGap) => Ok(TrackPropertyView::Unknown(k)),
        Some(TrackPropertyType::PriorObjectIdGap) => Ok(TrackPropertyView::Unknown(k)),
        Some(TrackPropertyType::ImmutableProperties) => match k {
            KvpView::Bytes { value, .. } => match spec_deserialize_kvps_until_empty(value, 0) {
                Err(e) => Err(e),
                Ok(ks) => if spec_has_nested_immutable(ks) {
                    Err(ErrorKind::ProtocolViolation)
                } else {
                    Ok(TrackPropertyView::ImmutableProperties(ks))
                },
            },
            KvpView::VarInt { .. } => Err(ErrorKind::ProtocolViolation),
        },
        Some(t) => match k {
            KvpView::Bytes { .. } => Err(ErrorKind::ProtocolViolation),
            KvpView::VarInt { value, .. } => match t {
                TrackPropertyType::ObjectDeliveryTimeout => Ok(
                    TrackPropertyView::ObjectDeliveryTimeout(value),
                ),
                TrackPropertyType::SubgroupDeliveryTimeout => Ok(
                    TrackPropertyView::SubgroupDeliveryTimeout(value),
                ),
                TrackPropertyType::MaxCacheDuration => Ok(TrackPropertyView::MaxCacheDuration(value)),
                TrackPropertyType::DefaultPublisherPriority => if value > 255 {
                    Err(ErrorKind::ProtocolViolation)
                } else {
                    Ok(TrackPropertyView::DefaultPublisherPriority(value as u8))
                },
                TrackPropertyType::DefaultPublisherGroupOrder => if value == 1 {
                    Ok(TrackPropertyView::DefaultPublisherGroupOrder(GroupOrder::Ascending))
                } else if value == 2 {
                    Ok(TrackPropertyView::DefaultPublisherGroupOrder(GroupOrder::Descending))
                } else {
                    Err(ErrorKind::ProtocolViolation)
                },
                _ => if value == 0 {
                    Ok(TrackPropertyView::DynamicGroups(false))
                } else if value == 1 {
                    Ok(TrackPropertyView::DynamicGroups(true))
                } else {
                    Err(ErrorKind::ProtocolViolation)
                },
            },
        },
    }
}

/// The pairs of a list of properties; the first that cannot be written wins.
pub open spec fn spec_track_property_pairs(ps: Seq<TrackPropertyView>) -> Result<
    Seq<KvpView>,
    ErrorKind,
>
    decreases ps.len(),
{
    if ps.len() == 0 {
        Ok(Seq::empty())
    } else {
        match spec_track_property_pairs(ps.drop_last()) {
            Err(e) => Err(e),
            Ok(ks) => match spec_track_property_pair(ps.last()) {
                Err(e) => Err(e),
                Ok(k) => Ok(ks.push(k)),
            },
        }
    }
}

/// The properties the pairs stand for; the first that fails wins.
pub open spec fn spec_track_properties_of(ks: Seq<KvpView>) -> Result<
    Seq<TrackPropertyView>,
    ErrorKind,
>
    decreases ks.len(),
{
    if ks.len() == 0 {
        Ok(Seq::empty())
    } else {
        match spec_track_properties_of(ks.drop_last()) {
            Err(e) => Err(e),
            Ok(ps) => match spec_track_property_of(ks.last()) {
                Err(e) => Err(e),
                Ok(p) => Ok(ps.push(p)),
            },
        }
    }
}

/// The wire form of a list of properties: their pairs, sorted by ascending
/// type (stable) and delta-encoded.
pub open spec fn spec_serialize_track_properties(ps: Seq<TrackPropertyView>) -> Result<
    Seq<u8>,
    ErrorKind,
> {
    match spec_track_property_pairs(ps) {
        Err(e) => Err(e),
        Ok(ks) => spec_serialize_kvps(sort_by_type(ks), 0),
    }
}

/// Reading properties until the bytes run out.
pub open spec fn spec_read_track_properties(s: Seq<u8>) -> Result<Seq<TrackPropertyView>, ErrorKind> {
    match spec_deserialize_kvps_until_empty(s, 0) {
        Err(e) => Err(e),
        Ok(ks) => spec_track_properties_of(ks),
    }
}

impl TrackProperty {
    /// The raw wire type of this property.
    pub fn type_value(&self) -> (t: u64)
        ensures
            t == spec_track_property_type(self@),
    {
        match self {
            TrackProperty::ObjectDeliveryTimeout { .. } => TrackPropertyType::ObjectDeliveryTimeout.value(),
            TrackProperty::SubgroupDeliveryTimeout { .. } => TrackPropertyType::SubgroupDeliveryTimeout.value(),
            TrackProperty::MaxCacheDuration { .. } => TrackPropertyType::MaxCacheDuration.value(),
            TrackProperty::ImmutableProperties { .. } => TrackPropertyType::ImmutableProperties.value(),
            TrackProperty::DefaultPublisherPriority { .. } => TrackPropertyType::DefaultPublisherPriority.value(),
            TrackProperty::DefaultPublisherGroupOrder { .. } => TrackPropertyType::DefaultPublisherGroupOrder.value(),
            TrackProperty::DynamicGroups { .. } => TrackPropertyType::DynamicGroups.value(),
            TrackProperty::Unknown { kvp } => kvp.get_type(),
        }
    }

    /// The pair this property is written as.
    pub fn to_kvp(&self) -> (r: Result<KeyValuePair, ParseError>)
        ensures
            match r {
                Ok(k) => spec_track_property_pair(self@) == Ok::<KvpView, ErrorKind>(k@),
                Err(e) => spec_track_property_pair(self@) == Err::<KvpView, ErrorKind>(e.kind()),
            },
    {
        let t = self.type_value();
        match self {
            TrackProperty::ObjectDeliveryTimeout { timeout_ms } => KeyValuePair::try_new_varint(
                t,
                *timeout_ms,
            ),
            TrackProperty::SubgroupDeliveryTimeout { timeout_ms } => KeyValuePair::try_new_varint(
                t,
                *timeout_ms,
            ),
            TrackProperty::MaxCacheDuration { duration_ms } => KeyValuePair::try_new_varint(
                t,
                *duration_ms,
            ),
            TrackProperty::ImmutableProperties { properties } => {
                let b = serialize_kvp_list(properties.as_slice())?;
                KeyValuePair::try_new_bytes(t, b)
            },
            TrackProperty::DefaultPublisherPriority { priority } => KeyValuePair::try_new_varint(
                t,
                *priority as u64,
            ),
            TrackProperty::DefaultPublisherGroupOrder { order } => KeyValuePair::try_new_varint(
                t,
                order.value() as u64,
            ),
            TrackProperty::DynamicGroups { enabled } => KeyValuePair::try_new_varint(
                t,
                if *enabled {
                    1
                } else {
                    0
                },
            ),
            TrackProperty::Unknown { kvp } => Ok(kvp.duplicate()),
        }
    }

    /// Serializes this property as a pair with its type written whole.
    pub fn serialize(&self) -> (r: Result<Bytes, ParseError>)
        ensures
            match r {
                Ok(b) => spec_track_property_pair(self@) is Ok && spec_serialize_delta(
                    spec_track_property_pair(self@)->Ok_0,
                    0,
                ) == Ok::<Seq<u8>, ErrorKind>(bytes_view(b)),
                Err(e) => spec_track_property_pair(self@) == Err::<KvpView, ErrorKind>(e.kind()),
            },
    {
        let kvp = self.to_kvp()?;
        let r = kvp.serialize();
        proof {
            crate::model::extension_header::immutable::lemma_kvp_bytes_is_delta_from_zero(kvp@);
        }
        r
    }

    /// The track property a pair stands for; unknown types are kept as they
    /// came rather than refused.
    pub fn deserialize(kvp: KeyValuePair) -> (r: Result<Self, ParseError>)
        ensures
            match r {
                Ok(p) => spec_track_property_of(kvp@) == Ok::<TrackPropertyView, ErrorKind>(p@),
                Err(e) => spec_track_property_of(kvp@) == Err::<TrackPropertyView, ErrorKind>(
                    e.kind(),
                ),
            },
    {
        let ext_type = match TrackPropertyType::try_from(kvp.get_type()) {
            Ok(t) => t,
            Err(_) => {
                return Ok(TrackProperty::Unknown { kvp });
            },
        };
        match ext_type {
            TrackPropertyType::ObjectDeliveryTimeout => {
                let value = kvp_varint_value(&kvp)?;
                Ok(TrackProperty::ObjectDeliveryTimeout { timeout_ms: value })
            },
            TrackPropertyType::SubgroupDeliveryTimeout => {
                let value = kvp_varint_value(&kvp)?;
                Ok(TrackProperty::SubgroupDeliveryTimeout { timeout_ms: value })
            },
            TrackPropertyType::MaxCacheDuration => {
                let value = kvp_varint_value(&kvp)?;
                Ok(TrackProperty::MaxCacheDuration { duration_ms: value })
            },
            TrackPropertyType::ImmutableProperties => {
                let mut buf = kvp_bytes_value(&kvp)?;
                let properties = deserialize_kvp_list_until_empty(&mut buf)?;
                let ghost outcome = spec_track_property_of(kvp@);
                proof {
                    assert(outcome == (if spec_has_nested_immutable(kvps_view(properties@)) {
                        Err::<TrackPropertyView, ErrorKind>(ErrorKind::ProtocolViolation)
                    } else {
                        Ok(TrackPropertyView::ImmutableProperties(kvps_view(properties@)))
                    }));
                }
                let mut i: usize = 0;
                while i < properties.len()
                    invariant
                        i <= properties@.len(),
                        outcome == spec_track_property_of(kvp@),
                        outcome == (if spec_has_nested_immutable(kvps_view(properties@)) {
                            Err::<TrackPropertyView, ErrorKind>(ErrorKind::ProtocolViolation)
                        } else {
                            Ok(TrackPropertyView::ImmutableProperties(kvps_view(properties@)))
                        }),
                        forall|j: int|
                            0 <= j < i ==> (#[trigger] kvps_view(properties@)[j]).type_of()
                                != TrackPropertyType::ImmutableProperties.spec_value(),
                    decreases properties.len() - i,
                {
                    if properties[i].get_type() == TrackPropertyType::ImmutableProperties.value() {
                        proof {
                            assert(kvps_view(properties@)[i as int].type_of()
                                == TrackPropertyType::ImmutableProperties.spec_value());
                        }
                        return Err(
                            ParseError::ProtocolViolation {
                                context: "ImmutableProperties MUST NOT contain another ImmutableProperties key",
                            },
                        );
                    }
                    i = i + 1;
                }
                Ok(TrackProperty::ImmutableProperties { properties })
            },
            TrackPropertyType::DefaultPublisherPriority => {
                let value = kvp_varint_value(&kvp)?;
                if value > 255 {
                    return Err(
                        ParseError::ProtocolViolation {
                            context: "DEFAULT_PUBLISHER_PRIORITY must be 0-255",
                        },
                    );
                }
                Ok(TrackProperty::DefaultPublisherPriority { priority: value as u8 })
            },
            TrackPropertyType::DefaultPublisherGroupOrder => {
                let value = kvp_varint_value(&kvp)?;
                if value == 1 {
                    Ok(TrackProperty::DefaultPublisherGroupOrder { order: GroupOrder::Ascending })
                } else if value == 2 {
                    Ok(TrackProperty::DefaultPublisherGroupOrder { order: GroupOrder::Descending })
                } else {
                    Err(
                        ParseError::ProtocolViolation {
                            context: "DEFAULT_PUBLISHER_GROUP_ORDER must be 1 (Ascending) or 2 (Descending)",
                        },
                    )
                }
            },
            TrackPropertyType::DynamicGroups => {
                let value = kvp_varint_value(&kvp)?;
                if value == 0 {
                    Ok(TrackProperty::DynamicGroups { enabled: false })
                } else if value == 1 {
                    Ok(TrackProperty::DynamicGroups { enabled: true })
                } else {
                    Err(ParseError::ProtocolViolation { context: "DYNAMIC_GROUPS must be 0 or 1" })
                }
            },
            _ => Ok(TrackProperty::Unknown { kvp }),
        }
    }
}

/// Serializes properties as their pairs, sorted by ascending type and
/// delta-encoded; no properties give no bytes.
pub fn serialize_track_properties(exts: &[TrackProperty]) -> (r: Result<Bytes, ParseError>)
    ensures
        match r {
            Ok(b) => spec_serialize_track_properties(track_properties_view(exts@)) == Ok::<
                Seq<u8>,
                ErrorKind,
            >(bytes_view(b)),
            Err(e) => spec_serialize_track_properties(track_properties_view(exts@)) == Err::<
                Seq<u8>,
                ErrorKind,
            >(e.kind()),
        },
{
    let ghost all = track_properties_view(exts@);
    let mut kvps: Vec<KeyValuePair> = Vec::new();
    let mut i: usize = 0;
    proof {
        assert(all.take(0) =~= Seq::<TrackPropertyView>::empty());
        assert(kvps_view(kvps@) =~= Seq::<KvpView>::empty());
    }
    while i < exts.len()
        invariant
            i <= exts@.len(),
            all == track_properties_view(exts@),
            spec_track_property_pairs(all.take(i as int)) == Ok::<Seq<KvpView>, ErrorKind>(
                kvps_view(kvps@),
            ),
        decreases exts.len() - i,
    {
        proof {
            assert(all.take(i + 1).drop_last() =~= all.take(i as int));
            assert(all.take(i + 1).last() == all[i as int]);
        }
        let k = match exts[i].to_kvp() {
            Ok(k) => k,
            Err(e) => {
                proof {
                    lemma_property_pairs_prefix_fails(all, i as int);
                }
                return Err(e);
            },
        };
        let ghost before = kvps_view(kvps@);
        kvps.push(k);
        proof {
            assert(kvps_view(kvps@) =~= before.push(k@));
        }
        i = i + 1;
    }
    proof {
        assert(all.take(exts@.len() as int) =~= all);
    }
    serialize_kvp_list(kvps.as_slice())
}

proof fn lemma_property_pairs_prefix_fails(all: Seq<TrackPropertyView>, i: int)
    requires
        0 <= i < all.len(),
        spec_track_property_pairs(all.take(i)) is Ok,
        spec_track_property_pair(all[i]) is Err,
    ensures
        spec_track_property_pairs(all) == Err::<Seq<KvpView>, ErrorKind>(
            spec_track_property_pair(all[i])->Err_0,
        ),
    decreases all.len(),
{
    if i == all.len() - 1 {
        assert(all.drop_last() =~= all.take(i));
    } else {
        assert(all.drop_last().take(i) =~= all.take(i));
        assert(all.drop_last()[i] == all[i]);
        lemma_property_pairs_prefix_fails(all.drop_last(), i);
    }
}

proof fn lemma_properties_of_prefix_fails(ks: Seq<KvpView>, i: int)
    requires
        0 <= i < ks.len(),
        spec_track_properties_of(ks.take(i)) is Ok,
        spec_track_property_of(ks[i]) is Err,
    ensures
        spec_track_properties_of(ks) == Err::<Seq<TrackPropertyView>, ErrorKind>(
            spec_track_property_of(ks[i])->Err_0,
        ),
    decreases ks.len(),
{
    if i == ks.len() - 1 {
        assert(ks.drop_last() =~= ks.take(i));
    } else {
        assert(ks.drop_last().take(i) =~= ks.take(i));
        assert(ks.drop_last()[i] == ks[i]);
        lemma_properties_of_prefix_fails(ks.drop_last(), i);
    }
}

/// Reads properties from the rest of `bytes`; no bytes give no properties.
pub fn deserialize_track_properties(bytes: &mut Bytes) -> (r: Result<Vec<TrackProperty>, ParseError>)
    ensures
        match r {
            Ok(v) => spec_read_track_properties(bytes_view(*old(bytes))) == Ok::<
                Seq<TrackPropertyView>,
                ErrorKind,
            >(track_properties_view(v@)) && bytes_view(*final(bytes)).len() == 0,
            Err(e) => spec_read_track_properties(bytes_view(*old(bytes))) == Err::<
                Seq<TrackPropertyView>,
                ErrorKind,
            >(e.kind()),
        },
{
    let ghost orig = bytes_view(*bytes);
    let kvps = deserialize_kvp_list_until_empty(bytes)?;
    let ghost ks = kvps_view(kvps@);
    let mut props: Vec<TrackProperty> = Vec::new();
    let mut i: usize = 0;
    proof {
        assert(ks.take(0) =~= Seq::<KvpView>::empty());
        assert(track_properties_view(props@) =~= Seq::<TrackPropertyView>::empty());
    }
    while i < kvps.len()
        invariant
            i <= kvps@.len(),
            ks == kvps_view(kvps@),
            orig == bytes_view(*old(bytes)),
            spec_read_track_properties(orig) == spec_track_properties_of(ks),
            spec_track_properties_of(ks.take(i as int)) == Ok::<Seq<TrackPropertyView>, ErrorKind>(
                track_properties_view(props@),
            ),
        decreases kvps.len() - i,
    {
        proof {
            assert(ks.take(i + 1).drop_last() =~= ks.take(i as int));
            assert(ks.take(i + 1).last() == ks[i as int]);
        }
        let k = kvps[i].duplicate();
        let p = match TrackProperty::deserialize(k) {
            Ok(p) => p,
            Err(e) => {
                proof {
                    lemma_properties_of_prefix_fails(ks, i as int);
                }
                return Err(e);
            },
        };
        let ghost before = track_properties_view(props@);
        props.push(p);
        proof {
            assert(track_properties_view(props@) =~= before.push(p@));
        }
        i = i + 1;
    }
    proof {
        assert(ks.take(kvps@.len() as int) =~= ks);
    }
    Ok(props)
}



/// Whether a type is one the typed track properties claim.
pub open spec fn is_typed_track_property(t: u64) -> bool {
    match TrackPropertyType::spec_from_value(t) {
        Some(TrackPropertyType::PriorGroupIdGap) => false,
        Some(TrackPropertyType::PriorObjectIdGap) => false,
        Some(_) => true,
        None => false,
    }
}

/// A track property that reads back as itself: its value lies in the range
/// its type allows, an Immutable Properties list holds well-formed pairs in
/// ascending type order, none of them nested, within the length a pair value
/// allows, and a kept pair is well formed and of a type no typed variant claims.
pub open spec fn track_property_canonical(p: TrackPropertyView) -> bool {
    match p {
        TrackPropertyView::ImmutableProperties(ks) => all_wf(ks) && types_ascending(ks)
            && !spec_has_nested_immutable(ks) && spec_serialize_kvps(ks, 0)->Ok_0.len()
            <= MAX_VALUE_LENGTH,
        TrackPropertyView::DefaultPublisherGroupOrder(o) => o != GroupOrder::Original,
        TrackPropertyView::Unknown(k) => k.wf() && !is_typed_track_property(k.type_of()),
        _ => true,
    }
}

/// A canonical track property is written as a well-formed pair that reads
/// back as the same property.
pub proof fn lemma_track_property_roundtrip(p: TrackPropertyView)
    requires
        track_property_canonical(p),
    ensures
        spec_track_property_pair(p) is Ok,
        spec_track_property_pair(p)->Ok_0.wf(),
        spec_track_property_pair(p)->Ok_0.type_of() == spec_track_property_type(p),
        spec_track_property_of(spec_track_property_pair(p)->Ok_0) == Ok::<
            TrackPropertyView,
            ErrorKind,
        >(p),
{
    match p {
        TrackPropertyView::ImmutableProperties(ks) => {
            lemma_sort_ascending_is_identity(ks);
            lemma_kvp_list_roundtrip(ks, Seq::empty());
        },
        TrackPropertyView::DefaultPublisherPriority(v) => {
            assert((v as u64) as u8 == v);
        },
        TrackPropertyView::Unknown(k) => {
            let t = k.type_of();
            if let Some(x) = TrackPropertyType::spec_from_value(t) {
                x.lemma_codepoints(t);
            }
        },
        _ => {},
    }
}

proof fn lemma_track_property_pairs_each(ps: Seq<TrackPropertyView>)
    requires
        forall|i: int| 0 <= i < ps.len() ==> track_property_canonical(#[trigger] ps[i]),
    ensures
        spec_track_property_pairs(ps) is Ok,
        spec_track_property_pairs(ps)->Ok_0.len() == ps.len(),
        forall|i: int|
            0 <= i < ps.len() ==> spec_track_property_pair(#[trigger] ps[i]) == Ok::<
                KvpView,
                ErrorKind,
            >(spec_track_property_pairs(ps)->Ok_0[i]),
    decreases ps.len(),
{
    if ps.len() > 0 {
        let q = ps.drop_last();
        assert forall|i: int| 0 <= i < q.len() implies track_property_canonical(#[trigger] q[i]) by {
            assert(q[i] == ps[i]);
        }
        lemma_track_property_pairs_each(q);
        lemma_track_property_roundtrip(ps.last());
        assert forall|i: int| 0 <= i < ps.len() implies spec_track_property_pair(#[trigger] ps[i])
            == Ok::<KvpView, ErrorKind>(spec_track_property_pairs(ps)->Ok_0[i]) by {
            if i < q.len() {
                assert(q[i] == ps[i]);
            }
        }
    }
}

/// A pair standing for a canonical property and written as its pair.
pub open spec fn property_pair_fits(k: KvpView) -> bool {
    &&& spec_track_property_of(k) is Ok
    &&& spec_track_property_pair(spec_track_property_of(k)->Ok_0) == Ok::<KvpView, ErrorKind>(k)
}

proof fn lemma_properties_of_fitting(ks: Seq<KvpView>)
    requires
        forall|i: int| 0 <= i < ks.len() ==> property_pair_fits(#[trigger] ks[i]),
    ensures
        spec_track_properties_of(ks) is Ok,
        spec_track_properties_of(ks)->Ok_0.len() == ks.len(),
        forall|i: int|
            0 <= i < ks.len() ==> spec_track_property_pair(
                #[trigger] spec_track_properties_of(ks)->Ok_0[i],
            ) == Ok::<KvpView, ErrorKind>(ks[i]),
        forall|i: int|
            0 <= i < ks.len() ==> spec_track_property_of(#[trigger] ks[i]) == Ok::<
                TrackPropertyView,
                ErrorKind,
            >(spec_track_properties_of(ks)->Ok_0[i]),
    decreases ks.len(),
{
    if ks.len() > 0 {
        let q = ks.drop_last();
        assert forall|i: int| 0 <= i < q.len() implies property_pair_fits(#[trigger] q[i]) by {
            assert(q[i] == ks[i]);
        }
        lemma_properties_of_fitting(q);
        assert(property_pair_fits(ks[ks.len() - 1]));
        let r = spec_track_properties_of(ks)->Ok_0;
        assert forall|i: int| 0 <= i < ks.len() implies spec_track_property_pair(#[trigger] r[i])
            == Ok::<KvpView, ErrorKind>(ks[i]) by {
            if i < q.len() {
                assert(q[i] == ks[i]);
            }
        }
        assert forall|i: int| 0 <= i < ks.len() implies spec_track_property_of(#[trigger] ks[i])
            == Ok::<TrackPropertyView, ErrorKind>(r[i]) by {
            if i < q.len() {
                assert(q[i] == ks[i]);
            }
        }
    }
}

/// Canonical properties, written as a list, read back whole: the properties
/// read back are written as the pairs that were written, in ascending type
/// order.
pub proof fn lemma_track_properties_roundtrip(ps: Seq<TrackPropertyView>)
    requires
        forall|i: int| 0 <= i < ps.len() ==> track_property_canonical(#[trigger] ps[i]),
    ensures
        spec_serialize_track_properties(ps) is Ok,
        ({
            let r = spec_read_track_properties(spec_serialize_track_properties(ps)->Ok_0);
            let sorted = sort_by_type(spec_track_property_pairs(ps)->Ok_0);
            &&& r is Ok
            &&& r->Ok_0.len() == ps.len()
            &&& forall|i: int|
                0 <= i < ps.len() ==> spec_track_property_pair(#[trigger] r->Ok_0[i]) == Ok::<
                    KvpView,
                    ErrorKind,
                >(sorted[i])
            &&& forall|i: int|
                0 <= i < ps.len() ==> spec_track_property_of(#[trigger] sorted[i]) == Ok::<
                    TrackPropertyView,
                    ErrorKind,
                >(r->Ok_0[i])
        }),
{
    broadcast use vstd::seq_lib::group_to_multiset_ensures;

    lemma_track_property_pairs_each(ps);
    let pairs = spec_track_property_pairs(ps)->Ok_0;
    assert forall|i: int| 0 <= i < pairs.len() implies #[trigger] pairs[i].wf() by {
        lemma_track_property_roundtrip(ps[i]);
    }
    lemma_kvp_list_roundtrip(pairs, Seq::empty());
    let sorted = sort_by_type(pairs);
    lemma_sort_by_type(pairs);
    assert forall|j: int| 0 <= j < sorted.len() implies property_pair_fits(#[trigger] sorted[j]) by {
        assert(sorted.contains(sorted[j]));
        assert(pairs.to_multiset().count(sorted[j]) > 0);
        assert(pairs.contains(sorted[j]));
        let i = choose|i: int| 0 <= i < pairs.len() && pairs[i] == sorted[j];
        lemma_track_property_roundtrip(ps[i]);
    }
    lemma_properties_of_fitting(sorted);
}


/// Canonical properties already in ascending type order read back exactly
/// as they were written.
pub proof fn lemma_sorted_track_properties_roundtrip(ps: Seq<TrackPropertyView>)
    requires
        forall|i: int| 0 <= i < ps.len() ==> track_property_canonical(#[trigger] ps[i]),
        forall|i: int, j: int|
            0 <= i <= j < ps.len() ==> spec_track_property_type(ps[i]) <= spec_track_property_type(ps[j]),
    ensures
        spec_serialize_track_properties(ps) is Ok,
        spec_read_track_properties(spec_serialize_track_properties(ps)->Ok_0) == Ok::<
            Seq<TrackPropertyView>,
            ErrorKind,
        >(ps),
{
    lemma_track_properties_roundtrip(ps);
    lemma_track_property_pairs_each(ps);
    let pairs = spec_track_property_pairs(ps)->Ok_0;
    assert forall|i: int| 0 <= i < ps.len() implies #[trigger] pairs[i] == spec_track_property_pair(
        ps[i],
    )->Ok_0 && pairs[i].type_of() == spec_track_property_type(ps[i]) && spec_track_property_of(pairs[i])
        == Ok::<TrackPropertyView, ErrorKind>(ps[i]) by {
        lemma_track_property_roundtrip(ps[i]);
    }
    assert forall|i: int, j: int| 0 <= i <= j < pairs.len() implies pairs[i].type_of()
        <= pairs[j].type_of() by {
        assert(pairs[i].type_of() == spec_track_property_type(ps[i]));
        assert(pairs[j].type_of() == spec_track_property_type(ps[j]));
    }
    lemma_sort_ascending_is_identity(pairs);
    let r = spec_read_track_properties(spec_serialize_track_properties(ps)->Ok_0);
    assert(r->Ok_0 =~= ps) by {
        assert forall|i: int| 0 <= i < ps.len() implies r->Ok_0[i] == ps[i] by {
            assert(spec_track_property_of(pairs[i]) == Ok::<TrackPropertyView, ErrorKind>(r->Ok_0[i]));
        }
    }
}

} // verus!
