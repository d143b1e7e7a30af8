//! Track-level extension headers.
use crate::buf::{bytes_from_vec, bytes_len, bytes_view};
use crate::error::{ErrorKind, ParseError};
use crate::model::common::join::{lemma_join_prefix_fails, lemma_join_push, spec_join};
use crate::model::common::pair::{
    kvps_view, lemma_deserialize_delta_consumes, lemma_kvp_roundtrip, spec_deserialize_delta,
    spec_serialize_delta, KeyValuePair, KvpView,
};
use crate::model::common::varint::spec_vi_encode;
use crate::model::control::constant::GroupOrder;
use crate::model::extension_header::constant::TrackExtensionType;
use crate::model::extension_header::immutable::{
    immutable_content, immutable_pair, kvp_bytes_value, kvp_varint_value,
    lemma_immutable_roundtrip, lemma_kvp_bytes_is_delta_from_zero, read_immutable,
    spec_concat_kvps, spec_immutable_pair, spec_read_immutable,
};
use crate::model::common::pair::MAX_VALUE_LENGTH;
use bytes::Bytes;
use vstd::prelude::*;

verus! {

/// Typed representation of a MOQT track-level Extension Header.
///
/// Unknown extension types are preserved as raw pairs so that relays can
/// forward them unchanged (relays must not modify or drop unknown extensions).
#[derive(Debug, Clone, PartialEq)]
pub enum TrackExtension {
    DeliveryTimeout { timeout_ms: u64 },
    MaxCacheDuration { duration_ms: u64 },
    ImmutableExtensions { extensions: Vec<KeyValuePair> },
    DefaultPublisherPriority { priority: u8 },
    DefaultPublisherGroupOrder { order: GroupOrder },
    DynamicGroups { enabled: bool },
    Unknown { kvp: KeyValuePair },
}

/// What a track extension holds.
pub enum TrackExtensionView {
    DeliveryTimeout(u64),
    MaxCacheDuration(u64),
    ImmutableExtensions(Seq<KvpView>),
    DefaultPublisherPriority(u8),
    DefaultPublisherGroupOrder(GroupOrder),
    DynamicGroups(bool),
    Unknown(KvpView),
}

impl View for TrackExtension {
    type V = TrackExtensionView;

    open spec fn view(&self) -> TrackExtensionView {
        match self {
            TrackExtension::DeliveryTimeout { timeout_ms } => TrackExtensionView::DeliveryTimeout(
                *timeout_ms,
            ),
            TrackExtension::MaxCacheDuration { duration_ms } => TrackExtensionView::MaxCacheDuration(
                *duration_ms,
            ),
            TrackExtension::ImmutableExtensions { extensions } => TrackExtensionView::ImmutableExtensions(
                kvps_view(extensions@),
            ),
            TrackExtension::DefaultPublisherPriority { priority } => TrackExtensionView::DefaultPublisherPriority(
                *priority,
            ),
            TrackExtension::DefaultPublisherGroupOrder { order } => TrackExtensionView::DefaultPublisherGroupOrder(
                *order,
            ),
            TrackExtension::DynamicGroups { enabled } => TrackExtensionView::DynamicGroups(*enabled),
            TrackExtension::Unknown { kvp } => TrackExtensionView::Unknown(kvp@),
        }
    }
}

pub open spec fn track_extensions_view(es: Seq<TrackExtension>) -> Seq<TrackExtensionView> {
    es.map_values(|e: TrackExtension| e@)
}

/// The wire type of a track extension.
pub open spec fn spec_track_extension_type(e: TrackExtensionView) -> u64 {
    match e {
        TrackExtensionView::DeliveryTimeout(_) => TrackExtensionType::DeliveryTimeout.spec_value(),
        TrackExtensionView::MaxCacheDuration(_) => TrackExtensionType::MaxCacheDuration.spec_value(),
        TrackExtensionView::ImmutableExtensions(_) => TrackExtensionType::ImmutableExtensions.spec_value(),
        TrackExtensionView::DefaultPublisherPriority(_) => TrackExtensionType::DefaultPublisherPriority.spec_value(),
        TrackExtensionView::DefaultPublisherGroupOrder(_) => TrackExtensionType::DefaultPublisherGroupOrder.spec_value(),
        TrackExtensionView::DynamicGroups(_) => TrackExtensionType::DynamicGroups.spec_value(),
        TrackExtensionView::Unknown(k) => k.type_of(),
    }
}

/// The pair a track extension is written as.
pub open spec fn spec_track_extension_pair(e: TrackExtensionView) -> Result<KvpView, ErrorKind> {
    match e {
        TrackExtensionView::DeliveryTimeout(v) => Ok(
            KvpView::VarInt { type_value: TrackExtensionType::DeliveryTimeout.spec_value(), value: v },
        ),
        TrackExtensionView::MaxCacheDuration(v) => Ok(
            KvpView::VarInt { type_value: TrackExtensionType::MaxCacheDuration.spec_value(), value: v },
        ),
        TrackExtensionView::ImmutableExtensions(ks) => spec_immutable_pair(ks),
        TrackExtensionView::DefaultPublisherPriority(p) => Ok(
            KvpView::VarInt {
                type_value: TrackExtensionType::DefaultPublisherPriority.spec_value(),
                value: p as u64,
            },
        ),
        TrackExtensionView::DefaultPublisherGroupOrder(o) => Ok(
            KvpView::VarInt {
                type_value: TrackExtensionType::DefaultPublisherGroupOrder.spec_value(),
                value: o.spec_value() as u64,
            },
        ),
        TrackExtensionView::DynamicGroups(b) => Ok(
            KvpView::VarInt {
                type_value: TrackExtensionType::DynamicGroups.spec_value(),
                value: if b {
                    1
                } else {
                    0
                },
            },
        ),
        TrackExtensionView::Unknown(k) => Ok(k),
    }
}

/// The wire form of a track extension.
pub open spec fn spec_serialize_track_extension(e: TrackExtensionView) -> Result<Seq<u8>, ErrorKind> {
    match spec_track_extension_pair(e) {
        Err(x) => Err(x),
        Ok(k) => spec_serialize_delta(k, 0),
    }
}

/// The wire form of a list of track extensions, one after another.
pub open spec fn spec_serialize_track_extensions(es: Seq<TrackExtensionView>) -> Result<
    Seq<u8>,
    ErrorKind,
> {
    spec_join(es, |e: TrackExtensionView| spec_serialize_track_extension(e))
}

/// The track extension a varint pair of a known track-level type stands for,
/// given its value.
pub open spec fn spec_track_varint_extension(t: TrackExtensionType, v: u64) -> Result<
    TrackExtensionView,
    ErrorKind,
> {
    match t {
        TrackExtensionType::DeliveryTimeout => if v == 0 {
            Err(ErrorKind::ProtocolViolation)
        } else {
            Ok(TrackExtensionView::DeliveryTimeout(v))
        },
        TrackExtensionType::MaxCacheDuration => Ok(TrackExtensionView::MaxCacheDuration(v)),
        TrackExtensionType::DefaultPublisherPriority => if v > 255 {
            Err(ErrorKind::ProtocolViolation)
        } else {
            Ok(TrackExtensionView::DefaultPublisherPriority(v as u8))
        },
        TrackExtensionType::DefaultPublisherGroupOrder => if v == 1 {
            Ok(TrackExtensionView::DefaultPublisherGroupOrder(GroupOrder::Ascending))
        } else if v == 2 {
            Ok(TrackExtensionView::DefaultPublisherGroupOrder(GroupOrder::Descending))
        } else {
            Err(ErrorKind::ProtocolViolation)
        },
        _ => if v == 0 {
            Ok(TrackExtensionView::DynamicGroups(false))
        } else if v == 1 {
            Ok(TrackExtensionView::DynamicGroups(true))
        } else {
            Err(ErrorKind::ProtocolViolation)
        },
    }
}

/// The track extension a pair stands for. Types known only at object level,
/// and types not known at all, are kept as they came. A typed extension
/// whose pair has the wrong encoding, or a value out of its range, is a
/// protocol violation.
pub open spec fn spec_track_extension_of(k: KvpView) -> Result<TrackExtensionView, ErrorKind> {
    match TrackExtensionType::spec_from_value(k.type_of()) {
        None => Ok(TrackExtensionView::Unknown(k)),
        Some(TrackExtensionType::PriorGroupIdGap) => Ok(TrackExtensionView::Unknown(k)),
        Some(TrackExtensionType::PriorObjectIdGap) => Ok(TrackExtensionView::Unknown(k)),
        Some(TrackExtensionType::ImmutableExtensions) => match k {
            KvpView::Bytes { value, .. } => match spec_read_immutable(value) {
                Ok(ks) => Ok(TrackExtensionView::ImmutableExtensions(ks)),
                Err(e) => Err(e),
            },
            KvpView::VarInt { .. } => Err(ErrorKind::ProtocolViolation),
        },
        Some(t) => match k {
            KvpView::VarInt { value, .. } => spec_track_varint_extension(t, value),
            KvpView::Bytes { .. } => Err(ErrorKind::ProtocolViolation),
        },
    }
}

/// Reading track extensions until the bytes run out.
pub open spec fn spec_read_track_extensions(s: Seq<u8>) -> Result<Seq<TrackExtensionView>, ErrorKind>
    decreases s.len(),
{
    if s.len() == 0 {
        Ok(Seq::empty())
    } else {
        match spec_deserialize_delta(s, 0) {
            Err(e) => Err(e),
            Ok((k, r)) => {
                proof {
                    lemma_deserialize_delta_consumes(s, 0);
                }
                match spec_track_extension_of(k) {
                    Err(e) => Err(e),
                    Ok(x) => match spec_read_track_extensions(r) {
                        Err(e) => Err(e),
                        Ok(xs) => Ok(seq![x] + xs),
                    },
                }
            },
        }
    }
}

/// Whether a type is one the typed track extensions claim.
pub open spec fn is_typed_track_extension(t: u64) -> bool {
    match TrackExtensionType::spec_from_value(t) {
        Some(TrackExtensionType::PriorGroupIdGap) => false,
        Some(TrackExtensionType::PriorObjectIdGap) => false,
        Some(_) => true,
        None => false,
    }
}

/// A track extension that reads back as itself: its value lies in the range
/// its type allows, an Immutable Extensions container holds pairs fit for it
/// within the length a pair value allows, and a kept pair is well formed and
/// of a type no typed variant claims.
pub open spec fn track_extension_canonical(e: TrackExtensionView) -> bool {
    match e {
        TrackExtensionView::DeliveryTimeout(v) => v > 0,
        TrackExtensionView::MaxCacheDuration(_) => true,
        TrackExtensionView::ImmutableExtensions(ks) => immutable_content(ks) && spec_concat_kvps(
            ks,
        ).len() <= MAX_VALUE_LENGTH,
        TrackExtensionView::DefaultPublisherPriority(_) => true,
        TrackExtensionView::DefaultPublisherGroupOrder(o) => o != GroupOrder::Original,
        TrackExtensionView::DynamicGroups(_) => true,
        TrackExtensionView::Unknown(k) => k.wf() && !is_typed_track_extension(k.type_of()),
    }
}

/// A canonical track extension is written as a well-formed pair that reads
/// back as the same extension.
pub proof fn lemma_track_extension_roundtrip(e: TrackExtensionView)
    requires
        track_extension_canonical(e),
    ensures
        spec_track_extension_pair(e) is Ok,
        spec_track_extension_pair(e)->Ok_0.wf(),
        spec_track_extension_of(spec_track_extension_pair(e)->Ok_0) == Ok::<
            TrackExtensionView,
            ErrorKind,
        >(e),
{
    match e {
        TrackExtensionView::ImmutableExtensions(ks) => {
            lemma_immutable_roundtrip(ks);
        },
        TrackExtensionView::DefaultPublisherPriority(p) => {
            assert((p as u64) as u8 == p);
        },
        TrackExtensionView::Unknown(k) => {
            let t = k.type_of();
            if let Some(x) = TrackExtensionType::spec_from_value(t) {
                x.lemma_codepoints(t);
            }
        },
        _ => {},
    }
}

/// Canonical track extensions, written one after another, read back whole.
pub proof fn lemma_track_extensions_roundtrip(es: Seq<TrackExtensionView>)
    requires
        forall|i: int| 0 <= i < es.len() ==> track_extension_canonical(#[trigger] es[i]),
    ensures
        spec_serialize_track_extensions(es) is Ok,
        spec_read_track_extensions(spec_serialize_track_extensions(es)->Ok_0) == Ok::<
            Seq<TrackExtensionView>,
            ErrorKind,
        >(es),
    decreases es.len(),
{
    if es.len() == 0 {
        assert(es =~= Seq::<TrackExtensionView>::empty());
    } else {
        let t = es.skip(1);
        assert forall|i: int| 0 <= i < t.len() implies track_extension_canonical(#[trigger] t[i]) by {
            assert(t[i] == es[i + 1]);
        }
        lemma_track_extensions_roundtrip(t);
        assert(track_extension_canonical(es[0]));
        lemma_track_extension_roundtrip(es[0]);
        let k = spec_track_extension_pair(es[0])->Ok_0;
        let tail = spec_serialize_track_extensions(t)->Ok_0;
        lemma_kvp_roundtrip(k, 0, tail);
        lemma_kvp_bytes_is_delta_from_zero(k);
        let head = spec_serialize_delta(k, 0)->Ok_0;
        assert(spec_serialize_track_extensions(es) == Ok::<Seq<u8>, ErrorKind>(head + tail));
        assert(head.len() > 0) by {
            crate::model::common::varint::lemma_vi_encode_len(k.type_of());
        }
        assert(seq![es[0]] + t =~= es);
    }
}

impl TrackExtension {
    /// The raw wire type of this extension.
    pub fn type_value(&self) -> (t: u64)
        ensures
            t == spec_track_extension_type(self@),
    {
        match self {
            TrackExtension::DeliveryTimeout { .. } => TrackExtensionType::DeliveryTimeout.value(),
            TrackExtension::MaxCacheDuration { .. } => TrackExtensionType::MaxCacheDuration.value(),
            TrackExtension::ImmutableExtensions { .. } => TrackExtensionType::ImmutableExtensions.value(),
            TrackExtension::DefaultPublisherPriority { .. } => TrackExtensionType::DefaultPublisherPriority.value(),
            TrackExtension::DefaultPublisherGroupOrder { .. } => TrackExtensionType::DefaultPublisherGroupOrder.value(),
            TrackExtension::DynamicGroups { .. } => TrackExtensionType::DynamicGroups.value(),
            TrackExtension::Unknown { kvp } => kvp.get_type(),
        }
    }

    /// The pair this extension is written as.
    pub fn to_kvp(&self) -> (r: Result<KeyValuePair, ParseError>)
        ensures
            match r {
                Ok(k) => spec_track_extension_pair(self@) == Ok::<KvpView, ErrorKind>(k@),
                Err(e) => spec_track_extension_pair(self@) == Err::<KvpView, ErrorKind>(e.kind()),
            },
    {
        match self {
            TrackExtension::DeliveryTimeout { timeout_ms } => KeyValuePair::try_new_varint(
                TrackExtensionType::DeliveryTimeout.value(),
                *timeout_ms,
            ),
            TrackExtension::MaxCacheDuration { duration_ms } => KeyValuePair::try_new_varint(
                TrackExtensionType::MaxCacheDuration.value(),
                *duration_ms,
            ),
            TrackExtension::ImmutableExtensions { extensions } => immutable_pair(
                extensions.as_slice(),
            ),
            TrackExtension::DefaultPublisherPriority { priority } => KeyValuePair::try_new_varint(
                TrackExtensionType::DefaultPublisherPriority.value(),
                *priority as u64,
            ),
            TrackExtension::DefaultPublisherGroupOrder { order } => KeyValuePair::try_new_varint(
                TrackExtensionType::DefaultPublisherGroupOrder.value(),
                order.value() as u64,
            ),
            TrackExtension::DynamicGroups { enabled } => KeyValuePair::try_new_varint(
                TrackExtensionType::DynamicGroups.value(),
                if *enabled {
                    1
                } else {
                    0
                },
            ),
            TrackExtension::Unknown { kvp } => Ok(kvp.duplicate()),
        }
    }

    /// Appends the wire form of this extension.
    pub fn push_serialized(&self, out: &mut Vec<u8>) -> (r: Result<(), ParseError>)
        ensures
            match r {
                Ok(_) => spec_serialize_track_extension(self@) is Ok && final(out)@ == old(out)@
                    + spec_serialize_track_extension(self@)->Ok_0,
                Err(e) => spec_serialize_track_extension(self@) == Err::<Seq<u8>, ErrorKind>(
                    e.kind(),
                ),
            },
    {
        let kvp = self.to_kvp()?;
        let r = kvp.push_delta(out, 0);
        proof {
            lemma_kvp_bytes_is_delta_from_zero(kvp@);
        }
        r
    }

    /// Serializes this extension to its wire pair bytes.
    pub fn serialize(&self) -> (r: Result<Bytes, ParseError>)
        ensures
            match r {
                Ok(b) => spec_serialize_track_extension(self@) == Ok::<Seq<u8>, ErrorKind>(
                    bytes_view(b),
                ),
                Err(e) => spec_serialize_track_extension(self@) == Err::<Seq<u8>, ErrorKind>(
                    e.kind(),
                ),
            },
    {
        let mut out: Vec<u8> = Vec::new();
        self.push_serialized(&mut out)?;
        proof {
            assert(out@ =~= spec_serialize_track_extension(self@)->Ok_0);
        }
        Ok(bytes_from_vec(out))
    }

    /// The track extension a pair stands for; unknown types are kept as they
    /// came rather than refused.
    pub fn deserialize(kvp: KeyValuePair) -> (r: Result<Self, ParseError>)
        ensures
            match r {
                Ok(x) => spec_track_extension_of(kvp@) == Ok::<TrackExtensionView, ErrorKind>(x@),
                Err(e) => spec_track_extension_of(kvp@) == Err::<TrackExtensionView, ErrorKind>(
                    e.kind(),
                ),
            },
    {
        let ext_type = match TrackExtensionType::try_from(kvp.get_type()) {
            Ok(t) => t,
            Err(_) => {
                return Ok(TrackExtension::Unknown { kvp });
            },
        };
        match ext_type {
            TrackExtensionType::DeliveryTimeout => {
                let value = kvp_varint_value(&kvp)?;
                if value == 0 {
                    return Err(
                        ParseError::ProtocolViolation {
                            context: "DELIVERY_TIMEOUT must be greater than 0",
                        },
                    );
                }
                Ok(TrackExtension::DeliveryTimeout { timeout_ms: value })
            },
            TrackExtensionType::MaxCacheDuration => {
                let value = kvp_varint_value(&kvp)?;
                Ok(TrackExtension::MaxCacheDuration { duration_ms: value })
            },
            TrackExtensionType::ImmutableExtensions => {
                let bytes = kvp_bytes_value(&kvp)?;
                let extensions = read_immutable(bytes)?;
                Ok(TrackExtension::ImmutableExtensions { extensions })
            },
            TrackExtensionType::DefaultPublisherPriority => {
                let value = kvp_varint_value(&kvp)?;
                if value > 255 {
                    return Err(
                        ParseError::ProtocolViolation {
                            context: "DEFAULT_PUBLISHER_PRIORITY must be 0-255",
                        },
                    );
                }
                Ok(TrackExtension::DefaultPublisherPriority { priority: value as u8 })
            },
            TrackExtensionType::DefaultPublisherGroupOrder => {
                let value = kvp_varint_value(&kvp)?;
                if value == 1 {
                    Ok(TrackExtension::DefaultPublisherGroupOrder { order: GroupOrder::Ascending })
                } else if value == 2 {
                    Ok(TrackExtension::DefaultPublisherGroupOrder { order: GroupOrder::Descending })
                } else {
                    Err(
                        ParseError::ProtocolViolation {
                            context: "DEFAULT_PUBLISHER_GROUP_ORDER must be 1 (Ascending) or 2 (Descending)",
                        },
                    )
                }
            },
            TrackExtensionType::DynamicGroups => {
                let value = kvp_varint_value(&kvp)?;
                if value == 0 {
                    Ok(TrackExtension::DynamicGroups { enabled: false })
                } else if value == 1 {
                    Ok(TrackExtension::DynamicGroups { enabled: true })
                } else {
                    Err(ParseError::ProtocolViolation { context: "DYNAMIC_GROUPS must be 0 or 1" })
                }
            },
            _ => Ok(TrackExtension::Unknown { kvp }),
        }
    }

    /// An extension holding the same values.
    pub fn duplicate(&self) -> (r: TrackExtension)
        ensures
            r@ == self@,
    {
        match self {
            TrackExtension::DeliveryTimeout { timeout_ms } => TrackExtension::DeliveryTimeout {
                timeout_ms: *timeout_ms,
            },
            TrackExtension::MaxCacheDuration { duration_ms } => TrackExtension::MaxCacheDuration {
                duration_ms: *duration_ms,
            },
            TrackExtension::ImmutableExtensions { extensions } => {
                let mut v: Vec<KeyValuePair> = Vec::new();
                let mut i: usize = 0;
                while i < extensions.len()
                    invariant
                        i <= extensions@.len(),
                        v@.len() == i,
                        forall|j: int| 0 <= j < i ==> #[trigger] v@[j]@ == extensions@[j]@,
                    decreases extensions.len() - i,
                {
                    v.push(extensions[i].duplicate());
                    i = i + 1;
                }
                proof {
                    assert(kvps_view(v@) =~= kvps_view(extensions@));
                }
                TrackExtension::ImmutableExtensions { extensions: v }
            },
            TrackExtension::DefaultPublisherPriority { priority } => TrackExtension::DefaultPublisherPriority {
                priority: *priority,
            },
            TrackExtension::DefaultPublisherGroupOrder { order } => TrackExtension::DefaultPublisherGroupOrder {
                order: *order,
            },
            TrackExtension::DynamicGroups { enabled } => TrackExtension::DynamicGroups {
                enabled: *enabled,
            },
            TrackExtension::Unknown { kvp } => TrackExtension::Unknown { kvp: kvp.duplicate() },
        }
    }
}

/// Appends the wire forms of `exts`, one after another.
pub fn push_track_extensions(out: &mut Vec<u8>, exts: &[TrackExtension]) -> (r: Result<
    (),
    ParseError,
>)
    ensures
        match r {
            Ok(_) => spec_serialize_track_extensions(track_extensions_view(exts@)) is Ok
                && final(out)@ == old(out)@ + spec_serialize_track_extensions(
                track_extensions_view(exts@),
            )->Ok_0,
            Err(e) => spec_serialize_track_extensions(track_extensions_view(exts@)) == Err::<
                Seq<u8>,
                ErrorKind,
            >(e.kind()),
        },
{
    let ghost start = out@;
    let ghost f = |e: TrackExtensionView| spec_serialize_track_extension(e);
    let ghost all = track_extensions_view(exts@);
    let mut i: usize = 0;
    proof {
        assert(all.take(0) =~= Seq::<TrackExtensionView>::empty());
        assert(out@ =~= start + Seq::<u8>::empty());
    }
    while i < exts.len()
        invariant
            i <= exts@.len(),
            all == track_extensions_view(exts@),
            f == (|e: TrackExtensionView| spec_serialize_track_extension(e)),
            spec_join(all.take(i as int), f) is Ok,
            out@ == start + spec_join(all.take(i as int), f)->Ok_0,
        decreases exts.len() - i,
    {
        proof {
            lemma_join_push(all.take(i as int), all[i as int], f);
            assert(all.take(i + 1) =~= all.take(i as int).push(all[i as int]));
        }
        match exts[i].push_serialized(out) {
            Ok(_) => {},
            Err(e) => {
                proof {
                    lemma_join_prefix_fails(all, i as int, f);
                }
                return Err(e);
            },
        }
        proof {
            assert(out@ =~= start + spec_join(all.take(i + 1), f)->Ok_0);
        }
        i = i + 1;
    }
    proof {
        assert(all.take(exts@.len() as int) =~= all);
    }
    Ok(())
}

/// Serializes track extensions to their wire pair bytes, one after another;
/// no extensions give no bytes.
pub fn serialize_track_extensions(exts: &[TrackExtension]) -> (r: Result<Bytes, ParseError>)
    ensures
        match r {
            Ok(b) => spec_serialize_track_extensions(track_extensions_view(exts@)) == Ok::<
                Seq<u8>,
                ErrorKind,
            >(bytes_view(b)),
            Err(e) => spec_serialize_track_extensions(track_extensions_view(exts@)) == Err::<
                Seq<u8>,
                ErrorKind,
            >(e.kind()),
        },
{
    let mut out: Vec<u8> = Vec::new();
    push_track_extensions(&mut out, exts)?;
    proof {
        assert(out@ =~= spec_serialize_track_extensions(track_extensions_view(exts@))->Ok_0);
    }
    Ok(bytes_from_vec(out))
}

/// Reads track extensions from `bytes` until it is exhausted; no bytes give
/// no extensions.
pub fn deserialize_track_extensions(bytes: &mut Bytes) -> (r: Result<
    Vec<TrackExtension>,
    ParseError,
>)
    ensures
        match r {
            Ok(v) => spec_read_track_extensions(bytes_view(*old(bytes))) == Ok::<
                Seq<TrackExtensionView>,
                ErrorKind,
            >(track_extensions_view(v@)) && bytes_view(*final(bytes)).len() == 0,
            Err(e) => spec_read_track_extensions(bytes_view(*old(bytes))) == Err::<
                Seq<TrackExtensionView>,
                ErrorKind,
            >(e.kind()),
        },
{
    let ghost orig = bytes_view(*bytes);
    let mut items: Vec<TrackExtension> = Vec::new();
    while bytes_len(bytes) > 0
        invariant
            orig == bytes_view(*old(bytes)),
            spec_read_track_extensions(orig) == (match spec_read_track_extensions(
                bytes_view(*bytes),
            ) {
                Ok(xs) => Ok::<Seq<TrackExtensionView>, ErrorKind>(track_extensions_view(items@)
                    + xs),
                Err(e) => Err(e),
            }),
        decreases bytes_view(*bytes).len(),
    {
        let ghost cur = bytes_view(*bytes);
        let kvp = match KeyValuePair::deserialize(bytes) {
            Ok(k) => k,
            Err(e) => {
                proof {
                    assert(spec_read_track_extensions(cur) == Err::<
                        Seq<TrackExtensionView>,
                        ErrorKind,
                    >(e.kind()));
                }
                return Err(e);
            },
        };
        proof {
            lemma_deserialize_delta_consumes(cur, 0);
        }
        let ext = match TrackExtension::deserialize(kvp) {
            Ok(x) => x,
            Err(e) => {
                proof {
                    assert(spec_read_track_extensions(cur) == Err::<
                        Seq<TrackExtensionView>,
                        ErrorKind,
                    >(e.kind()));
                }
                return Err(e);
            },
        };
        let ghost before = track_extensions_view(items@);
        items.push(ext);
        proof {
            assert(track_extensions_view(items@) =~= before.push(ext@));
            assert forall|xs: Seq<TrackExtensionView>| #[trigger] (before + (seq![ext@] + xs))
                =~= track_extensions_view(items@) + xs by {}
        }
    }
    proof {
        assert(track_extensions_view(items@) + Seq::<TrackExtensionView>::empty()
            =~= track_extensions_view(items@));
    }
    Ok(items)
}

} // verus!
