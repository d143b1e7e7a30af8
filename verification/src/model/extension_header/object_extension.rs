//! Object-level extension headers.
use crate::buf::{bytes_from_vec, bytes_len, bytes_view};
use crate::error::{ErrorKind, ParseError};
use crate::model::common::join::{lemma_join_prefix_fails, lemma_join_push, spec_join};
use crate::model::common::pair::{
    kvps_view, lemma_deserialize_delta_consumes, lemma_kvp_roundtrip, spec_deserialize_delta,
    spec_serialize_delta, KeyValuePair, KvpView,
};
use crate::model::common::varint::spec_vi_encode;
use crate::model::extension_header::constant::TrackExtensionType;
use crate::model::extension_header::immutable::{
    immutable_content, immutable_pair, kvp_bytes_value, kvp_varint_value,
    lemma_immutable_roundtrip, lemma_kvp_bytes_is_delta_from_zero, read_immutable,
    spec_concat_kvps, spec_immutable_pair, spec_read_immutable,
};
use crate::model::common::pair::MAX_VALUE_LENGTH;
use bytes::Bytes;
use vstd::prelude::*;

verus! {

/// Typed representation of a MOQT object-level Extension Header.
///
/// Unknown extension types are preserved as raw pairs so that relays can
/// forward them unchanged.
#[derive(Debug, Clone, PartialEq)]
pub enum ObjectExtension {
    ImmutableExtensions { extensions: Vec<KeyValuePair> },
    PriorGroupIdGap { gap: u64 },
    PriorObjectIdGap { gap: u64 },
    Unknown { kvp: KeyValuePair },
}

/// What an object extension holds.
pub enum ObjectExtensionView {
    ImmutableExtensions(Seq<KvpView>),
    PriorGroupIdGap(u64),
    PriorObjectIdGap(u64),
    Unknown(KvpView),
}

impl View for ObjectExtension {
    type V = ObjectExtensionView;

    open spec fn view(&self) -> ObjectExtensionView {
        match self {
            ObjectExtension::ImmutableExtensions { extensions } => ObjectExtensionView::ImmutableExtensions(
                kvps_view(extensions@),
            ),
            ObjectExtension::PriorGroupIdGap { gap } => ObjectExtensionView::PriorGroupIdGap(*gap),
            ObjectExtension::PriorObjectIdGap { gap } => ObjectExtensionView::PriorObjectIdGap(*gap),
            ObjectExtension::Unknown { kvp } => ObjectExtensionView::Unknown(kvp@),
        }
    }
}

pub open spec fn object_extensions_view(es: Seq<ObjectExtension>) -> Seq<ObjectExtensionView> {
    es.map_values(|e: ObjectExtension| e@)
}

/// The wire type of an object extension.
pub open spec fn spec_object_extension_type(e: ObjectExtensionView) -> u64 {
    match e {
        ObjectExtensionView::ImmutableExtensions(_) => TrackExtensionType::ImmutableExtensions.spec_value(),
        ObjectExtensionView::PriorGroupIdGap(_) => TrackExtensionType::PriorGroupIdGap.spec_value(),
        ObjectExtensionView::PriorObjectIdGap(_) => TrackExtensionType::PriorObjectIdGap.spec_value(),
        ObjectExtensionView::Unknown(k) => k.type_of(),
    }
}

/// The pair an object extension is written as.
pub open spec fn spec_object_extension_pair(e: ObjectExtensionView) -> Result<KvpView, ErrorKind> {
    match e {
        ObjectExtensionView::ImmutableExtensions(ks) => spec_immutable_pair(ks),
        ObjectExtensionView::PriorGroupIdGap(gap) => Ok(
            KvpView::VarInt { type_value: TrackExtensionType::PriorGroupIdGap.spec_value(), value: gap },
        ),
        ObjectExtensionView::PriorObjectIdGap(gap) => Ok(
            KvpView::VarInt { type_value: TrackExtensionType::PriorObjectIdGap.spec_value(), value: gap },
        ),
        ObjectExtensionView::Unknown(k) => Ok(k),
    }
}

/// The wire form of an object extension.
pub open spec fn spec_serialize_object_extension(e: ObjectExtensionView) -> Result<
    Seq<u8>,
    ErrorKind,
> {
    match spec_object_extension_pair(e) {
        Err(x) => Err(x),
        Ok(k) => spec_serialize_delta(k, 0),
    }
}

/// The wire form of a list of object extensions, one after another.
pub open spec fn spec_serialize_object_extensions(es: Seq<ObjectExtensionView>) -> Result<
    Seq<u8>,
    ErrorKind,
> {
    spec_join(es, |e: ObjectExtensionView| spec_serialize_object_extension(e))
}

/// The object extension a pair stands for. Types known only at track level,
/// and types not known at all, are kept as they came.
pub open spec fn spec_object_extension_of(k: KvpView) -> Result<ObjectExtensionView, ErrorKind> {
    match TrackExtensionType::spec_from_value(k.type_of()) {
        Some(TrackExtensionType::ImmutableExtensions) => match k {
            KvpView::Bytes { value, .. } => match spec_read_immutable(value) {
                Ok(ks) => Ok(ObjectExtensionView::ImmutableExtensions(ks)),
                Err(e) => Err(e),
            },
            KvpView::VarInt { .. } => Err(ErrorKind::ProtocolViolation),
        },
        Some(TrackExtensionType::PriorGroupIdGap) => match k {
            KvpView::VarInt { value, .. } => Ok(ObjectExtensionView::PriorGroupIdGap(value)),
            KvpView::Bytes { .. } => Err(ErrorKind::ProtocolViolation),
        },
        Some(TrackExtensionType::PriorObjectIdGap) => match k {
            KvpView::VarInt { value, .. } => Ok(ObjectExtensionView::PriorObjectIdGap(value)),
            KvpView::Bytes { .. } => Err(ErrorKind::ProtocolViolation),
        },
        _ => Ok(ObjectExtensionView::Unknown(k)),
    }
}

/// Reading object extensions until the bytes run out.
pub open spec fn spec_read_object_extensions(s: Seq<u8>) -> Result<
    Seq<ObjectExtensionView>,
    ErrorKind,
>
    decreases s.len(),
{
    if s.len() == 0 {
        Ok(Seq::empty())
    } else {
        match spec_deserialize_delta(s, 0) {
            Err(e) => Err(e),
            Ok((k, r)) => {
                proof {
                    lemma_deserialize_delta_consumes(s, 0);
                }
                match spec_object_extension_of(k) {
                    Err(e) => Err(e),
                    Ok(x) => match spec_read_object_extensions(r) {
                        Err(e) => Err(e),
                        Ok(xs) => Ok(seq![x] + xs),
                    },
                }
            },
        }
    }
}

/// An object extension that reads back as itself: an Immutable Extensions
/// container holds pairs fit for it within the length a pair value allows,
/// and a kept pair is well formed and of a type no typed variant claims.
pub open spec fn object_extension_canonical(e: ObjectExtensionView) -> bool {
    match e {
        ObjectExtensionView::ImmutableExtensions(ks) => immutable_content(ks) && spec_concat_kvps(
            ks,
        ).len() <= MAX_VALUE_LENGTH,
        ObjectExtensionView::PriorGroupIdGap(_) => true,
        ObjectExtensionView::PriorObjectIdGap(_) => true,
        ObjectExtensionView::Unknown(k) => k.wf() && k.type_of()
            != TrackExtensionType::ImmutableExtensions.spec_value() && k.type_of()
            != TrackExtensionType::PriorGroupIdGap.spec_value() && k.type_of()
            != TrackExtensionType::PriorObjectIdGap.spec_value(),
    }
}

/// A canonical object extension is written as a well-formed pair that reads
/// back as the same extension.
pub proof fn lemma_object_extension_roundtrip(e: ObjectExtensionView)
    requires
        object_extension_canonical(e),
    ensures
        spec_object_extension_pair(e) is Ok,
        spec_object_extension_pair(e)->Ok_0.wf(),
        spec_object_extension_of(spec_object_extension_pair(e)->Ok_0) == Ok::<
            ObjectExtensionView,
            ErrorKind,
        >(e),
{
    match e {
        ObjectExtensionView::ImmutableExtensions(ks) => {
            lemma_immutable_roundtrip(ks);
        },
        ObjectExtensionView::Unknown(k) => {
            let t = k.type_of();
            if let Some(x) = TrackExtensionType::spec_from_value(t) {
                x.lemma_codepoints(t);
            }
        },
        _ => {},
    }
}

/// Canonical object extensions, written one after another, read back whole.
pub proof fn lemma_object_extensions_roundtrip(es: Seq<ObjectExtensionView>)
    requires
        forall|i: int| 0 <= i < es.len() ==> object_extension_canonical(#[trigger] es[i]),
    ensures
        spec_serialize_object_extensions(es) is Ok,
        spec_read_object_extensions(spec_serialize_object_extensions(es)->Ok_0) == Ok::<
            Seq<ObjectExtensionView>,
            ErrorKind,
        >(es),
    decreases es.len(),
{
    if es.len() == 0 {
        assert(es =~= Seq::<ObjectExtensionView>::empty());
    } else {
        let t = es.skip(1);
        assert forall|i: int| 0 <= i < t.len() implies object_extension_canonical(#[trigger] t[i]) by {
            assert(t[i] == es[i + 1]);
        }
        lemma_object_extensions_roundtrip(t);
        assert(object_extension_canonical(es[0]));
        lemma_object_extension_roundtrip(es[0]);
        let k = spec_object_extension_pair(es[0])->Ok_0;
        let tail = spec_serialize_object_extensions(t)->Ok_0;
        lemma_kvp_roundtrip(k, 0, tail);
        lemma_kvp_bytes_is_delta_from_zero(k);
        let head = spec_serialize_delta(k, 0)->Ok_0;
        assert(spec_serialize_object_extensions(es) == Ok::<Seq<u8>, ErrorKind>(head + tail));
        assert(head.len() > 0) by {
            crate::model::common::varint::lemma_vi_encode_len(k.type_of());
        }
        assert(seq![es[0]] + t =~= es);
    }
}

impl ObjectExtension {
    /// The raw wire type of this extension.
    pub fn type_value(&self) -> (t: u64)
        ensures
            t == spec_object_extension_type(self@),
    {
        match self {
            ObjectExtension::ImmutableExtensions { .. } => TrackExtensionType::ImmutableExtensions.value(),
            ObjectExtension::PriorGroupIdGap { .. } => TrackExtensionType::PriorGroupIdGap.value(),
            ObjectExtension::PriorObjectIdGap { .. } => TrackExtensionType::PriorObjectIdGap.value(),
            ObjectExtension::Unknown { kvp } => kvp.get_type(),
        }
    }

    /// The pair this extension is written as.
    pub fn to_kvp(&self) -> (r: Result<KeyValuePair, ParseError>)
        ensures
            match r {
                Ok(k) => spec_object_extension_pair(self@) == Ok::<KvpView, ErrorKind>(k@),
                Err(e) => spec_object_extension_pair(self@) == Err::<KvpView, ErrorKind>(e.kind()),
            },
    {
        match self {
            ObjectExtension::ImmutableExtensions { extensions } => immutable_pair(
                extensions.as_slice(),
            ),
            ObjectExtension::PriorGroupIdGap { gap } => KeyValuePair::try_new_varint(
                TrackExtensionType::PriorGroupIdGap.value(),
                *gap,
            ),
            ObjectExtension::PriorObjectIdGap { gap } => KeyValuePair::try_new_varint(
                TrackExtensionType::PriorObjectIdGap.value(),
                *gap,
            ),
            ObjectExtension::Unknown { kvp } => Ok(kvp.duplicate()),
        }
    }

    /// Appends the wire form of this extension.
    pub fn push_serialized(&self, out: &mut Vec<u8>) -> (r: Result<(), ParseError>)
        ensures
            match r {
                Ok(_) => spec_serialize_object_extension(self@) is Ok && final(out)@ == old(out)@
                    + spec_serialize_object_extension(self@)->Ok_0,
                Err(e) => spec_serialize_object_extension(self@) == Err::<Seq<u8>, ErrorKind>(
                    e.kind(),
                ),
            },
    {
        let kvp = self.to_kvp()?;
        let r = kvp.push_delta(out, 0);
        proof {
            lemma_kvp_bytes_is_delta_from_zero(kvp@);
        }
        r
    }

    /// Serializes this extension to its wire pair bytes.
    pub fn serialize(&self) -> (r: Result<Bytes, ParseError>)
        ensures
            match r {
                Ok(b) => spec_serialize_object_extension(self@) == Ok::<Seq<u8>, ErrorKind>(
                    bytes_view(b),
                ),
                Err(e) => spec_serialize_object_extension(self@) == Err::<Seq<u8>, ErrorKind>(
                    e.kind(),
                ),
            },
    {
        let mut out: Vec<u8> = Vec::new();
        self.push_serialized(&mut out)?;
        proof {
            assert(out@ =~= spec_serialize_object_extension(self@)->Ok_0);
        }
        Ok(bytes_from_vec(out))
    }

    /// The object extension a pair stands for; unknown types are kept as
    /// they came rather than refused.
    pub fn deserialize(kvp: KeyValuePair) -> (r: Result<Self, ParseError>)
        ensures
            match r {
                Ok(x) => spec_object_extension_of(kvp@) == Ok::<ObjectExtensionView, ErrorKind>(x@),
                Err(e) => spec_object_extension_of(kvp@) == Err::<ObjectExtensionView, ErrorKind>(
                    e.kind(),
                ),
            },
    {
        let ext_type = match TrackExtensionType::try_from(kvp.get_type()) {
            Ok(t) => t,
            Err(_) => {
                return Ok(ObjectExtension::Unknown { kvp });
            },
        };
        match ext_type {
            TrackExtensionType::ImmutableExtensions => {
                let bytes = kvp_bytes_value(&kvp)?;
                let extensions = read_immutable(bytes)?;
                Ok(ObjectExtension::ImmutableExtensions { extensions })
            },
            TrackExtensionType::PriorGroupIdGap => {
                let gap = kvp_varint_value(&kvp)?;
                Ok(ObjectExtension::PriorGroupIdGap { gap })
            },
            TrackExtensionType::PriorObjectIdGap => {
                let gap = kvp_varint_value(&kvp)?;
                Ok(ObjectExtension::PriorObjectIdGap { gap })
            },
            _ => Ok(ObjectExtension::Unknown { kvp }),
        }
    }

    /// An extension holding the same values.
    pub fn duplicate(&self) -> (r: ObjectExtension)
        ensures
            r@ == self@,
    {
        match self {
            ObjectExtension::ImmutableExtensions { extensions } => {
                let mut v: Vec<KeyValuePair> = Vec::new();
                let mut i: usize = 0;
                while i < extensions.len()
                    invariant
                        i <= extensions@.len(),
                        v@.len() == i,
                        forall|j: int| 0 <= j < i ==> #[trigger] v@[j]@ == extensions@[j]@,
                    decreases extensions.len() - i,
                {
                    v.push(extensions[i].duplicate());
                    i = i + 1;
                }
                proof {
                    assert(kvps_view(v@) =~= kvps_view(extensions@));
                }
                ObjectExtension::ImmutableExtensions { extensions: v }
            },
            ObjectExtension::PriorGroupIdGap { gap } => ObjectExtension::PriorGroupIdGap { gap: *gap },
            ObjectExtension::PriorObjectIdGap { gap } => ObjectExtension::PriorObjectIdGap {
                gap: *gap,
            },
            ObjectExtension::Unknown { kvp } => ObjectExtension::Unknown { kvp: kvp.duplicate() },
        }
    }
}

/// Appends the wire forms of `exts`, one after another.
pub fn push_object_extensions(out: &mut Vec<u8>, exts: &[ObjectExtension]) -> (r: Result<
    (),
    ParseError,
>)
    ensures
        match r {
            Ok(_) => spec_serialize_object_extensions(object_extensions_view(exts@)) is Ok
                && final(out)@ == old(out)@ + spec_serialize_object_extensions(
                object_extensions_view(exts@),
            )->Ok_0,
            Err(e) => spec_serialize_object_extensions(object_extensions_view(exts@)) == Err::<
                Seq<u8>,
                ErrorKind,
            >(e.kind()),
        },
{
    let ghost start = out@;
    let ghost f = |e: ObjectExtensionView| spec_serialize_object_extension(e);
    let ghost all = object_extensions_view(exts@);
    let mut i: usize = 0;
    proof {
        assert(all.take(0) =~= Seq::<ObjectExtensionView>::empty());
        assert(out@ =~= start + Seq::<u8>::empty());
    }
    while i < exts.len()
        invariant
            i <= exts@.len(),
            all == object_extensions_view(exts@),
            f == (|e: ObjectExtensionView| spec_serialize_object_extension(e)),
            spec_join(all.take(i as int), f) is Ok,
            out@ == start + spec_join(all.take(i as int), f)->Ok_0,
        decreases exts.len() - i,
    {
        proof {
            lemma_join_push(all.take(i as int), all[i as int], f);
            assert(all.take(i + 1) =~= all.take(i as int).push(all[i as int]));
        }
        match exts[i].push_serialized(out) {
            Ok(_) => {},
            Err(e) => {
                proof {
                    lemma_join_prefix_fails(all, i as int, f);
                }
                return Err(e);
            },
        }
        proof {
            assert(out@ =~= start + spec_join(all.take(i + 1), f)->Ok_0);
        }
        i = i + 1;
    }
    proof {
        assert(all.take(exts@.len() as int) =~= all);
    }
    Ok(())
}

/// Serializes object extensions to their wire pair bytes, one after another.
pub fn serialize_object_extensions(exts: &[ObjectExtension]) -> (r: Result<Bytes, ParseError>)
    ensures
        match r {
            Ok(b) => spec_serialize_object_extensions(object_extensions_view(exts@)) == Ok::<
                Seq<u8>,
                ErrorKind,
            >(bytes_view(b)),
            Err(e) => spec_serialize_object_extensions(object_extensions_view(exts@)) == Err::<
                Seq<u8>,
                ErrorKind,
            >(e.kind()),
        },
{
    let mut out: Vec<u8> = Vec::new();
    push_object_extensions(&mut out, exts)?;
    proof {
        assert(out@ =~= spec_serialize_object_extensions(object_extensions_view(exts@))->Ok_0);
    }
    Ok(bytes_from_vec(out))
}

/// Reads object extensions from `bytes` until it is exhausted.
pub fn deserialize_object_extensions(bytes: &mut Bytes) -> (r: Result<
    Vec<ObjectExtension>,
    ParseError,
>)
    ensures
        match r {
            Ok(v) => spec_read_object_extensions(bytes_view(*old(bytes))) == Ok::<
                Seq<ObjectExtensionView>,
                ErrorKind,
            >(object_extensions_view(v@)) && bytes_view(*final(bytes)).len() == 0,
            Err(e) => spec_read_object_extensions(bytes_view(*old(bytes))) == Err::<
                Seq<ObjectExtensionView>,
                ErrorKind,
            >(e.kind()),
        },
{
    let ghost orig = bytes_view(*bytes);
    let mut items: Vec<ObjectExtension> = Vec::new();
    while bytes_len(bytes) > 0
        invariant
            orig == bytes_view(*old(bytes)),
            spec_read_object_extensions(orig) == (match spec_read_object_extensions(
                bytes_view(*bytes),
            ) {
                Ok(xs) => Ok::<Seq<ObjectExtensionView>, ErrorKind>(object_extensions_view(items@)
                    + xs),
                Err(e) => Err(e),
            }),
        decreases bytes_view(*bytes).len(),
    {
        let ghost cur = bytes_view(*bytes);
        let kvp = match KeyValuePair::deserialize(bytes) {
            Ok(k) => k,
            Err(e) => {
                proof {
                    assert(spec_read_object_extensions(cur) == Err::<
                        Seq<ObjectExtensionView>,
                        ErrorKind,
                    >(e.kind()));
                }
                return Err(e);
            },
        };
        proof {
            lemma_deserialize_delta_consumes(cur, 0);
        }
        let ext = match ObjectExtension::deserialize(kvp) {
            Ok(x) => x,
            Err(e) => {
                proof {
                    assert(spec_read_object_extensions(cur) == Err::<
                        Seq<ObjectExtensionView>,
                        ErrorKind,
                    >(e.kind()));
                }
                return Err(e);
            },
        };
        let ghost before = object_extensions_view(items@);
        items.push(ext);
        proof {
            assert(object_extensions_view(items@) =~= before.push(ext@));
            assert forall|xs: Seq<ObjectExtensionView>| #[trigger] (before + (seq![ext@] + xs))
                =~= object_extensions_view(items@) + xs by {}
        }
    }
    proof {
        assert(object_extensions_view(items@) + Seq::<ObjectExtensionView>::empty()
            =~= object_extensions_view(items@));
    }
    Ok(items)
}

} // verus!
