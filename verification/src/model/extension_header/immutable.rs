//! Pieces shared by object- and track-level extension headers: the
//! Immutable Extensions container and the typed reading of a pair's value.
use crate::buf::{bytes_from_vec, bytes_len, bytes_view};
use crate::error::{ErrorKind, ParseError};
use crate::model::common::pair::{
    all_wf, kvps_view, lemma_deserialize_delta_consumes, lemma_kvp_roundtrip, spec_deserialize_delta,
    spec_kvp_value_bytes, spec_serialize_delta, KeyValuePair, KvpView, MAX_VALUE_LENGTH,
};
use crate::model::common::varint::spec_vi_encode;
use crate::model::extension_header::constant::TrackExtensionType;
use bytes::Bytes;
use vstd::prelude::*;

verus! {

/// The type of the Immutable Extensions container (0x0B).
pub open spec fn spec_immutable_type() -> u64 {
    TrackExtensionType::ImmutableExtensions.spec_value()
}

/// The wire form of a pair with its type written whole.
pub open spec fn spec_kvp_bytes(k: KvpView) -> Seq<u8> {
    spec_vi_encode(k.type_of()) + spec_kvp_value_bytes(k)
}

/// Pairs written one after another, each with its type whole.
pub open spec fn spec_concat_kvps(ks: Seq<KvpView>) -> Seq<u8>
    decreases ks.len(),
{
    if ks.len() == 0 {
        Seq::empty()
    } else {
        spec_kvp_bytes(ks[0]) + spec_concat_kvps(ks.skip(1))
    }
}

/// Reading the pairs of an Immutable Extensions value until the bytes run
/// out; a nested Immutable Extensions pair is a protocol violation.
pub open spec fn spec_read_immutable(s: Seq<u8>) -> Result<Seq<KvpView>, ErrorKind>
    decreases s.len(),
{
    if s.len() == 0 {
        Ok(Seq::empty())
    } else {
        match spec_deserialize_delta(s, 0) {
            Err(e) => Err(e),
            Ok((k, r)) => {
                proof {
                    lemma_deserialize_delta_consumes(s, 0);
                }
                if k.type_of() == spec_immutable_type() {
                    Err(ErrorKind::ProtocolViolation)
                } else {
                    match spec_read_immutable(r) {
                        Err(e) => Err(e),
                        Ok(ks) => Ok(seq![k] + ks),
                    }
                }
            },
        }
    }
}

/// The Immutable Extensions pair holding `ks`, or the error when their wire
/// form exceeds the length a pair value may have.
pub open spec fn spec_immutable_pair(ks: Seq<KvpView>) -> Result<KvpView, ErrorKind> {
    if spec_concat_kvps(ks).len() > MAX_VALUE_LENGTH {
        Err(ErrorKind::LengthExceedsMax)
    } else {
        Ok(KvpView::Bytes { type_value: spec_immutable_type(), value: spec_concat_kvps(ks) })
    }
}

/// Pairs that may sit in an Immutable Extensions container: well formed and
/// none of them a container itself.
pub open spec fn immutable_content(ks: Seq<KvpView>) -> bool {
    &&& all_wf(ks)
    &&& forall|i: int| 0 <= i < ks.len() ==> #[trigger] ks[i].type_of() != spec_immutable_type()
}

/// Writing a pair with its type whole is writing it as a delta from type 0.
pub proof fn lemma_kvp_bytes_is_delta_from_zero(k: KvpView)
    ensures
        spec_serialize_delta(k, 0) == Ok::<Seq<u8>, ErrorKind>(spec_kvp_bytes(k)),
{
    assert((k.type_of() - 0) as u64 == k.type_of());
}

proof fn lemma_concat_push(ks: Seq<KvpView>, k: KvpView)
    ensures
        spec_concat_kvps(ks.push(k)) == spec_concat_kvps(ks) + spec_kvp_bytes(k),
    decreases ks.len(),
{
    if ks.len() == 0 {
        let one = ks.push(k);
        assert(one.skip(1) =~= Seq::<KvpView>::empty());
        assert(spec_concat_kvps(one.skip(1)) =~= Seq::<u8>::empty());
        assert(one[0] == k);
        assert(spec_concat_kvps(one) =~= spec_kvp_bytes(k));
        assert(spec_concat_kvps(ks) =~= Seq::<u8>::empty());
    } else {
        lemma_concat_push(ks.skip(1), k);
        assert(ks.push(k).skip(1) =~= ks.skip(1).push(k));
        assert(spec_concat_kvps(ks.push(k)) =~= spec_concat_kvps(ks) + spec_kvp_bytes(k));
    }
}

/// Pairs fit for a container, written one after another, are read back whole.
pub proof fn lemma_immutable_roundtrip(ks: Seq<KvpView>)
    requires
        immutable_content(ks),
    ensures
        spec_read_immutable(spec_concat_kvps(ks)) == Ok::<Seq<KvpView>, ErrorKind>(ks),
    decreases ks.len(),
{
    if ks.len() == 0 {
        assert(ks =~= Seq::<KvpView>::empty());
    } else {
        let t = ks.skip(1);
        assert forall|i: int| 0 <= i < t.len() implies #[trigger] t[i].wf() && t[i].type_of()
            != spec_immutable_type() by {
            assert(t[i] == ks[i + 1]);
        }
        lemma_immutable_roundtrip(t);
        assert(ks[0].wf());
        let tail = spec_concat_kvps(t);
        lemma_kvp_roundtrip(ks[0], 0, tail);
        lemma_kvp_bytes_is_delta_from_zero(ks[0]);
        lemma_kvp_bytes_is_delta_from_zero(ks[0]);
        assert(spec_concat_kvps(ks).len() > 0) by {
            crate::model::common::varint::lemma_vi_encode_len(ks[0].type_of());
        }
        assert(seq![ks[0]] + t =~= ks);
    }
}

/// Appends the wire form of every pair of `ks`, each with its type whole.
pub fn push_concat_kvps(out: &mut Vec<u8>, ks: &[KeyValuePair])
    ensures
        final(out)@ == old(out)@ + spec_concat_kvps(kvps_view(ks@)),
{
    let ghost start = out@;
    let mut i: usize = 0;
    proof {
        assert(kvps_view(ks@).take(0) =~= Seq::<KvpView>::empty());
        assert(out@ =~= start + spec_concat_kvps(kvps_view(ks@).take(0)));
    }
    while i < ks.len()
        invariant
            i <= ks@.len(),
            out@ == start + spec_concat_kvps(kvps_view(ks@).take(i as int)),
        decreases ks.len() - i,
    {
        let ghost before = out@;
        let r = ks[i].push_delta(out, 0);
        proof {
            lemma_kvp_bytes_is_delta_from_zero(ks@[i as int]@);
            assert(out@ == before + spec_kvp_bytes(ks@[i as int]@));
            lemma_concat_push(kvps_view(ks@).take(i as int), ks@[i as int]@);
            assert(kvps_view(ks@).take(i + 1) =~= kvps_view(ks@).take(i as int).push(
                ks@[i as int]@,
            ));
            assert(out@ =~= start + spec_concat_kvps(kvps_view(ks@).take(i + 1)));
        }
        i = i + 1;
    }
    proof {
        assert(kvps_view(ks@).take(ks@.len() as int) =~= kvps_view(ks@));
    }
}

/// The Immutable Extensions pair holding `ks`.
pub fn immutable_pair(ks: &[KeyValuePair]) -> (r: Result<KeyValuePair, ParseError>)
    ensures
        match r {
            Ok(k) => spec_immutable_pair(kvps_view(ks@)) == Ok::<KvpView, ErrorKind>(k@),
            Err(e) => spec_immutable_pair(kvps_view(ks@)) == Err::<KvpView, ErrorKind>(e.kind()),
        },
{
    let mut out: Vec<u8> = Vec::new();
    push_concat_kvps(&mut out, ks);
    proof {
        assert(out@ =~= spec_concat_kvps(kvps_view(ks@)));
    }
    KeyValuePair::try_new_bytes(TrackExtensionType::ImmutableExtensions.value(), bytes_from_vec(out))
}

/// Reads the pairs of an Immutable Extensions value.
pub fn read_immutable(value: Bytes) -> (r: Result<Vec<KeyValuePair>, ParseError>)
    ensures
        match r {
            Ok(v) => spec_read_immutable(bytes_view(value)) == Ok::<Seq<KvpView>, ErrorKind>(
                kvps_view(v@),
            ),
            Err(e) => spec_read_immutable(bytes_view(value)) == Err::<Seq<KvpView>, ErrorKind>(
                e.kind(),
            ),
        },
{
    let ghost orig = bytes_view(value);
    let mut buf = value;
    let mut items: Vec<KeyValuePair> = Vec::new();
    let container = TrackExtensionType::ImmutableExtensions.value();
    while bytes_len(&buf) > 0
        invariant
            container == spec_immutable_type(),
            orig == bytes_view(value),
            spec_read_immutable(orig) == (match spec_read_immutable(bytes_view(buf)) {
                Ok(ks) => Ok::<Seq<KvpView>, ErrorKind>(kvps_view(items@) + ks),
                Err(e) => Err(e),
            }),
        decreases bytes_view(buf).len(),
    {
        let ghost cur = bytes_view(buf);
        let kvp = match KeyValuePair::deserialize(&mut buf) {
            Ok(kvp) => kvp,
            Err(e) => {
                proof {
                    assert(spec_read_immutable(cur) == Err::<Seq<KvpView>, ErrorKind>(e.kind()));
                }
                return Err(e);
            },
        };
        proof {
            lemma_deserialize_delta_consumes(cur, 0);
        }
        if kvp.get_type() == container {
            proof {
                assert(spec_read_immutable(cur) == Err::<Seq<KvpView>, ErrorKind>(
                    ErrorKind::ProtocolViolation,
                ));
            }
            return Err(
                ParseError::ProtocolViolation {
                    context: "ImmutableExtensions MUST NOT contain another ImmutableExtensions key",
                },
            );
        }
        let ghost before = kvps_view(items@);
        items.push(kvp);
        proof {
            assert(kvps_view(items@) =~= before.push(kvp@));
            assert forall|ks: Seq<KvpView>| #[trigger] (before + (seq![kvp@] + ks)) =~= kvps_view(
                items@,
            ) + ks by {}
        }
    }
    proof {
        assert(kvps_view(items@) + Seq::<KvpView>::empty() =~= kvps_view(items@));
    }
    Ok(items)
}

/// The value of a varint pair; a bytes pair is a protocol violation.
pub fn kvp_varint_value(kvp: &KeyValuePair) -> (r: Result<u64, ParseError>)
    ensures
        match r {
            Ok(v) => kvp@ matches KvpView::VarInt { value, .. } && v == value,
            Err(e) => kvp@ is Bytes && e.kind() == ErrorKind::ProtocolViolation,
        },
{
    match kvp {
        KeyValuePair::VarInt { value, .. } => Ok(*value),
        KeyValuePair::Bytes { .. } => Err(
            ParseError::ProtocolViolation {
                context: "extension expects VarInt encoding but received Bytes",
            },
        ),
    }
}

/// The value of a bytes pair; a varint pair is a protocol violation.
pub fn kvp_bytes_value(kvp: &KeyValuePair) -> (r: Result<Bytes, ParseError>)
    ensures
        match r {
            Ok(b) => kvp@ matches KvpView::Bytes { value, .. } && bytes_view(b) == value,
            Err(e) => kvp@ is VarInt && e.kind() == ErrorKind::ProtocolViolation,
        },
{
    match kvp {
        KeyValuePair::Bytes { value, .. } => Ok(value.clone()),
        KeyValuePair::VarInt { .. } => Err(
            ParseError::ProtocolViolation {
                context: "extension expects Bytes encoding but received VarInt",
            },
        ),
    }
}

} // verus!
