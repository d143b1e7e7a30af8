use crate::buf::{
    bytes_as_slice, bytes_copy_to_bytes, bytes_from_vec, bytes_len, bytes_view,
};
use crate::error::{ErrorKind, ParseError};
use crate::model::common::varint::{
    lemma_get_vi_consumes, lemma_vi_roundtrip, push_vi, spec_get_vi, spec_vi_encode, BufVarIntExt,
};
use bytes::Bytes;
use vstd::multiset::Multiset;
use vstd::prelude::*;

verus! {

/// Largest length a bytes-valued pair may carry (2^16 - 1).
pub const MAX_VALUE_LENGTH: usize = 65535;

#[allow(inconsistent_fields)]
/// A Key-Value-Pair: even types carry a varint value, odd types carry bytes.
#[derive(Debug, Clone, PartialEq)]
pub enum KeyValuePair {
    VarInt { type_value: u64, value: u64 },
    Bytes { type_value: u64, value: Bytes },
}

#[allow(inconsistent_fields)]
/// What a Key-Value-Pair holds, with its bytes as a sequence.
pub enum KvpView {
    VarInt { type_value: u64, value: u64 },
    Bytes { type_value: u64, value: Seq<u8> },
}

impl KvpView {
    pub open spec fn type_of(self) -> u64 {
        match self {
            KvpView::VarInt { type_value, .. } => type_value,
            KvpView::Bytes { type_value, .. } => type_value,
        }
    }

    /// A pair the constructors accept: the variant matches the type's parity
    /// and a bytes value fits the length limit.
    pub open spec fn wf(self) -> bool {
        match self {
            KvpView::VarInt { type_value, .. } => type_value % 2 == 0,
            KvpView::Bytes { type_value, value } => type_value % 2 == 1 && value.len()
                <= MAX_VALUE_LENGTH,
        }
    }
}

impl View for KeyValuePair {
    type V = KvpView;

    open spec fn view(&self) -> KvpView {
        match self {
            KeyValuePair::VarInt { type_value, value } => KvpView::VarInt {
                type_value: *type_value,
                value: *value,
            },
            KeyValuePair::Bytes { type_value, value } => KvpView::Bytes {
                type_value: *type_value,
                value: bytes_view(*value),
            },
        }
    }
}

/// The wire bytes of a pair's value (after its type field).
pub open spec fn spec_kvp_value_bytes(k: KvpView) -> Seq<u8> {
    match k {
        KvpView::VarInt { value, .. } => spec_vi_encode(value),
        KvpView::Bytes { value, .. } => spec_vi_encode(value.len() as u64) + value,
    }
}

/// The wire form of a pair whose type is written as a delta from `prev_type`.
pub open spec fn spec_serialize_delta(k: KvpView, prev_type: u64) -> Result<Seq<u8>, ErrorKind> {
    if k.type_of() < prev_type {
        Err(ErrorKind::ProtocolViolation)
    } else {
        Ok(spec_vi_encode((k.type_of() - prev_type) as u64) + spec_kvp_value_bytes(k))
    }
}

/// Reading the value of a pair whose type is already known.
pub open spec fn spec_deserialize_value(s: Seq<u8>, type_value: u64) -> Result<
    (KvpView, Seq<u8>),
    ErrorKind,
> {
    match spec_get_vi(s) {
        Err(e) => Err(e),
        Ok((v, r)) => if type_value % 2 == 0 {
            Ok((KvpView::VarInt { type_value, value: v }, r))
        } else if v > usize::MAX {
            Err(ErrorKind::CastingError)
        } else if v > MAX_VALUE_LENGTH {
            Err(ErrorKind::LengthExceedsMax)
        } else if r.len() < v {
            Err(ErrorKind::NotEnoughBytes)
        } else {
            Ok((KvpView::Bytes { type_value, value: r.take(v as int) }, r.skip(v as int)))
        },
    }
}

/// Reading a pair whose type is written as a delta from `prev_type`.
pub open spec fn spec_deserialize_delta(s: Seq<u8>, prev_type: u64) -> Result<
    (KvpView, Seq<u8>),
    ErrorKind,
> {
    match spec_get_vi(s) {
        Err(e) => Err(e),
        Ok((d, r)) => if prev_type + d > u64::MAX {
            Err(ErrorKind::ProtocolViolation)
        } else {
            spec_deserialize_value(r, (prev_type + d) as u64)
        },
    }
}

/// Delta-encoding every pair of `ks` in order, the first against `prev_type`.
pub open spec fn spec_serialize_kvps(ks: Seq<KvpView>, prev_type: u64) -> Result<Seq<u8>, ErrorKind>
    decreases ks.len(),
{
    if ks.len() == 0 {
        Ok(Seq::empty())
    } else {
        match spec_serialize_delta(ks[0], prev_type) {
            Err(e) => Err(e),
            Ok(b) => match spec_serialize_kvps(ks.skip(1), ks[0].type_of()) {
                Err(e) => Err(e),
                Ok(r) => Ok(b + r),
            },
        }
    }
}

/// Inserting `x` into `s` after every pair whose type is not above `x`'s.
pub open spec fn insert_by_type(s: Seq<KvpView>, x: KvpView) -> Seq<KvpView>
    decreases s.len(),
{
    if s.len() == 0 {
        seq![x]
    } else if s.last().type_of() <= x.type_of() {
        s.push(x)
    } else {
        insert_by_type(s.drop_last(), x).push(s.last())
    }
}

/// Stable sort of pairs by ascending type.
pub open spec fn sort_by_type(s: Seq<KvpView>) -> Seq<KvpView>
    decreases s.len(),
{
    if s.len() == 0 {
        Seq::empty()
    } else {
        insert_by_type(sort_by_type(s.drop_last()), s.last())
    }
}

pub open spec fn types_ascending(s: Seq<KvpView>) -> bool {
    forall|i: int, j: int| 0 <= i <= j < s.len() ==> s[i].type_of() <= s[j].type_of()
}

pub open spec fn kvps_view(s: Seq<KeyValuePair>) -> Seq<KvpView> {
    s.map_values(|k: KeyValuePair| k@)
}

/// Reading `count` delta-encoded pairs, the first against type 0.
pub open spec fn spec_deserialize_kvps(s: Seq<u8>, count: nat, prev_type: u64) -> Result<
    (Seq<KvpView>, Seq<u8>),
    ErrorKind,
>
    decreases count,
{
    if count == 0 {
        Ok((Seq::empty(), s))
    } else {
        match spec_deserialize_delta(s, prev_type) {
            Err(e) => Err(e),
            Ok((k, r)) => match spec_deserialize_kvps(r, (count - 1) as nat, k.type_of()) {
                Err(e) => Err(e),
                Ok((ks, r2)) => Ok((seq![k] + ks, r2)),
            },
        }
    }
}

/// A successful read always consumes at least one byte.
pub proof fn lemma_deserialize_delta_consumes(s: Seq<u8>, prev_type: u64)
    requires
        spec_deserialize_delta(s, prev_type) is Ok,
    ensures
        spec_deserialize_delta(s, prev_type)->Ok_0.1.len() < s.len(),
{
    lemma_get_vi_consumes(s);
    let r = spec_get_vi(s)->Ok_0.1;
    if spec_get_vi(r) is Ok {
        lemma_get_vi_consumes(r);
    }
}

/// Reading delta-encoded pairs until `s` is exhausted.
pub open spec fn spec_deserialize_kvps_until_empty(s: Seq<u8>, prev_type: u64) -> Result<
    Seq<KvpView>,
    ErrorKind,
>
    decreases s.len(),
{
    if s.len() == 0 {
        Ok(Seq::empty())
    } else {
        match spec_deserialize_delta(s, prev_type) {
            Err(e) => Err(e),
            Ok((k, r)) => {
                proof {
                    lemma_deserialize_delta_consumes(s, prev_type);
                }
                match spec_deserialize_kvps_until_empty(r, k.type_of()) {
                    Err(e) => Err(e),
                    Ok(ks) => Ok(seq![k] + ks),
                }
            },
        }
    }
}

/// Where `x` goes when inserted after the run of larger types at the end of `s`.
proof fn lemma_insert_by_type_at(s: Seq<KvpView>, x: KvpView, j: int)
    requires
        0 <= j <= s.len(),
        forall|i: int| j <= i < s.len() ==> s[i].type_of() > x.type_of(),
        j > 0 ==> s[j - 1].type_of() <= x.type_of(),
    ensures
        insert_by_type(s, x) == s.take(j).push(x) + s.skip(j),
    decreases s.len(),
{
    if s.len() == j {
        assert(s.skip(j) =~= Seq::<KvpView>::empty());
        assert(s.take(j) =~= s);
        if s.len() == 0 {
            assert(s.take(j).push(x) + s.skip(j) =~= seq![x]);
        } else {
            assert(s.take(j).push(x) + s.skip(j) =~= s.push(x));
        }
    } else {
        let t = s.drop_last();
        lemma_insert_by_type_at(t, x, j);
        assert(t.take(j) =~= s.take(j));
        assert(t.skip(j).push(s.last()) =~= s.skip(j));
        assert(insert_by_type(s, x) =~= s.take(j).push(x) + s.skip(j));
    }
}

/// Inserting keeps the multiset of pairs, adding `x`.
proof fn lemma_insert_by_type_multiset(s: Seq<KvpView>, x: KvpView)
    ensures
        insert_by_type(s, x).to_multiset() == s.to_multiset().insert(x),
        insert_by_type(s, x).len() == s.len() + 1,
    decreases s.len(),
{
    broadcast use vstd::seq_lib::group_to_multiset_ensures;
    if s.len() == 0 {
        assert(seq![x] =~= Seq::<KvpView>::empty().push(x));
        assert(Seq::<KvpView>::empty().to_multiset() =~= Multiset::empty());
    } else if s.last().type_of() <= x.type_of() {
    } else {
        let t = s.drop_last();
        lemma_insert_by_type_multiset(t, x);
        assert(s =~= t.push(s.last()));
        assert(insert_by_type(s, x).to_multiset() =~= s.to_multiset().insert(x));
    }
}

/// Inserting into an ascending list keeps it ascending.
proof fn lemma_insert_by_type_ascending(s: Seq<KvpView>, x: KvpView)
    requires
        types_ascending(s),
    ensures
        types_ascending(insert_by_type(s, x)),
    decreases s.len(),
{
    if s.len() > 0 && s.last().type_of() > x.type_of() {
        let t = s.drop_last();
        lemma_insert_by_type_ascending(t, x);
        lemma_insert_by_type_multiset(t, x);
        let u = insert_by_type(t, x);
        assert forall|i: int| 0 <= i < u.len() implies u[i].type_of() <= s.last().type_of() by {
            assert(u.to_multiset().count(u[i]) > 0) by {
                broadcast use vstd::seq_lib::group_to_multiset_ensures;
                assert(u.contains(u[i]));
            }
            broadcast use vstd::seq_lib::group_to_multiset_ensures;
            if u[i] != x {
                assert(t.to_multiset().count(u[i]) > 0);
                assert(t.contains(u[i]));
                let k = choose|k: int| 0 <= k < t.len() && t[k] == u[i];
                assert(s[k] == t[k]);
            }
        }
    }
}

/// Pairs already in ascending type order are left as they are by the sort.
pub proof fn lemma_sort_ascending_is_identity(s: Seq<KvpView>)
    requires
        types_ascending(s),
    ensures
        sort_by_type(s) == s,
    decreases s.len(),
{
    if s.len() > 0 {
        let t = s.drop_last();
        assert forall|i: int, j: int| 0 <= i <= j < t.len() implies t[i].type_of() <= t[j].type_of() by {
            assert(t[i] == s[i] && t[j] == s[j]);
        }
        lemma_sort_ascending_is_identity(t);
        if t.len() > 0 {
            assert(t.last() == s[s.len() - 2]);
        }
        assert(t.push(s.last()) =~= s);
    } else {
        assert(s =~= Seq::<KvpView>::empty());
    }
}

/// Sorting by type yields an ascending permutation of the pairs.
pub proof fn lemma_sort_by_type(s: Seq<KvpView>)
    ensures
        types_ascending(sort_by_type(s)),
        sort_by_type(s).to_multiset() == s.to_multiset(),
        sort_by_type(s).len() == s.len(),
    decreases s.len(),
{
    broadcast use vstd::seq_lib::group_to_multiset_ensures;
    if s.len() == 0 {
        assert(Seq::<KvpView>::empty().to_multiset() =~= Multiset::empty());
    } else {
        let t = s.drop_last();
        lemma_sort_by_type(t);
        lemma_insert_by_type_ascending(sort_by_type(t), s.last());
        lemma_insert_by_type_multiset(sort_by_type(t), s.last());
        assert(s =~= t.push(s.last()));
    }
}

/// A well-formed pair written as a delta from `prev_type` is read back whole,
/// leaving what follows untouched.
pub proof fn lemma_kvp_roundtrip(k: KvpView, prev_type: u64, rest: Seq<u8>)
    requires
        k.wf(),
        prev_type <= k.type_of(),
    ensures
        spec_serialize_delta(k, prev_type) is Ok,
        spec_deserialize_delta(spec_serialize_delta(k, prev_type)->Ok_0 + rest, prev_type) == Ok::<
            (KvpView, Seq<u8>),
            ErrorKind,
        >((k, rest)),
{
    let d = (k.type_of() - prev_type) as u64;
    let body = spec_kvp_value_bytes(k);
    lemma_vi_roundtrip(d, body + rest);
    assert(spec_vi_encode(d) + body + rest =~= spec_vi_encode(d) + (body + rest));
    match k {
        KvpView::VarInt { type_value, value } => {
            lemma_vi_roundtrip(value, rest);
        },
        KvpView::Bytes { type_value, value } => {
            lemma_vi_roundtrip(value.len() as u64, value + rest);
            assert(spec_vi_encode(value.len() as u64) + value + rest =~= spec_vi_encode(
                value.len() as u64,
            ) + (value + rest));
            assert((value + rest).take(value.len() as int) =~= value);
            assert((value + rest).skip(value.len() as int) =~= rest);
        },
    }
}

pub open spec fn all_wf(ks: Seq<KvpView>) -> bool {
    forall|i: int| 0 <= i < ks.len() ==> #[trigger] ks[i].wf()
}

proof fn lemma_kvps_tail(ks: Seq<KvpView>)
    requires
        ks.len() > 0,
        types_ascending(ks),
        all_wf(ks),
    ensures
        types_ascending(ks.skip(1)),
        all_wf(ks.skip(1)),
        ks[0].wf(),
        ks.len() > 1 ==> ks[0].type_of() <= ks.skip(1)[0].type_of(),
        seq![ks[0]] + ks.skip(1) == ks,
{
    let t = ks.skip(1);
    assert forall|i: int, j: int| 0 <= i <= j < t.len() implies t[i].type_of() <= t[j].type_of() by {
        assert(t[i] == ks[i + 1]);
        assert(t[j] == ks[j + 1]);
    }
    assert forall|i: int| 0 <= i < t.len() implies #[trigger] t[i].wf() by {
        assert(t[i] == ks[i + 1]);
    }
    if t.len() > 0 {
        assert(t[0] == ks[1]);
    }
    assert(seq![ks[0]] + t =~= ks);
}

/// An ascending list of well-formed pairs, delta-encoded, is read back whole.
#[verifier::spinoff_prover]
#[verifier::rlimit(40)]
pub proof fn lemma_kvps_roundtrip(ks: Seq<KvpView>, prev_type: u64, rest: Seq<u8>)
    requires
        types_ascending(ks),
        all_wf(ks),
        ks.len() > 0 ==> prev_type <= ks[0].type_of(),
    ensures
        spec_serialize_kvps(ks, prev_type) is Ok,
        spec_deserialize_kvps(spec_serialize_kvps(ks, prev_type)->Ok_0 + rest, ks.len(), prev_type)
            == Ok::<(Seq<KvpView>, Seq<u8>), ErrorKind>((ks, rest)),
    decreases ks.len(),
{
    if ks.len() == 0 {
        assert(Seq::<u8>::empty() + rest =~= rest);
        assert(ks =~= Seq::<KvpView>::empty());
    } else {
        let t = ks.skip(1);
        let k0 = ks[0];
        lemma_kvps_tail(ks);
        lemma_kvps_roundtrip(t, k0.type_of(), rest);
        let tail = spec_serialize_kvps(t, k0.type_of())->Ok_0;
        lemma_kvp_roundtrip(k0, prev_type, tail + rest);
        let head = spec_serialize_delta(k0, prev_type)->Ok_0;
        let all = head + tail + rest;
        assert(all =~= head + (tail + rest));
        assert((ks.len() - 1) as nat == t.len());
        assert(spec_serialize_kvps(ks, prev_type) == Ok::<Seq<u8>, ErrorKind>(head + tail));
        assert(spec_deserialize_delta(all, prev_type) == Ok::<(KvpView, Seq<u8>), ErrorKind>(
            (k0, tail + rest),
        ));
    }
}

/// An ascending list of well-formed pairs, delta-encoded, is read back whole
/// when reading until the bytes run out.
pub proof fn lemma_kvps_roundtrip_until_empty(ks: Seq<KvpView>, prev_type: u64)
    requires
        types_ascending(ks),
        all_wf(ks),
        ks.len() > 0 ==> prev_type <= ks[0].type_of(),
    ensures
        spec_serialize_kvps(ks, prev_type) is Ok,
        spec_deserialize_kvps_until_empty(spec_serialize_kvps(ks, prev_type)->Ok_0, prev_type)
            == Ok::<Seq<KvpView>, ErrorKind>(ks),
    decreases ks.len(),
{
    if ks.len() == 0 {
        assert(ks =~= Seq::<KvpView>::empty());
    } else {
        let t = ks.skip(1);
        let k0 = ks[0];
        lemma_kvps_tail(ks);
        lemma_kvps_roundtrip_until_empty(t, k0.type_of());
        let tail = spec_serialize_kvps(t, k0.type_of())->Ok_0;
        lemma_kvp_roundtrip(k0, prev_type, tail);
        let head = spec_serialize_delta(k0, prev_type)->Ok_0;
        lemma_vi_roundtrip((k0.type_of() - prev_type) as u64, spec_kvp_value_bytes(k0));
        assert((head + tail).len() > 0);
    }
}

/// Sorting keeps every pair that was there, so it keeps them well formed.
proof fn lemma_sort_keeps_wf(items: Seq<KvpView>)
    requires
        all_wf(items),
    ensures
        all_wf(sort_by_type(items)),
{
    broadcast use vstd::seq_lib::group_to_multiset_ensures;
    lemma_sort_by_type(items);
    let sorted = sort_by_type(items);
    assert forall|i: int| 0 <= i < sorted.len() implies #[trigger] sorted[i].wf() by {
        assert(sorted.contains(sorted[i]));
        assert(items.to_multiset().count(sorted[i]) > 0);
        assert(items.contains(sorted[i]));
        let j = choose|j: int| 0 <= j < items.len() && items[j] == sorted[i];
        assert(items[j].wf());
    }
}

/// Serializing a list of well-formed pairs and reading back as many pairs
/// gives the list sorted by type, and leaves what follows untouched.
pub proof fn lemma_kvp_list_roundtrip(items: Seq<KvpView>, rest: Seq<u8>)
    requires
        all_wf(items),
    ensures
        spec_serialize_kvps(sort_by_type(items), 0) is Ok,
        spec_deserialize_kvps(
            spec_serialize_kvps(sort_by_type(items), 0)->Ok_0 + rest,
            items.len(),
            0,
        ) == Ok::<(Seq<KvpView>, Seq<u8>), ErrorKind>((sort_by_type(items), rest)),
        spec_deserialize_kvps_until_empty(spec_serialize_kvps(sort_by_type(items), 0)->Ok_0, 0)
            == Ok::<Seq<KvpView>, ErrorKind>(sort_by_type(items)),
{
    lemma_sort_by_type(items);
    lemma_sort_keeps_wf(items);
    lemma_kvps_roundtrip(sort_by_type(items), 0, rest);
    lemma_kvps_roundtrip_until_empty(sort_by_type(items), 0);
}

impl KeyValuePair {
    /// Fallible constructor for a varint-typed pair: the type must be even.
    pub fn try_new_varint(type_value: u64, value: u64) -> (r: Result<Self, ParseError>)
        ensures
            match r {
                Ok(k) => type_value % 2 == 0 && k@ == (KvpView::VarInt { type_value, value }),
                Err(e) => type_value % 2 == 1 && e.kind() == ErrorKind::KeyValueFormattingError,
            },
    {
        if type_value % 2 != 0 {
            return Err(ParseError::KeyValueFormattingError { context: "KeyValuePair::try_new_varint" });
        }
        Ok(KeyValuePair::VarInt { type_value, value })
    }

    /// Fallible constructor for a bytes-typed pair: the type must be odd and
    /// the value at most `MAX_VALUE_LENGTH` bytes.
    pub fn try_new_bytes(type_value: u64, value: Bytes) -> (r: Result<Self, ParseError>)
        ensures
            match r {
                Ok(k) => type_value % 2 == 1 && bytes_view(value).len() <= MAX_VALUE_LENGTH
                    && k@ == (KvpView::Bytes { type_value, value: bytes_view(value) }),
                Err(e) => (type_value % 2 == 0 && e.kind() == ErrorKind::KeyValueFormattingError)
                    || (type_value % 2 == 1 && bytes_view(value).len() > MAX_VALUE_LENGTH
                    && e.kind() == ErrorKind::LengthExceedsMax),
            },
    {
        if type_value % 2 == 0 {
            return Err(ParseError::KeyValueFormattingError { context: "KeyValuePair::try_new_bytes" });
        }
        let len = bytes_len(&value);
        if len > MAX_VALUE_LENGTH {
            return Err(
                ParseError::LengthExceedsMax {
                    context: "KeyValuePair::try_new_bytes",
                    max: MAX_VALUE_LENGTH,
                    len,
                },
            );
        }
        Ok(KeyValuePair::Bytes { type_value, value })
    }

    pub fn get_type(&self) -> (t: u64)
        ensures
            t == self@.type_of(),
    {
        match self {
            KeyValuePair::VarInt { type_value, .. } => *type_value,
            KeyValuePair::Bytes { type_value, .. } => *type_value,
        }
    }

    pub fn is_same_type(&self, other: &KeyValuePair) -> (b: bool)
        ensures
            b == (self@.type_of() == other@.type_of()),
    {
        self.get_type() == other.get_type()
    }

    /// A copy holding the same type and value.
    pub fn duplicate(&self) -> (r: KeyValuePair)
        ensures
            r@ == self@,
    {
        match self {
            KeyValuePair::VarInt { type_value, value } => KeyValuePair::VarInt {
                type_value: *type_value,
                value: *value,
            },
            KeyValuePair::Bytes { type_value, value } => KeyValuePair::Bytes {
                type_value: *type_value,
                value: value.clone(),
            },
        }
    }

    /// Appends this pair's wire form, its type written as a delta from `prev_type`.
    pub fn push_delta(&self, out: &mut Vec<u8>, prev_type: u64) -> (r: Result<(), ParseError>)
        ensures
            match r {
                Ok(_) => spec_serialize_delta(self@, prev_type) is Ok && final(out)@ == old(out)@
                    + spec_serialize_delta(self@, prev_type)->Ok_0,
                Err(e) => spec_serialize_delta(self@, prev_type) == Err::<Seq<u8>, ErrorKind>(
                    e.kind(),
                ) && final(out)@ == old(out)@,
            },
    {
        let t = self.get_type();
        if t < prev_type {
            return Err(ParseError::ProtocolViolation { context: "KeyValuePair::serialize_delta" });
        }
        push_vi(out, t - prev_type);
        match self {
            KeyValuePair::VarInt { value, .. } => {
                push_vi(out, *value);
            },
            KeyValuePair::Bytes { value, .. } => {
                let data = bytes_as_slice(value);
                push_vi(out, data.len() as u64);
                out.extend_from_slice(data);
            },
        }
        proof {
            assert(final(out)@ =~= old(out)@ + spec_serialize_delta(self@, prev_type)->Ok_0);
        }
        Ok(())
    }

    pub fn serialize(&self) -> (r: Result<Bytes, ParseError>)
        ensures
            match r {
                Ok(b) => spec_serialize_delta(self@, 0) == Ok::<Seq<u8>, ErrorKind>(bytes_view(b)),
                Err(e) => spec_serialize_delta(self@, 0) == Err::<Seq<u8>, ErrorKind>(e.kind()),
            },
    {
        self.serialize_delta(0)
    }

    /// Serializes this pair's wire form, encoding the type as a delta from
    /// `prev_type` (the type of the previous pair in the same list, or 0).
    pub fn serialize_delta(&self, prev_type: u64) -> (r: Result<Bytes, ParseError>)
        ensures
            match r {
                Ok(b) => spec_serialize_delta(self@, prev_type) == Ok::<Seq<u8>, ErrorKind>(
                    bytes_view(b),
                ),
                Err(e) => spec_serialize_delta(self@, prev_type) == Err::<Seq<u8>, ErrorKind>(
                    e.kind(),
                ),
            },
    {
        let mut buf: Vec<u8> = Vec::new();
        self.push_delta(&mut buf, prev_type)?;
        proof {
            assert(buf@ =~= spec_serialize_delta(self@, prev_type)->Ok_0);
        }
        Ok(bytes_from_vec(buf))
    }

    /// Reads the value of a pair whose type is already known: a varint for an
    /// even type, a length-prefixed byte string for an odd one.
    pub fn deserialize_value(bytes: &mut Bytes, type_value: u64) -> (r: Result<Self, ParseError>)
        ensures
            match r {
                Ok(k) => spec_deserialize_value(bytes_view(*old(bytes)), type_value) == Ok::<
                    (KvpView, Seq<u8>),
                    ErrorKind,
                >((k@, bytes_view(*final(bytes)))),
                Err(e) => spec_deserialize_value(bytes_view(*old(bytes)), type_value) == Err::<
                    (KvpView, Seq<u8>),
                    ErrorKind,
                >(e.kind()),
            },
    {
        let v = bytes.get_vi()?;
        if type_value % 2 == 0 {
            return Ok(KeyValuePair::VarInt { type_value, value: v });
        }
        if v > usize::MAX as u64 {
            return Err(
                ParseError::CastingError {
                    context: "KeyValuePair::deserialize length",
                    from_type: "u64",
                    to_type: "usize",
                },
            );
        }
        let len = v as usize;
        if len > MAX_VALUE_LENGTH {
            return Err(
                ParseError::LengthExceedsMax {
                    context: "KeyValuePair::deserialize",
                    max: MAX_VALUE_LENGTH,
                    len,
                },
            );
        }
        let available = bytes_len(bytes);
        if available < len {
            return Err(
                ParseError::NotEnoughBytes {
                    context: "KeyValuePair::deserialize value",
                    needed: len,
                    available,
                },
            );
        }
        let value = bytes_copy_to_bytes(bytes, len);
        Ok(KeyValuePair::Bytes { type_value, value })
    }

    pub fn deserialize(bytes: &mut Bytes) -> (r: Result<Self, ParseError>)
        ensures
            match r {
                Ok(k) => spec_deserialize_delta(bytes_view(*old(bytes)), 0) == Ok::<
                    (KvpView, Seq<u8>),
                    ErrorKind,
                >((k@, bytes_view(*final(bytes)))),
                Err(e) => spec_deserialize_delta(bytes_view(*old(bytes)), 0) == Err::<
                    (KvpView, Seq<u8>),
                    ErrorKind,
                >(e.kind()),
            },
    {
        Self::deserialize_delta(bytes, 0)
    }

    /// Reads a pair whose type is written as a delta from `prev_type`.
    pub fn deserialize_delta(bytes: &mut Bytes, prev_type: u64) -> (r: Result<Self, ParseError>)
        ensures
            match r {
                Ok(k) => spec_deserialize_delta(bytes_view(*old(bytes)), prev_type) == Ok::<
                    (KvpView, Seq<u8>),
                    ErrorKind,
                >((k@, bytes_view(*final(bytes)))),
                Err(e) => spec_deserialize_delta(bytes_view(*old(bytes)), prev_type) == Err::<
                    (KvpView, Seq<u8>),
                    ErrorKind,
                >(e.kind()),
            },
    {
        let delta_type = bytes.get_vi()?;
        if delta_type > u64::MAX - prev_type {
            return Err(ParseError::ProtocolViolation { context: "KeyValuePair::deserialize_delta" });
        }
        let type_value = prev_type + delta_type;
        Self::deserialize_value(bytes, type_value)
    }
}

/// Inserts `x` after every pair of `v` whose type is not above its own.
fn insert_by_type_exec(v: &mut Vec<KeyValuePair>, x: KeyValuePair)
    ensures
        kvps_view(final(v)@) == insert_by_type(kvps_view(old(v)@), x@),
{
    let ghost s = kvps_view(v@);
    let t = x.get_type();
    let mut j = v.len();
    while j > 0 && v[j - 1].get_type() > t
        invariant
            j <= v.len(),
            s == kvps_view(v@),
            forall|i: int| j <= i < s.len() ==> s[i].type_of() > t,
        decreases j,
    {
        j = j - 1;
    }
    proof {
        lemma_insert_by_type_at(s, x@, j as int);
    }
    v.insert(j, x);
    proof {
        assert(kvps_view(v@) =~= s.take(j as int).push(x@) + s.skip(j as int));
    }
}

/// Copies of `items`, stably sorted by ascending type.
pub fn sorted_by_type(items: &[KeyValuePair]) -> (r: Vec<KeyValuePair>)
    ensures
        kvps_view(r@) == sort_by_type(kvps_view(items@)),
{
    let mut sorted: Vec<KeyValuePair> = Vec::new();
    let mut i: usize = 0;
    while i < items.len()
        invariant
            i <= items.len(),
            kvps_view(sorted@) == sort_by_type(kvps_view(items@).take(i as int)),
        decreases items.len() - i,
    {
        let x = items[i].duplicate();
        insert_by_type_exec(&mut sorted, x);
        proof {
            assert(kvps_view(items@).take(i as int + 1).drop_last() =~= kvps_view(items@).take(
                i as int,
            ));
        }
        i = i + 1;
    }
    proof {
        assert(kvps_view(items@).take(items.len() as int) =~= kvps_view(items@));
    }
    sorted
}

/// Delta-encodes and serializes a list of pairs, sorted by ascending type
/// first (stable), since a type delta cannot be negative.
pub fn serialize_kvp_list(items: &[KeyValuePair]) -> (r: Result<Bytes, ParseError>)
    ensures
        r is Ok,
        spec_serialize_kvps(sort_by_type(kvps_view(items@)), 0) == Ok::<Seq<u8>, ErrorKind>(
            bytes_view(r->Ok_0),
        ),
{
    let sorted = sorted_by_type(items);
    proof {
        lemma_sort_by_type(kvps_view(items@));
    }
    let ghost all = kvps_view(sorted@);
    let mut buf: Vec<u8> = Vec::new();
    let mut prev_type: u64 = 0;
    let mut k: usize = 0;
    proof {
        assert(all.skip(0) =~= all);
        assert forall|x: Seq<u8>| #[trigger] (buf@ + x) =~= x by {}
    }
    while k < sorted.len()
        invariant
            k <= sorted.len(),
            all == kvps_view(sorted@),
            all.len() == sorted.len(),
            types_ascending(all),
            k > 0 ==> prev_type == all[k - 1].type_of(),
            k == 0 ==> prev_type == 0,
            spec_serialize_kvps(all, 0) == (match spec_serialize_kvps(all.skip(k as int), prev_type) {
                Ok(rest) => Ok::<Seq<u8>, ErrorKind>(buf@ + rest),
                Err(e) => Err(e),
            }),
        decreases sorted.len() - k,
    {
        let ghost tail = all.skip(k as int);
        let ghost before = buf@;
        proof {
            assert(tail[0] == all[k as int]);
            assert(tail.skip(1) =~= all.skip(k as int + 1));
            assert(all[k as int] == sorted@[k as int]@);
            if k > 0 {
                assert(all[k - 1].type_of() <= all[k as int].type_of());
            }
        }
        let r = sorted[k].push_delta(&mut buf, prev_type);
        match r {
            Ok(_) => {},
            Err(_) => {
                proof {
                    assert(false);
                }
            },
        }
        prev_type = sorted[k].get_type();
        proof {
            let d = spec_serialize_delta(tail[0], (if k == 0 { 0 } else { all[k - 1].type_of() }) as u64)->Ok_0;
            assert(buf@ == before + d);
            assert forall|x: Seq<u8>| #[trigger] (before + (d + x)) =~= buf@ + x by {}
        }
        k = k + 1;
    }
    proof {
        assert(all.skip(sorted.len() as int) =~= Seq::<KvpView>::empty());
        assert(buf@ + Seq::<u8>::empty() =~= buf@);
    }
    Ok(bytes_from_vec(buf))
}

/// Reads exactly `count` delta-encoded pairs from `bytes`.
pub fn deserialize_kvp_list(bytes: &mut Bytes, count: u64) -> (r: Result<Vec<KeyValuePair>, ParseError>)
    ensures
        match r {
            Ok(v) => spec_deserialize_kvps(bytes_view(*old(bytes)), count as nat, 0) == Ok::<
                (Seq<KvpView>, Seq<u8>),
                ErrorKind,
            >((kvps_view(v@), bytes_view(*final(bytes)))),
            Err(e) => spec_deserialize_kvps(bytes_view(*old(bytes)), count as nat, 0) == Err::<
                (Seq<KvpView>, Seq<u8>),
                ErrorKind,
            >(e.kind()),
        },
{
    let ghost orig = bytes_view(*bytes);
    let mut items: Vec<KeyValuePair> = Vec::new();
    let mut prev_type: u64 = 0;
    let mut i: u64 = 0;
    while i < count
        invariant
            i <= count,
            orig == bytes_view(*old(bytes)),
            spec_deserialize_kvps(orig, count as nat, 0) == (match spec_deserialize_kvps(
                bytes_view(*bytes),
                (count - i) as nat,
                prev_type,
            ) {
                Ok((ks, rest)) => Ok::<(Seq<KvpView>, Seq<u8>), ErrorKind>(
                    (kvps_view(items@) + ks, rest),
                ),
                Err(e) => Err(e),
            }),
        decreases count - i,
    {
        let ghost cur = bytes_view(*bytes);
        let kvp = match KeyValuePair::deserialize_delta(bytes, prev_type) {
            Ok(kvp) => kvp,
            Err(e) => {
                proof {
                    assert(spec_deserialize_kvps(cur, (count - i) as nat, prev_type) == Err::<
                        (Seq<KvpView>, Seq<u8>),
                        ErrorKind,
                    >(e.kind()));
                    assert(spec_deserialize_kvps(orig, count as nat, 0) == Err::<
                        (Seq<KvpView>, Seq<u8>),
                        ErrorKind,
                    >(e.kind()));
                }
                return Err(e);
            },
        };
        prev_type = kvp.get_type();
        let ghost before = kvps_view(items@);
        items.push(kvp);
        proof {
            assert(kvps_view(items@) =~= before.push(kvp@));
            assert forall|ks: Seq<KvpView>| #[trigger] (before + (seq![kvp@] + ks)) =~= kvps_view(items@) + ks by {}
        }
        i = i + 1;
    }
    proof {
        assert(kvps_view(items@) + Seq::<KvpView>::empty() =~= kvps_view(items@));
    }
    Ok(items)
}

/// Reads delta-encoded pairs from `bytes` until it is exhausted.
pub fn deserialize_kvp_list_until_empty(bytes: &mut Bytes) -> (r: Result<Vec<KeyValuePair>, ParseError>)
    ensures
        match r {
            Ok(v) => spec_deserialize_kvps_until_empty(bytes_view(*old(bytes)), 0) == Ok::<
                Seq<KvpView>,
                ErrorKind,
            >(kvps_view(v@)) && bytes_view(*final(bytes)).len() == 0,
            Err(e) => spec_deserialize_kvps_until_empty(bytes_view(*old(bytes)), 0) == Err::<
                Seq<KvpView>,
                ErrorKind,
            >(e.kind()),
        },
{
    let ghost orig = bytes_view(*bytes);
    let mut items: Vec<KeyValuePair> = Vec::new();
    let mut prev_type: u64 = 0;
    while bytes_len(bytes) > 0
        invariant
            orig == bytes_view(*old(bytes)),
            spec_deserialize_kvps_until_empty(orig, 0) == (match spec_deserialize_kvps_until_empty(
                bytes_view(*bytes),
                prev_type,
            ) {
                Ok(ks) => Ok::<Seq<KvpView>, ErrorKind>(kvps_view(items@) + ks),
                Err(e) => Err(e),
            }),
        decreases bytes_view(*bytes).len(),
    {
        let ghost cur = bytes_view(*bytes);
        let kvp = match KeyValuePair::deserialize_delta(bytes, prev_type) {
            Ok(kvp) => kvp,
            Err(e) => {
                proof {
                    assert(spec_deserialize_kvps_until_empty(cur, prev_type) == Err::<
                        Seq<KvpView>,
                        ErrorKind,
                    >(e.kind()));
                }
                return Err(e);
            },
        };
        proof {
            lemma_deserialize_delta_consumes(cur, prev_type);
        }
        prev_type = kvp.get_type();
        let ghost before = kvps_view(items@);
        items.push(kvp);
        proof {
            assert(kvps_view(items@) =~= before.push(kvp@));
            assert forall|ks: Seq<KvpView>| #[trigger] (before + (seq![kvp@] + ks)) =~= kvps_view(items@) + ks by {}
        }
    }
    proof {
        assert(kvps_view(items@) + Seq::<KvpView>::empty() =~= kvps_view(items@));
    }
    Ok(items)
}

} // verus!
