use crate::buf::{bytes_as_slice, bytes_copy_to_bytes, bytes_from_vec, bytes_len, bytes_view};
use crate::error::{ErrorKind, ParseError};
use crate::model::common::varint::{
    lemma_vi_roundtrip, push_vi, spec_get_vi, spec_vi_encode, BufVarIntExt,
};
use bytes::Bytes;
use vstd::prelude::*;
use vstd::string::StringSliceAdditionalSpecFns;

verus! {

/// One field of a tuple: an opaque byte string.
#[derive(Debug, Clone, PartialEq, Eq, Hash)]
pub struct TupleField {
    pub value: Bytes,
}

impl View for TupleField {
    type V = Seq<u8>;

    open spec fn view(&self) -> Seq<u8> {
        bytes_view(self.value)
    }
}

/// An ordered list of fields, such as a track namespace.
#[derive(Debug, Clone, PartialEq, Eq, Hash)]
pub struct Tuple {
    pub fields: Vec<TupleField>,
}

pub open spec fn fields_view(fs: Seq<TupleField>) -> Seq<Seq<u8>> {
    fs.map_values(|f: TupleField| f@)
}

impl View for Tuple {
    type V = Seq<Seq<u8>>;

    open spec fn view(&self) -> Seq<Seq<u8>> {
        fields_view(self.fields@)
    }
}

/// The wire form of a list of fields: each is its length followed by its bytes.
pub open spec fn spec_fields_bytes(fs: Seq<Seq<u8>>) -> Seq<u8>
    decreases fs.len(),
{
    if fs.len() == 0 {
        Seq::empty()
    } else {
        spec_vi_encode(fs[0].len() as u64) + fs[0] + spec_fields_bytes(fs.skip(1))
    }
}

/// The wire form of a tuple: the field count, then the fields.
pub open spec fn spec_serialize_tuple(fs: Seq<Seq<u8>>) -> Seq<u8> {
    spec_vi_encode(fs.len() as u64) + spec_fields_bytes(fs)
}

/// Reading one length-prefixed byte string.
pub open spec fn spec_deserialize_field(s: Seq<u8>) -> Result<(Seq<u8>, Seq<u8>), ErrorKind> {
    match spec_get_vi(s) {
        Err(e) => Err(e),
        Ok((l, r)) => if l > usize::MAX {
            Err(ErrorKind::CastingError)
        } else if r.len() < l {
            Err(ErrorKind::NotEnoughBytes)
        } else {
            Ok((r.take(l as int), r.skip(l as int)))
        },
    }
}

/// Reading `count` length-prefixed fields.
pub open spec fn spec_deserialize_fields(s: Seq<u8>, count: nat) -> Result<
    (Seq<Seq<u8>>, Seq<u8>),
    ErrorKind,
>
    decreases count,
{
    if count == 0 {
        Ok((Seq::empty(), s))
    } else {
        match spec_deserialize_field(s) {
            Err(e) => Err(e),
            Ok((f, r)) => match spec_deserialize_fields(r, (count - 1) as nat) {
                Err(e) => Err(e),
                Ok((fs, r2)) => Ok((seq![f] + fs, r2)),
            },
        }
    }
}

/// Reading a tuple: its field count, then that many fields.
pub open spec fn spec_deserialize_tuple(s: Seq<u8>) -> Result<(Seq<Seq<u8>>, Seq<u8>), ErrorKind> {
    match spec_get_vi(s) {
        Err(e) => Err(e),
        Ok((n, r)) => spec_deserialize_fields(r, n as nat),
    }
}

/// The non-empty segments of `s` between `/` separators, the first one
/// continuing the partial segment `cur`.
pub open spec fn spec_path_segments(s: Seq<u8>, cur: Seq<u8>) -> Seq<Seq<u8>>
    decreases s.len(),
{
    let done: Seq<Seq<u8>> = if cur.len() == 0 {
        Seq::empty()
    } else {
        seq![cur]
    };
    if s.len() == 0 {
        done
    } else if s[0] == 0x2F {
        done + spec_path_segments(s.skip(1), Seq::empty())
    } else {
        spec_path_segments(s.skip(1), cur.push(s[0]))
    }
}

/// The wire form of a single field: its length, then its bytes.
pub open spec fn spec_field_bytes(f: Seq<u8>) -> Seq<u8> {
    spec_vi_encode(f.len() as u64) + f
}

/// A field written out is read back, leaving what follows untouched.
pub proof fn lemma_field_roundtrip(f: Seq<u8>, rest: Seq<u8>)
    requires
        f.len() <= usize::MAX,
    ensures
        spec_deserialize_field(spec_field_bytes(f) + rest) == Ok::<(Seq<u8>, Seq<u8>), ErrorKind>(
            (f, rest),
        ),
{
    lemma_vi_roundtrip(f.len() as u64, f + rest);
    assert(spec_field_bytes(f) + rest =~= spec_vi_encode(f.len() as u64) + (f + rest));
    assert((f + rest).take(f.len() as int) =~= f);
    assert((f + rest).skip(f.len() as int) =~= rest);
}

pub open spec fn fields_fit(fs: Seq<Seq<u8>>) -> bool {
    forall|i: int| 0 <= i < fs.len() ==> #[trigger] fs[i].len() <= usize::MAX
}

/// Serialized fields are read back whole, leaving what follows untouched.
#[verifier::spinoff_prover]
#[verifier::rlimit(40)]
pub proof fn lemma_fields_roundtrip(fs: Seq<Seq<u8>>, rest: Seq<u8>)
    requires
        fields_fit(fs),
    ensures
        spec_deserialize_fields(spec_fields_bytes(fs) + rest, fs.len()) == Ok::<
            (Seq<Seq<u8>>, Seq<u8>),
            ErrorKind,
        >((fs, rest)),
    decreases fs.len(),
{
    if fs.len() == 0 {
        assert(Seq::<u8>::empty() + rest =~= rest);
        assert(fs =~= Seq::<Seq<u8>>::empty());
    } else {
        let f = fs[0];
        let t = fs.skip(1);
        assert forall|i: int| 0 <= i < t.len() implies #[trigger] t[i].len() <= usize::MAX by {
            assert(t[i] == fs[i + 1]);
        }
        lemma_fields_roundtrip(t, rest);
        let tail = spec_fields_bytes(t) + rest;
        lemma_vi_roundtrip(f.len() as u64, f + tail);
        let all = spec_fields_bytes(fs) + rest;
        assert(spec_fields_bytes(fs) == spec_vi_encode(f.len() as u64) + f + spec_fields_bytes(t));
        assert(all =~= spec_vi_encode(f.len() as u64) + (f + tail));
        assert((f + tail).take(f.len() as int) =~= f);
        assert((f + tail).skip(f.len() as int) =~= tail);
        assert(seq![f] + t =~= fs);
        assert(spec_deserialize_field(all) == Ok::<(Seq<u8>, Seq<u8>), ErrorKind>((f, tail)));
        assert((fs.len() - 1) as nat == t.len());
    }
}

/// A serialized tuple is read back whole, leaving what follows untouched.
pub proof fn lemma_tuple_roundtrip(fs: Seq<Seq<u8>>, rest: Seq<u8>)
    requires
        fields_fit(fs),
        fs.len() <= u64::MAX,
    ensures
        spec_deserialize_tuple(spec_serialize_tuple(fs) + rest) == Ok::<
            (Seq<Seq<u8>>, Seq<u8>),
            ErrorKind,
        >((fs, rest)),
{
    lemma_fields_roundtrip(fs, rest);
    lemma_vi_roundtrip(fs.len() as u64, spec_fields_bytes(fs) + rest);
    assert(spec_serialize_tuple(fs) + rest =~= spec_vi_encode(fs.len() as u64) + (spec_fields_bytes(
        fs,
    ) + rest));
}

/// Appends each field's length and bytes.
pub fn push_fields(out: &mut Vec<u8>, fields: &Vec<TupleField>)
    ensures
        final(out)@ == old(out)@ + spec_fields_bytes(fields_view(fields@)),
{
    let ghost all = fields_view(fields@);
    let ghost start = out@;
    let mut i: usize = 0;
    proof {
        assert(all.skip(0) =~= all);
    }
    while i < fields.len()
        invariant
            i <= fields.len(),
            all == fields_view(fields@),
            all.len() == fields.len(),
            start + spec_fields_bytes(all) == out@ + spec_fields_bytes(all.skip(i as int)),
        decreases fields.len() - i,
    {
        let ghost before = out@;
        let data = bytes_as_slice(&fields[i].value);
        push_vi(out, data.len() as u64);
        out.extend_from_slice(data);
        proof {
            let t = all.skip(i as int);
            assert(t[0] == all[i as int]);
            assert(t.skip(1) =~= all.skip(i as int + 1));
            assert(before + spec_fields_bytes(t) =~= out@ + spec_fields_bytes(all.skip(i as int + 1)));
        }
        i = i + 1;
    }
    proof {
        assert(all.skip(fields.len() as int) =~= Seq::<Seq<u8>>::empty());
        assert(out@ + Seq::<u8>::empty() =~= out@);
    }
}

/// Reads one length-prefixed byte string as a field.
pub fn deserialize_field(bytes: &mut Bytes) -> (r: Result<TupleField, ParseError>)
    ensures
        match r {
            Ok(f) => spec_deserialize_field(bytes_view(*old(bytes))) == Ok::<
                (Seq<u8>, Seq<u8>),
                ErrorKind,
            >((f@, bytes_view(*final(bytes)))),
            Err(e) => spec_deserialize_field(bytes_view(*old(bytes))) == Err::<
                (Seq<u8>, Seq<u8>),
                ErrorKind,
            >(e.kind()),
        },
{
    let l = bytes.get_vi()?;
    if l > usize::MAX as u64 {
        return Err(
            ParseError::CastingError {
                context: "TupleField::deserialize(length)",
                from_type: "u64",
                to_type: "usize",
            },
        );
    }
    let len = l as usize;
    let available = bytes_len(bytes);
    if available < len {
        return Err(
            ParseError::NotEnoughBytes { context: "TupleField::deserialize", needed: len, available },
        );
    }
    let value = bytes_copy_to_bytes(bytes, len);
    Ok(TupleField { value })
}

/// Whether two byte strings are equal.
pub fn slices_equal(a: &[u8], b: &[u8]) -> (r: bool)
    ensures
        r == (a@ == b@),
{
    if a.len() != b.len() {
        return false;
    }
    let mut i: usize = 0;
    while i < a.len()
        invariant
            a.len() == b.len(),
            i <= a.len(),
            forall|j: int| 0 <= j < i ==> a@[j] == b@[j],
        decreases a.len() - i,
    {
        if a[i] != b[i] {
            return false;
        }
        i = i + 1;
    }
    proof {
        assert(a@ =~= b@);
    }
    true
}

impl TupleField {
    pub fn new(value: Bytes) -> (f: Self)
        ensures
            f@ == bytes_view(value),
    {
        TupleField { value }
    }

    /// A field holding the UTF-8 bytes of `s`.
    pub fn from_utf8(s: &str) -> (f: Self)
        ensures
            f@ == s.spec_bytes(),
    {
        let data = s.as_bytes();
        let mut v: Vec<u8> = Vec::new();
        v.extend_from_slice(data);
        TupleField { value: bytes_from_vec(v) }
    }

    pub fn len(&self) -> (n: usize)
        ensures
            n == self@.len(),
    {
        bytes_len(&self.value)
    }

    pub fn as_bytes(&self) -> (s: &[u8])
        ensures
            s@ == self@,
    {
        bytes_as_slice(&self.value)
    }

    /// Appends the field's length and bytes.
    pub fn push_serialized(&self, out: &mut Vec<u8>)
        ensures
            final(out)@ == old(out)@ + spec_field_bytes(self@),
    {
        let data = bytes_as_slice(&self.value);
        push_vi(out, data.len() as u64);
        out.extend_from_slice(data);
        proof {
            assert(final(out)@ =~= old(out)@ + spec_field_bytes(self@));
        }
    }

    /// Another field over the same bytes.
    pub fn duplicate(&self) -> (r: TupleField)
        ensures
            r@ == self@,
    {
        TupleField { value: self.value.clone() }
    }

    /// Whether both fields hold the same bytes.
    pub fn same_bytes(&self, other: &TupleField) -> (r: bool)
        ensures
            r == (self@ == other@),
    {
        slices_equal(self.as_bytes(), other.as_bytes())
    }
}

impl Tuple {
    pub fn new() -> (t: Self)
        ensures
            t@ == Seq::<Seq<u8>>::empty(),
    {
        let t = Tuple { fields: Vec::new() };
        proof {
            assert(t@ =~= Seq::<Seq<u8>>::empty());
        }
        t
    }

    pub fn add(&mut self, field: TupleField)
        ensures
            final(self)@ == old(self)@.push(field@),
    {
        self.fields.push(field);
        proof {
            assert(final(self)@ =~= old(self)@.push(field@));
        }
    }

    /// The tuple of the non-empty `/`-separated segments of `path`.
    pub fn from_utf8_path(path: &str) -> (t: Self)
        ensures
            t@ == spec_path_segments(path.spec_bytes(), Seq::empty()),
    {
        let s = path.as_bytes();
        let mut t = Tuple::new();
        let mut cur: Vec<u8> = Vec::new();
        let mut i: usize = 0;
        proof {
            assert(s@.skip(0) =~= s@);
        }
        while i < s.len()
            invariant
                i <= s.len(),
                spec_path_segments(s@, Seq::empty()) == t@ + spec_path_segments(
                    s@.skip(i as int),
                    cur@,
                ),
            decreases s.len() - i,
        {
            let ghost rest = s@.skip(i as int);
            proof {
                assert(rest[0] == s@[i as int]);
                assert(rest.skip(1) =~= s@.skip(i as int + 1));
            }
            if s[i] == 0x2F {
                if cur.len() > 0 {
                    t.add(TupleField { value: bytes_from_vec(cur) });
                    cur = Vec::new();
                }
                proof {
                    assert(cur@ =~= Seq::<u8>::empty());
                }
            } else {
                cur.push(s[i]);
            }
            proof {
                assert forall|x: Seq<Seq<u8>>, y: Seq<Seq<u8>>, z: Seq<Seq<u8>>| #[trigger] ((x + y) + z) =~= x + (y + z) by {}
            }
            i = i + 1;
        }
        proof {
            assert(s@.skip(s.len() as int) =~= Seq::<u8>::empty());
        }
        if cur.len() > 0 {
            t.add(TupleField { value: bytes_from_vec(cur) });
        } else {
            proof {
                assert(t@ + Seq::<Seq<u8>>::empty() =~= t@);
            }
        }
        proof {
            assert(t@ == spec_path_segments(s@, Seq::empty()));
        }
        t
    }

    /// Serializes the field count followed by each field's length and bytes.
    pub fn serialize(&self) -> (r: Result<Bytes, ParseError>)
        ensures
            r matches Ok(b) && bytes_view(b) == spec_serialize_tuple(self@),
    {
        let mut out: Vec<u8> = Vec::new();
        push_vi(&mut out, self.fields.len() as u64);
        push_fields(&mut out, &self.fields);
        proof {
            assert(out@ =~= spec_serialize_tuple(self@));
        }
        Ok(bytes_from_vec(out))
    }

    /// Appends the serialized tuple.
    pub fn push_serialized(&self, out: &mut Vec<u8>)
        ensures
            final(out)@ == old(out)@ + spec_serialize_tuple(self@),
    {
        let ghost start = out@;
        push_vi(out, self.fields.len() as u64);
        push_fields(out, &self.fields);
        proof {
            assert(final(out)@ =~= start + spec_serialize_tuple(self@));
        }
    }

    /// Reads a field count and that many length-prefixed fields.
    pub fn deserialize(bytes: &mut Bytes) -> (r: Result<Self, ParseError>)
        ensures
            match r {
                Ok(t) => spec_deserialize_tuple(bytes_view(*old(bytes))) == Ok::<
                    (Seq<Seq<u8>>, Seq<u8>),
                    ErrorKind,
                >((t@, bytes_view(*final(bytes)))),
                Err(e) => spec_deserialize_tuple(bytes_view(*old(bytes))) == Err::<
                    (Seq<Seq<u8>>, Seq<u8>),
                    ErrorKind,
                >(e.kind()),
            },
    {
        let ghost orig = bytes_view(*bytes);
        let count = bytes.get_vi()?;
        let mut t = Tuple::new();
        let mut i: u64 = 0;
        while i < count
            invariant
                i <= count,
                orig == bytes_view(*old(bytes)),
                spec_deserialize_tuple(orig) == (match spec_deserialize_fields(
                    bytes_view(*bytes),
                    (count - i) as nat,
                ) {
                    Ok((fs, rest)) => Ok::<(Seq<Seq<u8>>, Seq<u8>), ErrorKind>((t@ + fs, rest)),
                    Err(e) => Err(e),
                }),
            decreases count - i,
        {
            let ghost cur = bytes_view(*bytes);
            let f = match deserialize_field(bytes) {
                Ok(f) => f,
                Err(e) => {
                    proof {
                        assert(spec_deserialize_fields(cur, (count - i) as nat) == Err::<
                            (Seq<Seq<u8>>, Seq<u8>),
                            ErrorKind,
                        >(e.kind()));
                    }
                    return Err(e);
                },
            };
            let ghost before = t@;
            t.add(f);
            proof {
                assert forall|fs: Seq<Seq<u8>>| #[trigger] (before + (seq![f@] + fs)) =~= t@ + fs by {}
            }
            i = i + 1;
        }
        proof {
            assert(t@ + Seq::<Seq<u8>>::empty() =~= t@);
        }
        Ok(t)
    }

    /// A tuple holding the same fields.
    pub fn duplicate(&self) -> (r: Tuple)
        ensures
            r@ == self@,
    {
        let mut fields: Vec<TupleField> = Vec::new();
        let mut i: usize = 0;
        while i < self.fields.len()
            invariant
                i <= self.fields.len(),
                fields@.len() == i,
                forall|j: int| 0 <= j < i ==> #[trigger] fields@[j]@ == self.fields@[j]@,
            decreases self.fields.len() - i,
        {
            fields.push(self.fields[i].duplicate());
            i = i + 1;
        }
        let r = Tuple { fields };
        proof {
            assert(r@ =~= self@);
        }
        r
    }

    /// Whether both tuples hold the same fields.
    pub fn same_fields(&self, other: &Tuple) -> (r: bool)
        ensures
            r == (self@ == other@),
    {
        if self.fields.len() != other.fields.len() {
            proof {
                assert(self@.len() != other@.len());
            }
            return false;
        }
        let mut i: usize = 0;
        while i < self.fields.len()
            invariant
                self.fields.len() == other.fields.len(),
                i <= self.fields.len(),
                forall|j: int| 0 <= j < i ==> self@[j] == other@[j],
            decreases self.fields.len() - i,
        {
            if !self.fields[i].same_bytes(&other.fields[i]) {
                proof {
                    assert(self@[i as int] != other@[i as int]);
                }
                return false;
            }
            i = i + 1;
        }
        proof {
            assert(self@ =~= other@);
        }
        true
    }
}

} // verus!
