//! Object datagrams: one object, with its payload or its status, in a single
//! datagram whose type byte says which fields are written out.
use crate::buf::{bytes_as_slice, bytes_copy_to_bytes, bytes_from_vec, bytes_get_u8, bytes_len, bytes_view};
use crate::error::{ErrorKind, ParseError};
use crate::model::common::pair::{
    all_wf, kvps_view, lemma_deserialize_delta_consumes, lemma_kvp_roundtrip, spec_deserialize_delta,
    KeyValuePair, KvpView,
};
use crate::model::common::varint::{
    lemma_vi_encode_len, lemma_vi_roundtrip, push_vi, spec_get_vi, spec_vi_encode, BufVarIntExt,
};
use crate::model::data::constant::{
    lemma_datagram_type_flags, spec_datagram_type_error, spec_datagram_type_from_properties,
    ObjectDatagramType, ObjectStatus,
};
use crate::model::extension_header::immutable::{
    lemma_kvp_bytes_is_delta_from_zero, push_concat_kvps, spec_concat_kvps, spec_kvp_bytes,
};
use bytes::Bytes;
use vstd::prelude::*;
use vstd::seq_lib::lemma_concat_associative;

verus! {

/// An Object Datagram.
///
/// Type bit layout (form 0b00X0XXXX):
/// - Bit 0 (0x01): EXTENSIONS - Extensions field present
/// - Bit 1 (0x02): END_OF_GROUP - Last object in group
/// - Bit 2 (0x04): ZERO_OBJECT_ID - Object ID omitted (assumed 0)
/// - Bit 3 (0x08): DEFAULT_PRIORITY - Publisher Priority omitted (inherited)
/// - Bit 5 (0x20): STATUS - Object Status replaces Object Payload
///
/// Payload datagrams carry `payload` (Some) and `object_status` (None).
/// Status datagrams carry `object_status` (Some) and `payload` (None).
#[derive(Debug, Clone, PartialEq)]
pub struct Datagram {
    pub track_alias: u64,
    pub group_id: u64,
    pub object_id: u64,
    pub publisher_priority: Option<u8>,
    pub extension_headers: Option<Vec<KeyValuePair>>,
    pub payload: Option<Bytes>,
    pub object_status: Option<ObjectStatus>,
    pub end_of_group: bool,
}

/// What a datagram holds, with its headers and payload as sequences.
pub struct DatagramView {
    pub track_alias: u64,
    pub group_id: u64,
    pub object_id: u64,
    pub publisher_priority: Option<u8>,
    pub extension_headers: Option<Seq<KvpView>>,
    pub payload: Option<Seq<u8>>,
    pub object_status: Option<ObjectStatus>,
    pub end_of_group: bool,
}

impl View for Datagram {
    type V = DatagramView;

    open spec fn view(&self) -> DatagramView {
        DatagramView {
            track_alias: self.track_alias,
            group_id: self.group_id,
            object_id: self.object_id,
            publisher_priority: self.publisher_priority,
            extension_headers: match self.extension_headers {
                Some(v) => Some(kvps_view(v@)),
                None => None,
            },
            payload: match self.payload {
                Some(b) => Some(bytes_view(b)),
                None => None,
            },
            object_status: self.object_status,
            end_of_group: self.end_of_group,
        }
    }
}

/// The type byte a datagram is written with.
pub open spec fn spec_datagram_type(d: DatagramView) -> u8 {
    spec_datagram_type_from_properties(
        d.extension_headers is Some,
        d.end_of_group,
        d.object_id == 0,
        d.publisher_priority is None,
        d.object_status is Some,
    )
}

/// The extension headers as written: their length, then each pair with its
/// type whole; nothing when the datagram has none.
pub open spec fn spec_datagram_ext_part(h: Option<Seq<KvpView>>) -> Seq<u8> {
    match h {
        None => Seq::empty(),
        Some(ks) => spec_vi_encode(spec_concat_kvps(ks).len() as u64) + spec_concat_kvps(ks),
    }
}

/// The fields between the type byte and the extension headers.
pub open spec fn spec_datagram_fields(d: DatagramView) -> Seq<u8> {
    spec_vi_encode(d.track_alias) + spec_vi_encode(d.group_id) + (if d.object_id == 0 {
        Seq::empty()
    } else {
        spec_vi_encode(d.object_id)
    }) + (match d.publisher_priority {
        Some(p) => seq![p],
        None => Seq::empty(),
    })
}

/// What follows the extension headers: the status, or else the payload.
pub open spec fn spec_datagram_body(d: DatagramView) -> Seq<u8> {
    match d.object_status {
        Some(st) => spec_vi_encode(st.spec_value()),
        None => match d.payload {
            Some(p) => p,
            None => Seq::empty(),
        },
    }
}

/// The wire form of a datagram; a status datagram may not end its group.
pub open spec fn spec_serialize_datagram(d: DatagramView) -> Result<Seq<u8>, ErrorKind> {
    if d.object_status is Some && d.end_of_group {
        Err(ErrorKind::ProtocolViolation)
    } else {
        Ok(
            spec_vi_encode(spec_datagram_type(d) as u64) + spec_datagram_fields(d)
                + spec_datagram_ext_part(d.extension_headers) + spec_datagram_body(d),
        )
    }
}


/// Reading extension headers, each with its type whole, until the bytes run out.
pub open spec fn spec_read_datagram_headers(s: Seq<u8>) -> Result<Seq<KvpView>, ErrorKind>
    decreases s.len(),
{
    if s.len() == 0 {
        Ok(Seq::empty())
    } else {
        match spec_deserialize_delta(s, 0) {
            Err(e) => Err(e),
            Ok((k, r)) => {
                proof {
                    lemma_deserialize_delta_consumes(s, 0);
                }
                match spec_read_datagram_headers(r) {
                    Err(e) => Err(e),
                    Ok(ks) => Ok(seq![k] + ks),
                }
            },
        }
    }
}

/// Reading the extension headers if the type says they are there: an empty
/// or unreadable header block is a protocol violation.
pub open spec fn spec_read_datagram_ext(present: bool, s: Seq<u8>) -> Result<
    (Option<Seq<KvpView>>, Seq<u8>),
    ErrorKind,
> {
    if !present {
        Ok((None, s))
    } else {
        match spec_get_vi(s) {
            Err(e) => Err(e),
            Ok((n, r)) => if n == 0 {
                Err(ErrorKind::ProtocolViolation)
            } else if n > usize::MAX {
                Err(ErrorKind::CastingError)
            } else if r.len() < n {
                Err(ErrorKind::NotEnoughBytes)
            } else {
                match spec_read_datagram_headers(r.take(n as int)) {
                    Err(_) => Err(ErrorKind::ProtocolViolation),
                    Ok(ks) => Ok((Some(ks), r.skip(n as int))),
                }
            },
        }
    }
}

/// Reading a field that is present as a varint, or else 0.
pub open spec fn spec_read_vi_or_zero(present: bool, s: Seq<u8>) -> Result<(u64, Seq<u8>), ErrorKind> {
    if present {
        spec_get_vi(s)
    } else {
        Ok((0, s))
    }
}

/// Reading the publisher priority byte if it is there.
pub open spec fn spec_read_datagram_priority(present: bool, s: Seq<u8>) -> Result<
    (Option<u8>, Seq<u8>),
    ErrorKind,
> {
    if !present {
        Ok((None, s))
    } else if s.len() < 1 {
        Err(ErrorKind::NotEnoughBytes)
    } else {
        Ok((Some(s[0]), s.skip(1)))
    }
}

/// Reading what follows the extension headers: an Object Status, which must
/// name a known status, or else the payload, which is all that is left.
pub open spec fn spec_read_datagram_body(is_status: bool, s: Seq<u8>) -> Result<
    ((Option<Seq<u8>>, Option<ObjectStatus>), Seq<u8>),
    ErrorKind,
> {
    if is_status {
        match spec_get_vi(s) {
            Err(e) => Err(e),
            Ok((v, r)) => match ObjectStatus::spec_from_value(v) {
                None => Err(ErrorKind::InvalidType),
                Some(st) => Ok(((None, Some(st)), r)),
            },
        }
    } else {
        Ok(((Some(s), None), Seq::empty()))
    }
}

/// Reading the fields of a datagram of type `t` that follow the type.
#[verifier::opaque]
pub open spec fn spec_read_datagram_fields(t: u8, s: Seq<u8>) -> Result<(DatagramView, Seq<u8>), ErrorKind> {
    match spec_get_vi(s) {
        Err(e) => Err(e),
        Ok((track_alias, s1)) => match spec_get_vi(s1) {
            Err(e) => Err(e),
            Ok((group_id, s2)) => match spec_read_vi_or_zero(t & 0x04 == 0, s2) {
                Err(e) => Err(e),
                Ok((object_id, s3)) => match spec_read_datagram_priority(t & 0x08 == 0, s3) {
                    Err(e) => Err(e),
                    Ok((publisher_priority, s4)) => match spec_read_datagram_ext(t & 0x01 != 0, s4) {
                        Err(e) => Err(e),
                        Ok((extension_headers, s5)) => match spec_read_datagram_body(t & 0x20 != 0, s5) {
                            Err(e) => Err(e),
                            Ok(((payload, object_status), s6)) => Ok(
                                (
                                    DatagramView {
                                        track_alias,
                                        group_id,
                                        object_id,
                                        publisher_priority,
                                        extension_headers,
                                        payload,
                                        object_status,
                                        end_of_group: t & 0x02 != 0,
                                    },
                                    s6,
                                ),
                            ),
                        },
                    },
                },
            },
        },
    }
}

/// Reading a datagram: its type, which must be valid, then its fields.
pub open spec fn spec_deserialize_datagram(s: Seq<u8>) -> Result<(DatagramView, Seq<u8>), ErrorKind> {
    match spec_get_vi(s) {
        Err(e) => Err(e),
        Ok((t, r)) => match spec_datagram_type_error(t) {
            Some(e) => Err(e),
            None => spec_read_datagram_fields(t as u8, r),
        },
    }
}

impl Datagram {
    /// Create a new payload datagram.
    pub fn new_payload(
        track_alias: u64,
        group_id: u64,
        object_id: u64,
        publisher_priority: Option<u8>,
        extension_headers: Option<Vec<KeyValuePair>>,
        payload: Bytes,
        end_of_group: bool,
    ) -> (d: Self)
        ensures
            d.track_alias == track_alias,
            d.group_id == group_id,
            d.object_id == object_id,
            d.publisher_priority == publisher_priority,
            d.extension_headers == extension_headers,
            d.payload == Some(payload),
            d.object_status is None,
            d.end_of_group == end_of_group,
    {
        Datagram {
            track_alias,
            group_id,
            object_id,
            publisher_priority,
            extension_headers,
            payload: Some(payload),
            object_status: None,
            end_of_group,
        }
    }

    /// Create a new status datagram. Its end_of_group is false, since STATUS
    /// together with END_OF_GROUP is a protocol violation.
    pub fn new_status(
        track_alias: u64,
        group_id: u64,
        object_id: u64,
        publisher_priority: Option<u8>,
        extension_headers: Option<Vec<KeyValuePair>>,
        object_status: ObjectStatus,
    ) -> (d: Self)
        ensures
            d.track_alias == track_alias,
            d.group_id == group_id,
            d.object_id == object_id,
            d.publisher_priority == publisher_priority,
            d.extension_headers == extension_headers,
            d.payload is None,
            d.object_status == Some(object_status),
            !d.end_of_group,
    {
        Datagram {
            track_alias,
            group_id,
            object_id,
            publisher_priority,
            extension_headers,
            payload: None,
            object_status: Some(object_status),
            end_of_group: false,
        }
    }

    /// Create a simple payload datagram without extensions.
    pub fn new(track_alias: u64, group_id: u64, object_id: u64, publisher_priority: u8, payload: Bytes) -> (d: Self)
        ensures
            d.track_alias == track_alias,
            d.group_id == group_id,
            d.object_id == object_id,
            d.publisher_priority == Some(publisher_priority),
            d.extension_headers is None,
            d.payload == Some(payload),
            d.object_status is None,
            !d.end_of_group,
    {
        Datagram {
            track_alias,
            group_id,
            object_id,
            publisher_priority: Some(publisher_priority),
            extension_headers: None,
            payload: Some(payload),
            object_status: None,
            end_of_group: false,
        }
    }

    /// The wire form of this datagram.
    pub fn serialize(&self) -> (r: Result<Bytes, ParseError>)
        ensures
            match r {
                Ok(b) => spec_serialize_datagram(self@) == Ok::<Seq<u8>, ErrorKind>(bytes_view(b)),
                Err(e) => spec_serialize_datagram(self@) == Err::<Seq<u8>, ErrorKind>(e.kind()),
            },
    {
        let is_status = self.object_status.is_some();
        let dtype = ObjectDatagramType::from_properties(
            self.extension_headers.is_some(),
            self.end_of_group,
            self.object_id == 0,
            self.publisher_priority.is_none(),
            is_status,
        )?;
        let mut out: Vec<u8> = Vec::new();
        push_vi(&mut out, dtype.value() as u64);
        let ghost head = out@;
        push_vi(&mut out, self.track_alias);
        push_vi(&mut out, self.group_id);
        if !dtype.is_zero_object_id() {
            push_vi(&mut out, self.object_id);
        }
        if !dtype.has_default_priority() {
            let priority = match self.publisher_priority {
                Some(p) => p,
                None => 0,
            };
            out.push(priority);
        }
        proof {
            lemma_datagram_type_flags(
                self.extension_headers is Some,
                self.end_of_group,
                self.object_id == 0,
                self.publisher_priority is None,
                is_status,
            );
            assert(out@ =~= head + spec_datagram_fields(self@));
        }
        let ghost fields = out@;
        match &self.extension_headers {
            Some(headers) => {
                let mut ext: Vec<u8> = Vec::new();
                push_concat_kvps(&mut ext, headers.as_slice());
                push_vi(&mut out, ext.len() as u64);
                out.extend_from_slice(ext.as_slice());
            },
            None => {},
        }
        proof {
            assert(out@ =~= fields + spec_datagram_ext_part(self@.extension_headers));
        }
        let ghost with_ext = out@;
        match self.object_status {
            Some(st) => {
                push_vi(&mut out, st.value());
            },
            None => match &self.payload {
                Some(p) => {
                    out.extend_from_slice(bytes_as_slice(p));
                },
                None => {},
            },
        }
        proof {
            assert(out@ =~= with_ext + spec_datagram_body(self@));
            assert(out@ =~= spec_serialize_datagram(self@)->Ok_0);
        }
        Ok(bytes_from_vec(out))
    }

    /// Reads one datagram; a payload datagram takes all the bytes that are left.
    pub fn deserialize(bytes: &mut Bytes) -> (r: Result<Self, ParseError>)
        ensures
            match r {
                Ok(d) => spec_deserialize_datagram(bytes_view(*old(bytes))) == Ok::<
                    (DatagramView, Seq<u8>),
                    ErrorKind,
                >((d@, bytes_view(*final(bytes)))),
                Err(e) => spec_deserialize_datagram(bytes_view(*old(bytes))) == Err::<
                    (DatagramView, Seq<u8>),
                    ErrorKind,
                >(e.kind()),
            },
    {
        let type_raw = bytes.get_vi()?;
        let dtype = ObjectDatagramType::try_new(type_raw)?;
        read_datagram_fields(bytes, dtype)
    }
}

/// Reads the extension headers, each with its type whole, until the bytes run out.
fn read_datagram_headers(value: Bytes) -> (r: Result<Vec<KeyValuePair>, ParseError>)
    ensures
        match r {
            Ok(v) => spec_read_datagram_headers(bytes_view(value)) == Ok::<Seq<KvpView>, ErrorKind>(
                kvps_view(v@),
            ),
            Err(e) => spec_read_datagram_headers(bytes_view(value)) is Err,
        },
{
    let ghost orig = bytes_view(value);
    let mut buf = value;
    let mut items: Vec<KeyValuePair> = Vec::new();
    while bytes_len(&buf) > 0
        invariant
            orig == bytes_view(value),
            spec_read_datagram_headers(orig) == (match spec_read_datagram_headers(bytes_view(buf)) {
                Ok(ks) => Ok::<Seq<KvpView>, ErrorKind>(kvps_view(items@) + ks),
                Err(e) => Err(e),
            }),
        decreases bytes_view(buf).len(),
    {
        let ghost cur = bytes_view(buf);
        let kvp = match KeyValuePair::deserialize(&mut buf) {
            Ok(kvp) => kvp,
            Err(e) => {
                return Err(e);
            },
        };
        proof {
            lemma_deserialize_delta_consumes(cur, 0);
        }
        let ghost before = kvps_view(items@);
        items.push(kvp);
        proof {
            assert(kvps_view(items@) =~= before.push(kvp@));
            assert forall|ks: Seq<KvpView>| #[trigger] (before + (seq![kvp@] + ks)) =~= kvps_view(
                items@,
            ) + ks by {}
        }
    }
    proof {
        assert(kvps_view(items@) + Seq::<KvpView>::empty() =~= kvps_view(items@));
    }
    Ok(items)
}

/// Reads the extension headers if they are there.
fn read_datagram_ext(bytes: &mut Bytes, present: bool) -> (r: Result<Option<Vec<KeyValuePair>>, ParseError>)
    ensures
        match r {
            Ok(h) => spec_read_datagram_ext(present, bytes_view(*old(bytes))) == Ok::<
                (Option<Seq<KvpView>>, Seq<u8>),
                ErrorKind,
            >(
                (
                    match h {
                        Some(v) => Some(kvps_view(v@)),
                        None => None,
                    },
                    bytes_view(*final(bytes)),
                ),
            ),
            Err(e) => spec_read_datagram_ext(present, bytes_view(*old(bytes))) == Err::<
                (Option<Seq<KvpView>>, Seq<u8>),
                ErrorKind,
            >(e.kind()),
        },
{
    if !present {
        return Ok(None);
    }
    let n = bytes.get_vi()?;
    if n == 0 {
        return Err(
            ParseError::ProtocolViolation {
                context: "Datagram::deserialize(extension_length): extension headers present but length is 0",
            },
        );
    }
    if n > usize::MAX as u64 {
        return Err(
            ParseError::CastingError { context: "Datagram::deserialize", from_type: "u64", to_type: "usize" },
        );
    }
    let len = n as usize;
    let available = bytes_len(bytes);
    if available < len {
        return Err(
            ParseError::NotEnoughBytes {
                context: "Datagram::deserialize(extension_headers)",
                needed: len,
                available,
            },
        );
    }
    let header_bytes = bytes_copy_to_bytes(bytes, len);
    match read_datagram_headers(header_bytes) {
        Ok(h) => Ok(Some(h)),
        Err(_) => Err(
            ParseError::ProtocolViolation { context: "Datagram::deserialize, can't parse headers" },
        ),
    }
}

/// Reads the publisher priority byte if it is there.
fn read_datagram_priority(bytes: &mut Bytes, present: bool) -> (r: Result<Option<u8>, ParseError>)
    ensures
        match r {
            Ok(p) => spec_read_datagram_priority(present, bytes_view(*old(bytes))) == Ok::<
                (Option<u8>, Seq<u8>),
                ErrorKind,
            >((p, bytes_view(*final(bytes)))),
            Err(e) => spec_read_datagram_priority(present, bytes_view(*old(bytes))) == Err::<
                (Option<u8>, Seq<u8>),
                ErrorKind,
            >(e.kind()),
        },
{
    if !present {
        return Ok(None);
    }
    if bytes_len(bytes) < 1 {
        return Err(
            ParseError::NotEnoughBytes {
                context: "Datagram::deserialize(publisher_priority)",
                needed: 1,
                available: 0,
            },
        );
    }
    Ok(Some(bytes_get_u8(bytes)))
}

/// Reads the status, or else takes the rest of the bytes as the payload.
fn read_datagram_body(bytes: &mut Bytes, is_status: bool) -> (r: Result<
    (Option<Bytes>, Option<ObjectStatus>),
    ParseError,
>)
    ensures
        match r {
            Ok((p, st)) => spec_read_datagram_body(is_status, bytes_view(*old(bytes))) == Ok::<
                ((Option<Seq<u8>>, Option<ObjectStatus>), Seq<u8>),
                ErrorKind,
            >(
                (
                    (
                        match p {
                            Some(b) => Some(bytes_view(b)),
                            None => None,
                        },
                        st,
                    ),
                    bytes_view(*final(bytes)),
                ),
            ),
            Err(e) => spec_read_datagram_body(is_status, bytes_view(*old(bytes))) == Err::<
                ((Option<Seq<u8>>, Option<ObjectStatus>), Seq<u8>),
                ErrorKind,
            >(e.kind()),
        },
{
    if is_status {
        let v = bytes.get_vi()?;
        let st = ObjectStatus::try_from(v)?;
        Ok((None, Some(st)))
    } else {
        let ghost before = bytes_view(*bytes);
        let n = bytes_len(bytes);
        let payload = bytes_copy_to_bytes(bytes, n);
        proof {
            assert(bytes_view(payload) =~= before);
            assert(bytes_view(*bytes) =~= Seq::<u8>::empty());
        }
        Ok((Some(payload), None))
    }
}

/// Reads the fields of a datagram of the given type that follow the type.
fn read_datagram_fields(bytes: &mut Bytes, dtype: ObjectDatagramType) -> (r: Result<Datagram, ParseError>)
    ensures
        match r {
            Ok(d) => spec_read_datagram_fields(dtype.spec_value(), bytes_view(*old(bytes))) == Ok::<
                (DatagramView, Seq<u8>),
                ErrorKind,
            >((d@, bytes_view(*final(bytes)))),
            Err(e) => spec_read_datagram_fields(dtype.spec_value(), bytes_view(*old(bytes))) == Err::<
                (DatagramView, Seq<u8>),
                ErrorKind,
            >(e.kind()),
        },
{
    proof {
        reveal(spec_read_datagram_fields);
    }
    let track_alias = bytes.get_vi()?;
    let group_id = bytes.get_vi()?;
    let object_id = if !dtype.is_zero_object_id() {
        bytes.get_vi()?
    } else {
        0
    };
    let publisher_priority = read_datagram_priority(bytes, !dtype.has_default_priority())?;
    let extension_headers = read_datagram_ext(bytes, dtype.has_properties())?;
    let (payload, object_status) = read_datagram_body(bytes, dtype.is_status())?;
    Ok(
        Datagram {
            track_alias,
            group_id,
            object_id,
            publisher_priority,
            extension_headers,
            payload,
            object_status,
            end_of_group: dtype.is_end_of_group(),
        },
    )
}

/// A datagram its wire form gives back whole: not a status datagram that
/// ends its group; extension headers, when present, well formed, at least
/// one, and short enough for their length to be written; a payload unless it
/// carries a status, and none beside a status.
pub open spec fn datagram_canonical(d: DatagramView) -> bool {
    &&& !(d.object_status is Some && d.end_of_group)
    &&& (d.extension_headers matches Some(ks) ==> ks.len() > 0 && all_wf(ks)
        && spec_concat_kvps(ks).len() <= usize::MAX)
    &&& (d.object_status is None <==> d.payload is Some)
}

/// Well-formed pairs, each written with its type whole, are read back as
/// extension headers.
proof fn lemma_datagram_headers_roundtrip(ks: Seq<KvpView>)
    requires
        all_wf(ks),
    ensures
        spec_read_datagram_headers(spec_concat_kvps(ks)) == Ok::<Seq<KvpView>, ErrorKind>(ks),
    decreases ks.len(),
{
    if ks.len() == 0 {
        assert(ks =~= Seq::<KvpView>::empty());
    } else {
        let t = ks.skip(1);
        assert forall|i: int| 0 <= i < t.len() implies #[trigger] t[i].wf() by {
            assert(t[i] == ks[i + 1]);
        }
        lemma_datagram_headers_roundtrip(t);
        assert(ks[0].wf());
        lemma_kvp_roundtrip(ks[0], 0, spec_concat_kvps(t));
        lemma_kvp_bytes_is_delta_from_zero(ks[0]);
        assert(spec_concat_kvps(ks).len() > 0) by {
            lemma_vi_encode_len(ks[0].type_of());
        }
        assert(seq![ks[0]] + t =~= ks);
    }
}

/// The extension part of a canonical datagram is read back, leaving what follows.
proof fn lemma_datagram_ext_roundtrip(h: Option<Seq<KvpView>>, rest: Seq<u8>)
    requires
        h matches Some(ks) ==> ks.len() > 0 && all_wf(ks) && spec_concat_kvps(ks).len() <= usize::MAX,
    ensures
        spec_read_datagram_ext(h is Some, spec_datagram_ext_part(h) + rest) == Ok::<
            (Option<Seq<KvpView>>, Seq<u8>),
            ErrorKind,
        >((h, rest)),
{
    match h {
        None => {
            assert(spec_datagram_ext_part(h) + rest =~= rest);
        },
        Some(ks) => {
            let c = spec_concat_kvps(ks);
            lemma_datagram_headers_roundtrip(ks);
            assert(c.len() > 0) by {
                lemma_vi_encode_len(ks[0].type_of());
                lemma_kvp_bytes_is_delta_from_zero(ks[0]);
            }
            lemma_vi_roundtrip(c.len() as u64, c + rest);
            assert(spec_datagram_ext_part(h) + rest =~= spec_vi_encode(c.len() as u64) + (c + rest));
            assert((c + rest).take(c.len() as int) =~= c);
            assert((c + rest).skip(c.len() as int) =~= rest);
        },
    }
}

/// A datagram's fields are read back from their wire form.
#[verifier::rlimit(30)]
proof fn lemma_datagram_fields_roundtrip(d: DatagramView)
    requires
        datagram_canonical(d),
    ensures
        spec_read_datagram_fields(
            spec_datagram_type(d),
            spec_datagram_fields(d) + spec_datagram_ext_part(d.extension_headers) + spec_datagram_body(d),
        ) == Ok::<(DatagramView, Seq<u8>), ErrorKind>((d, Seq::empty())),
{
    reveal(spec_read_datagram_fields);
    let t = spec_datagram_type(d);
    lemma_datagram_type_flags(
        d.extension_headers is Some,
        d.end_of_group,
        d.object_id == 0,
        d.publisher_priority is None,
        d.object_status is Some,
    );
    let o = if d.object_id == 0 {
        Seq::<u8>::empty()
    } else {
        spec_vi_encode(d.object_id)
    };
    let p = match d.publisher_priority {
        Some(x) => seq![x],
        None => Seq::<u8>::empty(),
    };
    let e = spec_datagram_ext_part(d.extension_headers);
    let b = spec_datagram_body(d);
    let s3 = o + p + e + b;
    let s2 = spec_vi_encode(d.group_id) + s3;
    let s1 = spec_vi_encode(d.track_alias) + s2;
    assert(spec_datagram_fields(d) + e + b =~= s1);
    lemma_vi_roundtrip(d.track_alias, s2);
    lemma_vi_roundtrip(d.group_id, s3);
    let s4 = p + e + b;
    if d.object_id != 0 {
        lemma_vi_roundtrip(d.object_id, s4);
        assert(s3 =~= spec_vi_encode(d.object_id) + s4);
    } else {
        assert(s3 =~= s4);
    }
    assert(spec_read_vi_or_zero(t & 0x04 == 0, s3) == Ok::<(u64, Seq<u8>), ErrorKind>((d.object_id, s4)));
    let s5 = e + b;
    match d.publisher_priority {
        Some(x) => {
            assert(s4 =~= seq![x] + s5);
            assert(s4.skip(1) =~= s5);
        },
        None => {
            assert(s4 =~= s5);
        },
    }
    assert(spec_read_datagram_priority(t & 0x08 == 0, s4) == Ok::<(Option<u8>, Seq<u8>), ErrorKind>(
        (d.publisher_priority, s5),
    ));
    lemma_datagram_ext_roundtrip(d.extension_headers, b);
    match d.object_status {
        Some(st) => {
            lemma_vi_roundtrip(st.spec_value(), Seq::empty());
            assert(b + Seq::<u8>::empty() =~= b);
            st.lemma_codepoints(st.spec_value());
        },
        None => {},
    }
}

/// A canonical datagram's wire form reads back as the same datagram, with
/// nothing left over.
pub proof fn lemma_datagram_roundtrip(d: DatagramView)
    requires
        datagram_canonical(d),
    ensures
        spec_serialize_datagram(d) is Ok,
        spec_deserialize_datagram(spec_serialize_datagram(d)->Ok_0) == Ok::<
            (DatagramView, Seq<u8>),
            ErrorKind,
        >((d, Seq::empty())),
{
    let t = spec_datagram_type(d);
    lemma_datagram_type_flags(
        d.extension_headers is Some,
        d.end_of_group,
        d.object_id == 0,
        d.publisher_priority is None,
        d.object_status is Some,
    );
    let body = spec_datagram_fields(d) + spec_datagram_ext_part(d.extension_headers) + spec_datagram_body(d);
    lemma_vi_roundtrip(t as u64, body);
    assert(spec_serialize_datagram(d)->Ok_0 =~= spec_vi_encode(t as u64) + body);
    lemma_datagram_fields_roundtrip(d);
}

} // verus!
