//! Objects and End-of-Range markers on a FETCH data stream. Fields an object
//! shares with the object before it on the stream may be left out of its
//! wire form and inherited.
use crate::buf::{bytes_as_slice, bytes_copy_to_bytes, bytes_from_vec, bytes_get_u8, bytes_len, bytes_view};
use crate::error::{ErrorKind, ParseError};
use crate::model::common::varint::{lemma_vi_roundtrip, push_vi, spec_get_vi, spec_vi_encode, BufVarIntExt};
use crate::model::data::constant::ObjectForwardingPreference;
use crate::model::extension_header::object_extension::{
    deserialize_object_extensions, lemma_object_extensions_roundtrip, object_extension_canonical,
    object_extensions_view, push_object_extensions, spec_read_object_extensions,
    spec_serialize_object_extensions, ObjectExtension, ObjectExtensionView,
};
use bytes::Bytes;
use vstd::prelude::*;
use vstd::seq_lib::lemma_concat_associative;

verus! {

/// Serialization Flags bit layout.
pub const FLAG_SUBGROUP_MODE_MASK: u8 = 0x03;

pub const FLAG_OBJECT_ID_PRESENT: u8 = 0x04;

pub const FLAG_GROUP_ID_PRESENT: u8 = 0x08;

pub const FLAG_PRIORITY_PRESENT: u8 = 0x10;

pub const FLAG_EXTENSIONS_PRESENT: u8 = 0x20;

pub const FLAG_DATAGRAM: u8 = 0x40;

pub const SUBGROUP_MODE_ZERO: u8 = 0b00;

pub const SUBGROUP_MODE_PRIOR: u8 = 0b01;

pub const SUBGROUP_MODE_PRIOR_PLUS_ONE: u8 = 0b10;

pub const SUBGROUP_MODE_PRESENT: u8 = 0b11;

/// Serialization Flags values of the End-of-Range markers.
pub const END_OF_NON_EXISTENT_RANGE: u64 = 0x8C;

pub const END_OF_UNKNOWN_RANGE: u64 = 0x10C;

/// Prior-object state threaded across successive fetch objects on the same
/// stream, from which omitted fields are inherited.
#[derive(Debug, Clone, Copy, PartialEq, Eq, Structural)]
pub struct FetchObjectContext {
    pub group_id: u64,
    pub subgroup_id: u64,
    pub object_id: u64,
    pub publisher_priority: u8,
}

/// Kind of an End-of-Range marker.
#[derive(Debug, Clone, Copy, PartialEq, Eq, Structural)]
pub enum EndOfRangeKind {
    /// Serialization Flags = 0x8C: all objects in the range are known not to exist.
    NonExistent,
    /// Serialization Flags = 0x10C: the range is cache-unknown.
    Unknown,
}

impl EndOfRangeKind {
    pub open spec fn spec_flag_value(self) -> u64 {
        match self {
            EndOfRangeKind::NonExistent => END_OF_NON_EXISTENT_RANGE,
            EndOfRangeKind::Unknown => END_OF_UNKNOWN_RANGE,
        }
    }

    fn as_flag_value(self) -> (v: u64)
        ensures
            v == self.spec_flag_value(),
    {
        match self {
            EndOfRangeKind::NonExistent => END_OF_NON_EXISTENT_RANGE,
            EndOfRangeKind::Unknown => END_OF_UNKNOWN_RANGE,
        }
    }
}

/// A payload-bearing fetch object.
#[derive(Debug, Clone, PartialEq)]
pub struct FetchObjectPayload {
    pub group_id: u64,
    pub subgroup_id: u64,
    pub object_id: u64,
    pub publisher_priority: u8,
    pub forwarding_preference: ObjectForwardingPreference,
    pub extension_headers: Option<Vec<ObjectExtension>>,
    /// Fetch objects carry no Object Status; a zero-length payload is a
    /// zero-length Normal object.
    pub payload: Bytes,
}

/// A single object or marker on a FETCH data stream.
#[derive(Debug, Clone, PartialEq)]
pub enum FetchObject {
    Object(FetchObjectPayload),
    EndOfRange { kind: EndOfRangeKind, group_id: u64, object_id: u64 },
}

/// What a payload-bearing fetch object holds.
pub struct FetchPayloadView {
    pub group_id: u64,
    pub subgroup_id: u64,
    pub object_id: u64,
    pub publisher_priority: u8,
    pub forwarding_preference: ObjectForwardingPreference,
    pub extension_headers: Option<Seq<ObjectExtensionView>>,
    pub payload: Seq<u8>,
}

/// What a fetch object holds.
pub enum FetchObjectView {
    Object(FetchPayloadView),
    EndOfRange { kind: EndOfRangeKind, group_id: u64, object_id: u64 },
}

impl View for FetchObjectPayload {
    type V = FetchPayloadView;

    open spec fn view(&self) -> FetchPayloadView {
        FetchPayloadView {
            group_id: self.group_id,
            subgroup_id: self.subgroup_id,
            object_id: self.object_id,
            publisher_priority: self.publisher_priority,
            forwarding_preference: self.forwarding_preference,
            extension_headers: match self.extension_headers {
                Some(v) => Some(object_extensions_view(v@)),
                None => None,
            },
            payload: bytes_view(self.payload),
        }
    }
}

impl View for FetchObject {
    type V = FetchObjectView;

    open spec fn view(&self) -> FetchObjectView {
        match self {
            FetchObject::Object(p) => FetchObjectView::Object(p@),
            FetchObject::EndOfRange { kind, group_id, object_id } => FetchObjectView::EndOfRange {
                kind: *kind,
                group_id: *group_id,
                object_id: *object_id,
            },
        }
    }
}

pub open spec fn context_of(prev: Option<&FetchObjectContext>) -> Option<FetchObjectContext> {
    match prev {
        Some(c) => Some(*c),
        None => None,
    }
}

/// The state an object leaves for the next one on its stream: an End-of-Range
/// marker leaves none, since it must not update the prior state.
pub open spec fn spec_fetch_context(o: FetchObjectView) -> Option<FetchObjectContext> {
    match o {
        FetchObjectView::Object(p) => Some(
            FetchObjectContext {
                group_id: p.group_id,
                subgroup_id: p.subgroup_id,
                object_id: p.object_id,
                publisher_priority: p.publisher_priority,
            },
        ),
        FetchObjectView::EndOfRange { .. } => None,
    }
}

/// A prior state a payload object can be written against: writing adds one
/// to the prior object number, and to the prior subgroup number wherever the
/// object's subgroup is compared with the one after it.
pub open spec fn payload_writable(p: FetchPayloadView, prev: Option<FetchObjectContext>) -> bool {
    match prev {
        Some(c) => c.object_id < u64::MAX && (p.forwarding_preference
            != ObjectForwardingPreference::Datagram && p.subgroup_id != 0 && c.subgroup_id
            != p.subgroup_id ==> c.subgroup_id < u64::MAX),
        None => true,
    }
}

/// A prior state an object can be written against; an End-of-Range marker
/// does not look at it.
pub open spec fn fetch_object_writable(o: FetchObjectView, prev: Option<FetchObjectContext>) -> bool {
    match o {
        FetchObjectView::Object(p) => payload_writable(p, prev),
        FetchObjectView::EndOfRange { .. } => true,
    }
}

/// The Serialization Flags byte for the given subgroup mode and presence bits.
pub open spec fn spec_fetch_flags(
    subgroup_mode: u8,
    has_object_id: bool,
    has_group_id: bool,
    has_priority: bool,
    has_extensions: bool,
    is_datagram: bool,
) -> u8 {
    (subgroup_mode & FLAG_SUBGROUP_MODE_MASK) | (if has_object_id {
        FLAG_OBJECT_ID_PRESENT
    } else {
        0
    }) | (if has_group_id {
        FLAG_GROUP_ID_PRESENT
    } else {
        0
    }) | (if has_priority {
        FLAG_PRIORITY_PRESENT
    } else {
        0
    }) | (if has_extensions {
        FLAG_EXTENSIONS_PRESENT
    } else {
        0
    }) | (if is_datagram {
        FLAG_DATAGRAM
    } else {
        0
    })
}

/// Which fields a payload object writes out against the prior state:
/// group present, object present, priority present, and the subgroup mode.
/// The first object on a stream inherits nothing.
pub open spec fn spec_fetch_layout(p: FetchPayloadView, prev: Option<FetchObjectContext>) -> (
    bool,
    bool,
    bool,
    u8,
) {
    let dg = p.forwarding_preference == ObjectForwardingPreference::Datagram;
    match prev {
        None => (true, true, true, if dg || p.subgroup_id == 0 {
            SUBGROUP_MODE_ZERO
        } else {
            SUBGROUP_MODE_PRESENT
        }),
        Some(pc) => (
            pc.group_id != p.group_id,
            pc.object_id + 1 != p.object_id,
            pc.publisher_priority != p.publisher_priority,
            if dg || p.subgroup_id == 0 {
                SUBGROUP_MODE_ZERO
            } else if pc.subgroup_id == p.subgroup_id {
                SUBGROUP_MODE_PRIOR
            } else if pc.subgroup_id + 1 == p.subgroup_id {
                SUBGROUP_MODE_PRIOR_PLUS_ONE
            } else {
                SUBGROUP_MODE_PRESENT
            },
        ),
    }
}

/// Whether a payload object writes its extension headers: only a non-empty list is written.
pub open spec fn spec_has_extensions(p: FetchPayloadView) -> bool {
    match p.extension_headers {
        Some(v) => v.len() > 0,
        None => false,
    }
}

pub open spec fn opt_vi(present: bool, v: u64) -> Seq<u8> {
    if present {
        spec_vi_encode(v)
    } else {
        Seq::empty()
    }
}

/// The length-prefixed extension headers of a payload object, when it writes them.
pub open spec fn spec_fetch_ext_part(p: FetchPayloadView) -> Result<Seq<u8>, ErrorKind> {
    if spec_has_extensions(p) {
        match spec_serialize_object_extensions(p.extension_headers->Some_0) {
            Err(e) => Err(e),
            Ok(b) => Ok(spec_vi_encode(b.len() as u64) + b),
        }
    } else {
        Ok(Seq::empty())
    }
}

/// The flags and the fields a payload object writes out ahead of its
/// extension headers, against the prior state.
pub open spec fn spec_fetch_header(p: FetchPayloadView, prev: Option<FetchObjectContext>) -> Seq<u8> {
    let dg = p.forwarding_preference == ObjectForwardingPreference::Datagram;
    let layout = spec_fetch_layout(p, prev);
    let has_group = layout.0;
    let has_object = layout.1;
    let has_priority = layout.2;
    let mode = layout.3;
    spec_vi_encode(
        spec_fetch_flags(mode, has_object, has_group, has_priority, spec_has_extensions(p), dg) as u64,
    ) + opt_vi(has_group, p.group_id) + opt_vi(!dg && mode == SUBGROUP_MODE_PRESENT, p.subgroup_id)
        + opt_vi(has_object, p.object_id) + (if has_priority {
        seq![p.publisher_priority]
    } else {
        Seq::empty()
    })
}

/// The wire form of a payload-bearing object against the prior state.
pub open spec fn spec_serialize_fetch_payload(
    p: FetchPayloadView,
    prev: Option<FetchObjectContext>,
) -> Result<Seq<u8>, ErrorKind> {
    match spec_fetch_ext_part(p) {
        Err(e) => Err(e),
        Ok(ext) => Ok(
            spec_fetch_header(p, prev) + ext + spec_vi_encode(p.payload.len() as u64) + p.payload,
        ),
    }
}

/// The wire form of a fetch object against the prior state.
pub open spec fn spec_serialize_fetch_object(
    o: FetchObjectView,
    prev: Option<FetchObjectContext>,
) -> Result<Seq<u8>, ErrorKind> {
    match o {
        FetchObjectView::EndOfRange { kind, group_id, object_id } => Ok(
            spec_vi_encode(kind.spec_flag_value()) + spec_vi_encode(group_id) + spec_vi_encode(
                object_id,
            ),
        ),
        FetchObjectView::Object(p) => spec_serialize_fetch_payload(p, prev),
    }
}

/// Reading a length-prefixed byte string.
pub open spec fn spec_read_sized(s: Seq<u8>) -> Result<(Seq<u8>, Seq<u8>), ErrorKind> {
    match spec_get_vi(s) {
        Err(e) => Err(e),
        Ok((n, r)) => if n > usize::MAX {
            Err(ErrorKind::CastingError)
        } else if r.len() < n {
            Err(ErrorKind::NotEnoughBytes)
        } else {
            Ok((r.take(n as int), r.skip(n as int)))
        },
    }
}

/// Reading the extension headers of a payload object, if its flags say they
/// are there; headers that do not parse are a protocol violation.
pub open spec fn spec_read_fetch_extensions(present: bool, s: Seq<u8>) -> Result<
    (Option<Seq<ObjectExtensionView>>, Seq<u8>),
    ErrorKind,
> {
    if !present {
        Ok((None, s))
    } else {
        match spec_read_sized(s) {
            Err(e) => Err(e),
            Ok((h, r)) => match spec_read_object_extensions(h) {
                Err(_) => Err(ErrorKind::ProtocolViolation),
                Ok(xs) => Ok((Some(xs), r)),
            },
        }
    }
}

/// Reading a field that is either present as a varint or inherited.
pub open spec fn spec_read_or(present: bool, s: Seq<u8>, inherited: u64) -> Result<
    (u64, Seq<u8>),
    ErrorKind,
> {
    if present {
        spec_get_vi(s)
    } else {
        Ok((inherited, s))
    }
}

/// Reading the subgroup number for the given subgroup mode.
pub open spec fn spec_read_subgroup(
    is_datagram: bool,
    mode: u8,
    s: Seq<u8>,
    prev: FetchObjectContext,
) -> Result<(u64, Seq<u8>), ErrorKind> {
    if is_datagram || mode == SUBGROUP_MODE_ZERO {
        Ok((0, s))
    } else if mode == SUBGROUP_MODE_PRIOR {
        Ok((prev.subgroup_id, s))
    } else if mode == SUBGROUP_MODE_PRIOR_PLUS_ONE {
        if prev.subgroup_id == u64::MAX {
            Err(ErrorKind::ProtocolViolation)
        } else {
            Ok(((prev.subgroup_id + 1) as u64, s))
        }
    } else {
        spec_get_vi(s)
    }
}

/// Reading the object number, or inheriting the one after the prior
/// object's; there is none after the largest.
pub open spec fn spec_read_object_id(present: bool, s: Seq<u8>, prev_object_id: u64) -> Result<
    (u64, Seq<u8>),
    ErrorKind,
> {
    if !present && prev_object_id == u64::MAX {
        Err(ErrorKind::ProtocolViolation)
    } else {
        spec_read_or(present, s, (prev_object_id + 1) as u64)
    }
}

/// Reading the publisher priority, a single byte, or inheriting it.
pub open spec fn spec_read_priority(present: bool, s: Seq<u8>, inherited: u8) -> Result<
    (u8, Seq<u8>),
    ErrorKind,
> {
    if !present {
        Ok((inherited, s))
    } else if s.len() < 1 {
        Err(ErrorKind::NotEnoughBytes)
    } else {
        Ok((s[0], s.skip(1)))
    }
}

/// Reading the rest of a payload object after its flags `f`. The first
/// object on a stream must carry its group, object and priority, and cannot
/// refer to a prior subgroup.
#[verifier::opaque]
pub open spec fn spec_read_fetch_payload(
    f: u8,
    s: Seq<u8>,
    prev: Option<FetchObjectContext>,
) -> Result<(FetchObjectView, Seq<u8>), ErrorKind> {
    let mode = f & FLAG_SUBGROUP_MODE_MASK;
    let has_object = f & FLAG_OBJECT_ID_PRESENT != 0;
    let has_group = f & FLAG_GROUP_ID_PRESENT != 0;
    let has_priority = f & FLAG_PRIORITY_PRESENT != 0;
    let has_ext = f & FLAG_EXTENSIONS_PRESENT != 0;
    let dg = f & FLAG_DATAGRAM != 0;
    let pc = prev->Some_0;
    if prev is None && (!has_object || !has_group || !has_priority) {
        Err(ErrorKind::ProtocolViolation)
    } else if prev is None && !dg && (mode == SUBGROUP_MODE_PRIOR || mode
        == SUBGROUP_MODE_PRIOR_PLUS_ONE) {
        Err(ErrorKind::ProtocolViolation)
    } else {
        match spec_read_or(has_group, s, pc.group_id) {
            Err(e) => Err(e),
            Ok((group_id, s1)) => match spec_read_subgroup(dg, mode, s1, pc) {
                Err(e) => Err(e),
                Ok((subgroup_id, s2)) => match spec_read_object_id(has_object, s2, pc.object_id) {
                    Err(e) => Err(e),
                    Ok((object_id, s3)) => match spec_read_priority(
                        has_priority,
                        s3,
                        pc.publisher_priority,
                    ) {
                        Err(e) => Err(e),
                        Ok((priority, s4)) => match spec_read_fetch_extensions(has_ext, s4) {
                            Err(e) => Err(e),
                            Ok((exts, s5)) => match spec_read_sized(s5) {
                                Err(e) => Err(e),
                                Ok((payload, s6)) => Ok(
                                    (
                                        FetchObjectView::Object(
                                            FetchPayloadView {
                                                group_id,
                                                subgroup_id: if dg {
                                                    object_id
                                                } else {
                                                    subgroup_id
                                                },
                                                object_id,
                                                publisher_priority: priority,
                                                forwarding_preference: if dg {
                                                    ObjectForwardingPreference::Datagram
                                                } else {
                                                    ObjectForwardingPreference::Subgroup
                                                },
                                                extension_headers: exts,
                                                payload,
                                            },
                                        ),
                                        s6,
                                    ),
                                ),
                            },
                        },
                    },
                },
            },
        }
    }
}

/// Reading a fetch object against the prior state: flags of 128 and above
/// are End-of-Range markers, and only 0x8C and 0x10C are valid ones.
pub open spec fn spec_deserialize_fetch_object(s: Seq<u8>, prev: Option<FetchObjectContext>) -> Result<
    (FetchObjectView, Seq<u8>),
    ErrorKind,
> {
    match spec_get_vi(s) {
        Err(e) => Err(e),
        Ok((raw, r)) => if raw >= 128 {
            if raw == END_OF_NON_EXISTENT_RANGE || raw == END_OF_UNKNOWN_RANGE {
                match spec_get_vi(r) {
                    Err(e) => Err(e),
                    Ok((group_id, r2)) => match spec_get_vi(r2) {
                        Err(e) => Err(e),
                        Ok((object_id, r3)) => Ok(
                            (
                                FetchObjectView::EndOfRange {
                                    kind: if raw == END_OF_NON_EXISTENT_RANGE {
                                        EndOfRangeKind::NonExistent
                                    } else {
                                        EndOfRangeKind::Unknown
                                    },
                                    group_id,
                                    object_id,
                                },
                                r3,
                            ),
                        ),
                    },
                }
            } else {
                Err(ErrorKind::ProtocolViolation)
            }
        } else {
            spec_read_fetch_payload(raw as u8, r, prev)
        },
    }
}


/// Reads a length-prefixed byte string.
fn read_sized(bytes: &mut Bytes, context: &'static str) -> (r: Result<Bytes, ParseError>)
    ensures
        match r {
            Ok(b) => spec_read_sized(bytes_view(*old(bytes))) == Ok::<(Seq<u8>, Seq<u8>), ErrorKind>(
                (bytes_view(b), bytes_view(*final(bytes))),
            ),
            Err(e) => spec_read_sized(bytes_view(*old(bytes))) == Err::<(Seq<u8>, Seq<u8>), ErrorKind>(
                e.kind(),
            ),
        },
{
    let n = bytes.get_vi()?;
    if n > usize::MAX as u64 {
        return Err(ParseError::CastingError { context, from_type: "u64", to_type: "usize" });
    }
    let len = n as usize;
    let available = bytes_len(bytes);
    if available < len {
        return Err(ParseError::NotEnoughBytes { context, needed: len, available });
    }
    Ok(bytes_copy_to_bytes(bytes, len))
}

/// Which fields a payload object writes out against the prior state.
fn fetch_layout(p: &FetchObjectPayload, prev: Option<&FetchObjectContext>) -> (r: (
    bool,
    bool,
    bool,
    u8,
))
    requires
        payload_writable(p@, context_of(prev)),
    ensures
        r == spec_fetch_layout(p@, context_of(prev)),
{
    let is_datagram = match p.forwarding_preference {
        ObjectForwardingPreference::Datagram => true,
        ObjectForwardingPreference::Subgroup => false,
    };
    match prev {
        None => (true, true, true, if is_datagram || p.subgroup_id == 0 {
            SUBGROUP_MODE_ZERO
        } else {
            SUBGROUP_MODE_PRESENT
        }),
        Some(pc) => (
            pc.group_id != p.group_id,
            pc.object_id + 1 != p.object_id,
            pc.publisher_priority != p.publisher_priority,
            if is_datagram || p.subgroup_id == 0 {
                SUBGROUP_MODE_ZERO
            } else if pc.subgroup_id == p.subgroup_id {
                SUBGROUP_MODE_PRIOR
            } else if pc.subgroup_id + 1 == p.subgroup_id {
                SUBGROUP_MODE_PRIOR_PLUS_ONE
            } else {
                SUBGROUP_MODE_PRESENT
            },
        ),
    }
}

/// The length-prefixed extension headers of a payload object, when it writes them.
fn fetch_ext_part(p: &FetchObjectPayload) -> (r: Result<Vec<u8>, ParseError>)
    ensures
        match r {
            Ok(v) => spec_fetch_ext_part(p@) == Ok::<Seq<u8>, ErrorKind>(v@),
            Err(e) => spec_fetch_ext_part(p@) == Err::<Seq<u8>, ErrorKind>(e.kind()),
        },
{
    let mut out: Vec<u8> = Vec::new();
    match &p.extension_headers {
        Some(v) => {
            if v.len() > 0 {
                let mut ext: Vec<u8> = Vec::new();
                push_object_extensions(&mut ext, v.as_slice())?;
                push_vi(&mut out, ext.len() as u64);
                out.extend_from_slice(ext.as_slice());
                proof {
                    assert(out@ =~= spec_fetch_ext_part(p@)->Ok_0);
                }
            } else {
                proof {
                    assert(out@ =~= Seq::<u8>::empty());
                }
            }
        },
        None => {
            proof {
                assert(out@ =~= Seq::<u8>::empty());
            }
        },
    }
    Ok(out)
}

/// The Serialization Flags byte for the given subgroup mode and presence bits.
fn fetch_flags(
    subgroup_mode: u8,
    has_object_id: bool,
    has_group_id: bool,
    has_priority: bool,
    has_extensions: bool,
    is_datagram: bool,
) -> (f: u8)
    ensures
        f == spec_fetch_flags(
            subgroup_mode,
            has_object_id,
            has_group_id,
            has_priority,
            has_extensions,
            is_datagram,
        ),
{
    (subgroup_mode & FLAG_SUBGROUP_MODE_MASK) | (if has_object_id {
        FLAG_OBJECT_ID_PRESENT
    } else {
        0
    }) | (if has_group_id {
        FLAG_GROUP_ID_PRESENT
    } else {
        0
    }) | (if has_priority {
        FLAG_PRIORITY_PRESENT
    } else {
        0
    }) | (if has_extensions {
        FLAG_EXTENSIONS_PRESENT
    } else {
        0
    }) | (if is_datagram {
        FLAG_DATAGRAM
    } else {
        0
    })
}

fn push_fetch_header(out: &mut Vec<u8>, p: &FetchObjectPayload, prev: Option<&FetchObjectContext>)
    requires
        payload_writable(p@, context_of(prev)),
    ensures
        final(out)@ == old(out)@ + spec_fetch_header(p@, context_of(prev)),
{
    let is_datagram = match p.forwarding_preference {
        ObjectForwardingPreference::Datagram => true,
        ObjectForwardingPreference::Subgroup => false,
    };
    let (has_group_id, has_object_id, has_priority, subgroup_mode) = fetch_layout(p, prev);
    let has_extensions = match &p.extension_headers {
        Some(v) => v.len() > 0,
        None => false,
    };
    proof {
        assert(spec_has_extensions(p@) == has_extensions);
    }
    let flags = fetch_flags(
        subgroup_mode,
        has_object_id,
        has_group_id,
        has_priority,
        has_extensions,
        is_datagram,
    );
    let ghost start = out@;
    push_vi(out, flags as u64);
    proof {
        let pv = p@;
        let ctx = context_of(prev);
        let layout = spec_fetch_layout(pv, ctx);
        assert(layout.0 == has_group_id);
        assert(flags == spec_fetch_flags(layout.3, layout.1, layout.0, layout.2, spec_has_extensions(pv), is_datagram));
    }
    let ghost pv = p@;
    let ghost v0 = spec_vi_encode(flags as u64);
    let ghost g = opt_vi(has_group_id, pv.group_id);
    let ghost sg = opt_vi(!is_datagram && subgroup_mode == SUBGROUP_MODE_PRESENT, pv.subgroup_id);
    let ghost o = opt_vi(has_object_id, pv.object_id);
    let ghost pri: Seq<u8> = if has_priority {
        seq![pv.publisher_priority]
    } else {
        Seq::empty()
    };
    push_opt_vi(out, has_group_id, p.group_id);
    proof {
        lemma_concat_associative(start, v0, g);
    }
    push_opt_vi(out, !is_datagram && subgroup_mode == SUBGROUP_MODE_PRESENT, p.subgroup_id);
    proof {
        lemma_concat_associative(start, v0 + g, sg);
    }
    push_opt_vi(out, has_object_id, p.object_id);
    proof {
        lemma_concat_associative(start, v0 + g + sg, o);
    }
    let ghost d = out@;
    if has_priority {
        out.push(p.publisher_priority);
    }
    proof {
        assert(out@ =~= d + pri);
        lemma_concat_associative(start, v0 + g + sg + o, pri);
        assert(spec_fetch_header(pv, context_of(prev)) == v0 + g + sg + o + pri);
    }
}

/// Appends `v` as a varint when `present`.
fn push_opt_vi(out: &mut Vec<u8>, present: bool, v: u64)
    ensures
        final(out)@ == old(out)@ + opt_vi(present, v),
{
    if present {
        push_vi(out, v);
    } else {
        proof {
            assert(out@ =~= out@ + Seq::<u8>::empty());
        }
    }
}

/// The wire form of a payload-bearing object against the prior state.
fn serialize_payload(p: &FetchObjectPayload, prev: Option<&FetchObjectContext>) -> (r: Result<
    Bytes,
    ParseError,
>)
    requires
        payload_writable(p@, context_of(prev)),
    ensures
        match r {
            Ok(b) => spec_serialize_fetch_payload(p@, context_of(prev)) == Ok::<Seq<u8>, ErrorKind>(
                bytes_view(b),
            ),
            Err(e) => spec_serialize_fetch_payload(p@, context_of(prev)) == Err::<
                Seq<u8>,
                ErrorKind,
            >(e.kind()),
        },
{
    let ext = fetch_ext_part(p)?;
    let mut out: Vec<u8> = Vec::new();
    push_fetch_header(&mut out, p, prev);
    out.extend_from_slice(ext.as_slice());
    let data = bytes_as_slice(&p.payload);
    push_vi(&mut out, data.len() as u64);
    out.extend_from_slice(data);
    proof {
        assert(out@ =~= spec_serialize_fetch_payload(p@, context_of(prev))->Ok_0);
    }
    Ok(bytes_from_vec(out))
}

impl FetchObject {
    /// The state to thread into the next read or write on this stream; an
    /// End-of-Range marker gives none, as it must not update the prior state.
    pub fn context(&self) -> (r: Option<FetchObjectContext>)
        ensures
            r == spec_fetch_context(self@),
    {
        match self {
            FetchObject::Object(p) => Some(
                FetchObjectContext {
                    group_id: p.group_id,
                    subgroup_id: p.subgroup_id,
                    object_id: p.object_id,
                    publisher_priority: p.publisher_priority,
                },
            ),
            FetchObject::EndOfRange { .. } => None,
        }
    }

    /// The wire form of this object against the prior state on its stream.
    pub fn serialize(&self, prev: Option<&FetchObjectContext>) -> (r: Result<Bytes, ParseError>)
        requires
            fetch_object_writable(self@, context_of(prev)),
        ensures
            match r {
                Ok(b) => spec_serialize_fetch_object(self@, context_of(prev)) == Ok::<
                    Seq<u8>,
                    ErrorKind,
                >(bytes_view(b)),
                Err(e) => spec_serialize_fetch_object(self@, context_of(prev)) == Err::<
                    Seq<u8>,
                    ErrorKind,
                >(e.kind()),
            },
    {
        match self {
            FetchObject::EndOfRange { kind, group_id, object_id } => {
                let mut out: Vec<u8> = Vec::new();
                push_vi(&mut out, kind.as_flag_value());
                push_vi(&mut out, *group_id);
                push_vi(&mut out, *object_id);
                proof {
                    assert(out@ =~= spec_serialize_fetch_object(self@, context_of(prev))->Ok_0);
                }
                Ok(bytes_from_vec(out))
            },
            FetchObject::Object(p) => serialize_payload(p, prev),
        }
    }

    /// Reads one object or marker against the prior state on its stream.
    pub fn deserialize(bytes: &mut Bytes, prev: Option<&FetchObjectContext>) -> (r: Result<
        Self,
        ParseError,
    >)
        ensures
            match r {
                Ok(o) => spec_deserialize_fetch_object(bytes_view(*old(bytes)), context_of(prev))
                    == Ok::<(FetchObjectView, Seq<u8>), ErrorKind>((o@, bytes_view(*final(bytes)))),
                Err(e) => spec_deserialize_fetch_object(bytes_view(*old(bytes)), context_of(prev))
                    == Err::<(FetchObjectView, Seq<u8>), ErrorKind>(e.kind()),
            },
    {
        let flags_raw = bytes.get_vi()?;
        if flags_raw >= 128 {
            let kind = if flags_raw == END_OF_NON_EXISTENT_RANGE {
                EndOfRangeKind::NonExistent
            } else if flags_raw == END_OF_UNKNOWN_RANGE {
                EndOfRangeKind::Unknown
            } else {
                return Err(
                    ParseError::ProtocolViolation {
                        context: "FetchObject::deserialize: invalid Serialization Flags value",
                    },
                );
            };
            let group_id = bytes.get_vi()?;
            let object_id = bytes.get_vi()?;
            return Ok(FetchObject::EndOfRange { kind, group_id, object_id });
        }
        read_fetch_payload(bytes, flags_raw as u8, prev)
    }
}

/// Reads a field that is either present as a varint or inherited.
fn read_or(bytes: &mut Bytes, present: bool, inherited: u64) -> (r: Result<u64, ParseError>)
    ensures
        match r {
            Ok(v) => spec_read_or(present, bytes_view(*old(bytes)), inherited) == Ok::<
                (u64, Seq<u8>),
                ErrorKind,
            >((v, bytes_view(*final(bytes)))),
            Err(e) => spec_read_or(present, bytes_view(*old(bytes)), inherited) == Err::<
                (u64, Seq<u8>),
                ErrorKind,
            >(e.kind()),
        },
{
    if present {
        bytes.get_vi()
    } else {
        Ok(inherited)
    }
}

/// Reads the subgroup number for the given subgroup mode.
fn read_subgroup(bytes: &mut Bytes, is_datagram: bool, mode: u8, prev: FetchObjectContext) -> (r: Result<
    u64,
    ParseError,
>)
    ensures
        match r {
            Ok(v) => spec_read_subgroup(is_datagram, mode, bytes_view(*old(bytes)), prev) == Ok::<
                (u64, Seq<u8>),
                ErrorKind,
            >((v, bytes_view(*final(bytes)))),
            Err(e) => spec_read_subgroup(is_datagram, mode, bytes_view(*old(bytes)), prev) == Err::<
                (u64, Seq<u8>),
                ErrorKind,
            >(e.kind()),
        },
{
    if is_datagram || mode == SUBGROUP_MODE_ZERO {
        Ok(0)
    } else if mode == SUBGROUP_MODE_PRIOR {
        Ok(prev.subgroup_id)
    } else if mode == SUBGROUP_MODE_PRIOR_PLUS_ONE {
        if prev.subgroup_id == u64::MAX {
            return Err(
                ParseError::ProtocolViolation {
                    context: "FetchObject::deserialize: subgroup after the largest",
                },
            );
        }
        Ok(prev.subgroup_id + 1)
    } else {
        bytes.get_vi()
    }
}

/// Reads the publisher priority byte, or inherits it.
fn read_priority(bytes: &mut Bytes, present: bool, inherited: u8) -> (r: Result<u8, ParseError>)
    ensures
        match r {
            Ok(v) => spec_read_priority(present, bytes_view(*old(bytes)), inherited) == Ok::<
                (u8, Seq<u8>),
                ErrorKind,
            >((v, bytes_view(*final(bytes)))),
            Err(e) => spec_read_priority(present, bytes_view(*old(bytes)), inherited) == Err::<
                (u8, Seq<u8>),
                ErrorKind,
            >(e.kind()),
        },
{
    if !present {
        return Ok(inherited);
    }
    if bytes_len(bytes) < 1 {
        return Err(
            ParseError::NotEnoughBytes {
                context: "FetchObject::deserialize(priority)",
                needed: 1,
                available: 0,
            },
        );
    }
    Ok(bytes_get_u8(bytes))
}

/// Reads the extension headers of a payload object, if present.
fn read_fetch_extensions(bytes: &mut Bytes, present: bool) -> (r: Result<
    Option<Vec<ObjectExtension>>,
    ParseError,
>)
    ensures
        match r {
            Ok(h) => spec_read_fetch_extensions(present, bytes_view(*old(bytes))) == Ok::<
                (Option<Seq<ObjectExtensionView>>, Seq<u8>),
                ErrorKind,
            >(
                (
                    match h {
                        Some(v) => Some(object_extensions_view(v@)),
                        None => None,
                    },
                    bytes_view(*final(bytes)),
                ),
            ),
            Err(e) => spec_read_fetch_extensions(present, bytes_view(*old(bytes))) == Err::<
                (Option<Seq<ObjectExtensionView>>, Seq<u8>),
                ErrorKind,
            >(e.kind()),
        },
{
    if !present {
        return Ok(None);
    }
    let mut header_bytes = read_sized(bytes, "FetchObject::deserialize(extensions)")?;
    match deserialize_object_extensions(&mut header_bytes) {
        Ok(h) => Ok(Some(h)),
        Err(_) => Err(
            ParseError::ProtocolViolation {
                context: "FetchObject::deserialize(extensions): cannot parse object extensions",
            },
        ),
    }
}

/// Reads the rest of a payload object after its flags.
#[verifier::spinoff_prover]
#[verifier::rlimit(40)]
fn read_fetch_payload(bytes: &mut Bytes, flags: u8, prev: Option<&FetchObjectContext>) -> (r: Result<
    FetchObject,
    ParseError,
>)
    ensures
        match r {
            Ok(o) => spec_read_fetch_payload(flags, bytes_view(*old(bytes)), context_of(prev))
                == Ok::<(FetchObjectView, Seq<u8>), ErrorKind>((o@, bytes_view(*final(bytes)))),
            Err(e) => spec_read_fetch_payload(flags, bytes_view(*old(bytes)), context_of(prev))
                == Err::<(FetchObjectView, Seq<u8>), ErrorKind>(e.kind()),
        },
{
    proof {
        reveal(spec_read_fetch_payload);
    }
    let subgroup_mode = flags & FLAG_SUBGROUP_MODE_MASK;
    let has_object_id = flags & FLAG_OBJECT_ID_PRESENT != 0;
    let has_group_id = flags & FLAG_GROUP_ID_PRESENT != 0;
    let has_priority = flags & FLAG_PRIORITY_PRESENT != 0;
    let has_extensions = flags & FLAG_EXTENSIONS_PRESENT != 0;
    let is_datagram = flags & FLAG_DATAGRAM != 0;
    let pc = match prev {
        Some(c) => *c,
        None => {
            if !has_object_id || !has_group_id || !has_priority {
                return Err(
                    ParseError::ProtocolViolation {
                        context: "FetchObject::deserialize: first object must carry explicit group/object/priority",
                    },
                );
            }
            if !is_datagram && (subgroup_mode == SUBGROUP_MODE_PRIOR || subgroup_mode
                == SUBGROUP_MODE_PRIOR_PLUS_ONE) {
                return Err(
                    ParseError::ProtocolViolation {
                        context: "FetchObject::deserialize: first object cannot reference prior subgroup",
                    },
                );
            }
            FetchObjectContext { group_id: 0, subgroup_id: 0, object_id: 0, publisher_priority: 0 }
        },
    };
    let ghost spc = context_of(prev)->Some_0;
    let ghost s0 = bytes_view(*bytes);
    let group_id = read_or(bytes, has_group_id, pc.group_id)?;
    let ghost s1 = bytes_view(*bytes);
    proof {
        assert(spec_read_or(has_group_id, s0, spc.group_id) == spec_read_or(has_group_id, s0, pc.group_id));
    }
    let subgroup_id = read_subgroup(bytes, is_datagram, subgroup_mode, pc)?;
    let ghost s2 = bytes_view(*bytes);
    proof {
        assert(spec_read_subgroup(is_datagram, subgroup_mode, s1, spc) == spec_read_subgroup(is_datagram, subgroup_mode, s1, pc));
    }
    if !has_object_id && pc.object_id == u64::MAX {
        return Err(
            ParseError::ProtocolViolation {
                context: "FetchObject::deserialize: object after the largest",
            },
        );
    }
    let object_id = read_or(bytes, has_object_id, if has_object_id { 0 } else { pc.object_id + 1 })?;
    let ghost s3 = bytes_view(*bytes);
    proof {
        assert(spec_read_object_id(has_object_id, s2, spc.object_id) == spec_read_object_id(has_object_id, s2, pc.object_id));
    }
    let publisher_priority = read_priority(bytes, has_priority, pc.publisher_priority)?;
    proof {
        assert(spec_read_priority(has_priority, s3, spc.publisher_priority) == spec_read_priority(has_priority, s3, pc.publisher_priority));
    }
    let extension_headers = read_fetch_extensions(bytes, has_extensions)?;
    let payload = read_sized(bytes, "FetchObject::deserialize(payload)")?;
    let forwarding_preference = if is_datagram {
        ObjectForwardingPreference::Datagram
    } else {
        ObjectForwardingPreference::Subgroup
    };
    // For datagram forwarding the subgroup follows the object id, as on the
    // other ingress paths.
    let subgroup_id = if is_datagram {
        object_id
    } else {
        subgroup_id
    };
    Ok(
        FetchObject::Object(
            FetchObjectPayload {
                group_id,
                subgroup_id,
                object_id,
                publisher_priority,
                forwarding_preference,
                extension_headers,
                payload,
            },
        ),
    )
}


/// A payload object the stream format carries exactly: its extension
/// headers, when there are any, form a non-empty list of extensions that read
/// back as themselves, a datagram object's subgroup is its object id, and its
/// lengths fit in memory.
pub open spec fn fetch_payload_canonical(p: FetchPayloadView) -> bool {
    &&& match p.extension_headers {
        Some(xs) => xs.len() > 0 && (forall|i: int|
            0 <= i < xs.len() ==> object_extension_canonical(#[trigger] xs[i]))
            && spec_serialize_object_extensions(xs)->Ok_0.len() <= usize::MAX,
        None => true,
    }
    &&& p.forwarding_preference == ObjectForwardingPreference::Datagram ==> p.subgroup_id
        == p.object_id
    &&& p.payload.len() <= usize::MAX
}

pub open spec fn fetch_object_canonical(o: FetchObjectView) -> bool {
    match o {
        FetchObjectView::Object(p) => fetch_payload_canonical(p),
        FetchObjectView::EndOfRange { .. } => true,
    }
}

/// Every flag of a Serialization Flags byte reads back as it was set, and
/// the byte stays below the End-of-Range range.
proof fn lemma_fetch_flags(
    mode: u8,
    has_object_id: bool,
    has_group_id: bool,
    has_priority: bool,
    has_extensions: bool,
    is_datagram: bool,
)
    requires
        mode <= 3,
    ensures
        ({
            let f = spec_fetch_flags(
                mode,
                has_object_id,
                has_group_id,
                has_priority,
                has_extensions,
                is_datagram,
            );
            &&& f < 128
            &&& f & FLAG_SUBGROUP_MODE_MASK == mode
            &&& (f & FLAG_OBJECT_ID_PRESENT != 0) == has_object_id
            &&& (f & FLAG_GROUP_ID_PRESENT != 0) == has_group_id
            &&& (f & FLAG_PRIORITY_PRESENT != 0) == has_priority
            &&& (f & FLAG_EXTENSIONS_PRESENT != 0) == has_extensions
            &&& (f & FLAG_DATAGRAM != 0) == is_datagram
        }),
{
    assert({
        let f = (mode & 0x03u8) | (if has_object_id {
            0x04u8
        } else {
            0u8
        }) | (if has_group_id {
            0x08u8
        } else {
            0u8
        }) | (if has_priority {
            0x10u8
        } else {
            0u8
        }) | (if has_extensions {
            0x20u8
        } else {
            0u8
        }) | (if is_datagram {
            0x40u8
        } else {
            0u8
        });
        &&& f < 128
        &&& f & 0x03u8 == mode
        &&& (f & 0x04u8 != 0) == has_object_id
        &&& (f & 0x08u8 != 0) == has_group_id
        &&& (f & 0x10u8 != 0) == has_priority
        &&& (f & 0x20u8 != 0) == has_extensions
        &&& (f & 0x40u8 != 0) == is_datagram
    }) by (bit_vector)
        requires
            mode <= 3,
    ;
}

proof fn lemma_read_or_written(present: bool, v: u64, inherited: u64, rest: Seq<u8>)
    requires
        !present ==> inherited == v,
    ensures
        spec_read_or(present, opt_vi(present, v) + rest, inherited) == Ok::<(u64, Seq<u8>), ErrorKind>(
            (v, rest),
        ),
{
    if present {
        lemma_vi_roundtrip(v, rest);
    } else {
        assert(opt_vi(present, v) + rest =~= rest);
    }
}

proof fn lemma_read_sized_written(b: Seq<u8>, rest: Seq<u8>)
    requires
        b.len() <= usize::MAX,
    ensures
        spec_read_sized(spec_vi_encode(b.len() as u64) + b + rest) == Ok::<
            (Seq<u8>, Seq<u8>),
            ErrorKind,
        >((b, rest)),
{
    lemma_vi_roundtrip(b.len() as u64, b + rest);
    assert(spec_vi_encode(b.len() as u64) + b + rest =~= spec_vi_encode(b.len() as u64) + (b
        + rest));
    assert((b + rest).take(b.len() as int) =~= b);
    assert((b + rest).skip(b.len() as int) =~= rest);
}

/// A canonical fetch object, written against a prior state, is read back
/// against the same state, leaving what follows untouched.
#[verifier::spinoff_prover]
#[verifier::rlimit(60)]
pub proof fn lemma_fetch_object_roundtrip(
    o: FetchObjectView,
    prev: Option<FetchObjectContext>,
    rest: Seq<u8>,
)
    requires
        fetch_object_canonical(o),
        fetch_object_writable(o, prev),
    ensures
        spec_serialize_fetch_object(o, prev) is Ok,
        spec_deserialize_fetch_object(spec_serialize_fetch_object(o, prev)->Ok_0 + rest, prev)
            == Ok::<(FetchObjectView, Seq<u8>), ErrorKind>((o, rest)),
{
    match o {
        FetchObjectView::EndOfRange { kind, group_id, object_id } => {
            let t2 = spec_vi_encode(object_id) + rest;
            let t1 = spec_vi_encode(group_id) + t2;
            lemma_vi_roundtrip(kind.spec_flag_value(), t1);
            lemma_vi_roundtrip(group_id, t2);
            lemma_vi_roundtrip(object_id, rest);
            assert(spec_serialize_fetch_object(o, prev)->Ok_0 + rest =~= spec_vi_encode(
                kind.spec_flag_value(),
            ) + t1);
        },
        FetchObjectView::Object(p) => {
            lemma_fetch_payload_roundtrip(p, prev, rest);
        },
    }
}

/// The wire form of a payload object, followed by `rest`, split into its
/// fields.
proof fn lemma_fetch_payload_split(
    p: FetchPayloadView,
    prev: Option<FetchObjectContext>,
    ext: Seq<u8>,
    rest: Seq<u8>,
)
    requires
        spec_fetch_ext_part(p) == Ok::<Seq<u8>, ErrorKind>(ext),
    ensures
        ({
            let dg = p.forwarding_preference == ObjectForwardingPreference::Datagram;
            let layout = spec_fetch_layout(p, prev);
            let f = spec_fetch_flags(
                layout.3,
                layout.1,
                layout.0,
                layout.2,
                spec_has_extensions(p),
                dg,
            );
            let pri: Seq<u8> = if layout.2 {
                seq![p.publisher_priority]
            } else {
                Seq::empty()
            };
            spec_serialize_fetch_payload(p, prev)->Ok_0 + rest == spec_vi_encode(f as u64) + (opt_vi(
                layout.0,
                p.group_id,
            ) + (opt_vi(!dg && layout.3 == SUBGROUP_MODE_PRESENT, p.subgroup_id) + (opt_vi(
                layout.1,
                p.object_id,
            ) + (pri + (ext + (spec_vi_encode(p.payload.len() as u64) + (p.payload + rest)))))))
        }),
{
    let dg = p.forwarding_preference == ObjectForwardingPreference::Datagram;
    let layout = spec_fetch_layout(p, prev);
    let f = spec_fetch_flags(layout.3, layout.1, layout.0, layout.2, spec_has_extensions(p), dg);
    let pri: Seq<u8> = if layout.2 {
        seq![p.publisher_priority]
    } else {
        Seq::empty()
    };
    let a = spec_vi_encode(f as u64);
    let b = opt_vi(layout.0, p.group_id);
    let c = opt_vi(!dg && layout.3 == SUBGROUP_MODE_PRESENT, p.subgroup_id);
    let d = opt_vi(layout.1, p.object_id);
    let e = pri;
    let vl = spec_vi_encode(p.payload.len() as u64);
    let pl = p.payload;
    assert(spec_fetch_header(p, prev) == a + b + c + d + e);
    lemma_concat_associative(a + b + c + d + e + ext + vl, pl, rest);
    lemma_concat_associative(a + b + c + d + e + ext, vl, pl + rest);
    lemma_concat_associative(a + b + c + d + e, ext, vl + (pl + rest));
    lemma_concat_associative(a + b + c + d, e, ext + (vl + (pl + rest)));
    lemma_concat_associative(a + b + c, d, e + (ext + (vl + (pl + rest))));
    lemma_concat_associative(a + b, c, d + (e + (ext + (vl + (pl + rest)))));
    lemma_concat_associative(a, b, c + (d + (e + (ext + (vl + (pl + rest))))));
}


/// Reading a payload object whose fields each read back as given.
proof fn lemma_read_fetch_payload_steps(
    f: u8,
    prev: Option<FetchObjectContext>,
    p: FetchPayloadView,
    t0: Seq<u8>,
    t1: Seq<u8>,
    t2: Seq<u8>,
    t3: Seq<u8>,
    t4: Seq<u8>,
    t5: Seq<u8>,
    rest: Seq<u8>,
)
    requires
        ({
            let mode = f & FLAG_SUBGROUP_MODE_MASK;
            let has_object = f & FLAG_OBJECT_ID_PRESENT != 0;
            let has_group = f & FLAG_GROUP_ID_PRESENT != 0;
            let has_priority = f & FLAG_PRIORITY_PRESENT != 0;
            let has_ext = f & FLAG_EXTENSIONS_PRESENT != 0;
            let dg = f & FLAG_DATAGRAM != 0;
            let pc = prev->Some_0;
            &&& prev is None ==> has_object && has_group && has_priority && (dg || (mode
                != SUBGROUP_MODE_PRIOR && mode != SUBGROUP_MODE_PRIOR_PLUS_ONE))
            &&& spec_read_or(has_group, t0, pc.group_id) == Ok::<(u64, Seq<u8>), ErrorKind>(
                (p.group_id, t1),
            )
            &&& spec_read_subgroup(dg, mode, t1, pc) == Ok::<(u64, Seq<u8>), ErrorKind>(
                (if dg {
                    0
                } else {
                    p.subgroup_id
                }, t2),
            )
            &&& spec_read_object_id(has_object, t2, pc.object_id) == Ok::<
                (u64, Seq<u8>),
                ErrorKind,
            >((p.object_id, t3))
            &&& spec_read_priority(has_priority, t3, pc.publisher_priority) == Ok::<
                (u8, Seq<u8>),
                ErrorKind,
            >((p.publisher_priority, t4))
            &&& spec_read_fetch_extensions(has_ext, t4) == Ok::<
                (Option<Seq<ObjectExtensionView>>, Seq<u8>),
                ErrorKind,
            >((p.extension_headers, t5))
            &&& spec_read_sized(t5) == Ok::<(Seq<u8>, Seq<u8>), ErrorKind>((p.payload, rest))
            &&& p.forwarding_preference == (if dg {
                ObjectForwardingPreference::Datagram
            } else {
                ObjectForwardingPreference::Subgroup
            })
            &&& dg ==> p.subgroup_id == p.object_id
        }),
    ensures
        spec_read_fetch_payload(f, t0, prev) == Ok::<(FetchObjectView, Seq<u8>), ErrorKind>(
            (FetchObjectView::Object(p), rest),
        ),
{
    reveal(spec_read_fetch_payload);
}

#[verifier::spinoff_prover]
#[verifier::rlimit(60)]
proof fn lemma_fetch_payload_roundtrip(
    p: FetchPayloadView,
    prev: Option<FetchObjectContext>,
    rest: Seq<u8>,
)
    requires
        fetch_payload_canonical(p),
        payload_writable(p, prev),
    ensures
        spec_serialize_fetch_payload(p, prev) is Ok,
        spec_deserialize_fetch_object(spec_serialize_fetch_payload(p, prev)->Ok_0 + rest, prev)
            == Ok::<(FetchObjectView, Seq<u8>), ErrorKind>((FetchObjectView::Object(p), rest)),
{
    let dg = p.forwarding_preference == ObjectForwardingPreference::Datagram;
    let layout = spec_fetch_layout(p, prev);
    let has_group = layout.0;
    let has_object = layout.1;
    let has_priority = layout.2;
    let mode = layout.3;
    let has_ext = spec_has_extensions(p);
    let f = spec_fetch_flags(mode, has_object, has_group, has_priority, has_ext, dg);
    lemma_fetch_flags(mode, has_object, has_group, has_priority, has_ext, dg);
    let ext: Seq<u8> = if has_ext {
        let xs = p.extension_headers->Some_0;
        lemma_object_extensions_roundtrip(xs);
        let b = spec_serialize_object_extensions(xs)->Ok_0;
        spec_vi_encode(b.len() as u64) + b
    } else {
        Seq::empty()
    };
    assert(spec_fetch_ext_part(p) == Ok::<Seq<u8>, ErrorKind>(ext));
    let pri: Seq<u8> = if has_priority {
        seq![p.publisher_priority]
    } else {
        Seq::empty()
    };
    let t6 = p.payload + rest;
    let t5 = spec_vi_encode(p.payload.len() as u64) + t6;
    let t4 = ext + t5;
    let t3 = pri + t4;
    let t2 = opt_vi(has_object, p.object_id) + t3;
    let t1 = opt_vi(!dg && mode == SUBGROUP_MODE_PRESENT, p.subgroup_id) + t2;
    let t0 = opt_vi(has_group, p.group_id) + t1;
    lemma_fetch_payload_split(p, prev, ext, rest);
    lemma_vi_roundtrip(f as u64, t0);
    assert((f as u64) as u8 == f);
    let pc = prev->Some_0;
    assert(spec_read_or(has_group, t0, pc.group_id) == Ok::<(u64, Seq<u8>), ErrorKind>(
        (p.group_id, t1),
    )) by {
        lemma_read_or_written(has_group, p.group_id, pc.group_id, t1);
    }
    assert(spec_read_subgroup(dg, mode, t1, pc) == Ok::<(u64, Seq<u8>), ErrorKind>(
        (if dg {
            0
        } else {
            p.subgroup_id
        }, t2),
    )) by {
        if dg || mode == SUBGROUP_MODE_ZERO {
            assert(t1 =~= t2);
        } else if mode == SUBGROUP_MODE_PRESENT {
            lemma_vi_roundtrip(p.subgroup_id, t2);
        } else {
            assert(t1 =~= t2);
        }
    }
    assert(spec_read_object_id(has_object, t2, pc.object_id) == Ok::<
        (u64, Seq<u8>),
        ErrorKind,
    >((p.object_id, t3))) by {
        lemma_read_or_written(has_object, p.object_id, (pc.object_id + 1) as u64, t3);
    }
    assert(spec_read_priority(has_priority, t3, pc.publisher_priority) == Ok::<
        (u8, Seq<u8>),
        ErrorKind,
    >((p.publisher_priority, t4))) by {
        if has_priority {
            assert(t3[0] == p.publisher_priority);
            assert(t3.skip(1) =~= t4);
        } else {
            assert(t3 =~= t4);
        }
    }
    assert(spec_read_fetch_extensions(has_ext, t4) == Ok::<
        (Option<Seq<ObjectExtensionView>>, Seq<u8>),
        ErrorKind,
    >((p.extension_headers, t5))) by {
        if has_ext {
            let xs = p.extension_headers->Some_0;
            let b = spec_serialize_object_extensions(xs)->Ok_0;
            lemma_read_sized_written(b, t5);
            lemma_concat_associative(spec_vi_encode(b.len() as u64), b, t5);
        } else {
            assert(t4 =~= t5);
        }
    }
    assert(spec_read_sized(t5) == Ok::<(Seq<u8>, Seq<u8>), ErrorKind>((p.payload, rest))) by {
        lemma_read_sized_written(p.payload, rest);
        lemma_concat_associative(spec_vi_encode(p.payload.len() as u64), p.payload, rest);
    }
    lemma_read_fetch_payload_steps(f, prev, p, t0, t1, t2, t3, t4, t5, rest);
}

} // verus!
