//! Properties of the Low Overhead Media Container (LOC): capture time,
//! frame marking, audio level and codec configuration of a media object.
use crate::buf::{bytes_as_slice, bytes_copy_to_bytes, bytes_from_vec, bytes_len, bytes_view};
use crate::error::{ErrorKind, ParseError};
use crate::model::common::pair::KeyValuePair;
use crate::model::common::varint::{lemma_vi_roundtrip, push_vi, spec_get_vi, spec_vi_encode, BufVarIntExt};
use crate::model::property::constant::LOCPropertyId;
use bytes::Bytes;
use vstd::prelude::*;
use vstd::std_specs::convert::TryFromSpecImpl;

verus! {

/// One LOC property. The capture time is written under the Timestamp identifier.
#[derive(Clone, Debug, PartialEq)]
pub enum LOCProperty {
    CaptureTimestamp { value: u64 },
    VideoFrameMarking { value: u64 },
    AudioLevel { value: u64 },
    VideoConfig { value: Bytes },
}

/// What a LOC property holds.
pub enum LOCPropertyView {
    CaptureTimestamp(u64),
    VideoFrameMarking(u64),
    AudioLevel(u64),
    VideoConfig(Seq<u8>),
}

impl View for LOCProperty {
    type V = LOCPropertyView;

    open spec fn view(&self) -> LOCPropertyView {
        match self {
            LOCProperty::CaptureTimestamp { value } => LOCPropertyView::CaptureTimestamp(*value),
            LOCProperty::VideoFrameMarking { value } => LOCPropertyView::VideoFrameMarking(*value),
            LOCProperty::AudioLevel { value } => LOCPropertyView::AudioLevel(*value),
            LOCProperty::VideoConfig { value } => LOCPropertyView::VideoConfig(bytes_view(*value)),
        }
    }
}

/// The identifier a LOC property is written under.
pub open spec fn spec_loc_id(p: LOCPropertyView) -> LOCPropertyId {
    match p {
        LOCPropertyView::CaptureTimestamp(_) => LOCPropertyId::Timestamp,
        LOCPropertyView::VideoFrameMarking(_) => LOCPropertyId::VideoFrameMarking,
        LOCPropertyView::AudioLevel(_) => LOCPropertyId::AudioLevel,
        LOCPropertyView::VideoConfig(_) => LOCPropertyId::VideoConfig,
    }
}

/// The wire form of a LOC property: its identifier, then either the value as
/// a varint or, for the video configuration, a varint length and the bytes.
pub open spec fn spec_loc_bytes(p: LOCPropertyView) -> Seq<u8> {
    let id = spec_vi_encode(spec_loc_id(p).spec_value());
    match p {
        LOCPropertyView::CaptureTimestamp(v) => id + spec_vi_encode(v),
        LOCPropertyView::VideoFrameMarking(v) => id + spec_vi_encode(v),
        LOCPropertyView::AudioLevel(v) => id + spec_vi_encode(v),
        LOCPropertyView::VideoConfig(b) => id + spec_vi_encode(b.len() as u64) + b,
    }
}

/// Reading one LOC property from the front of `s`: the property and the bytes
/// after it. An identifier that no property is written under (Timescale among
/// them) is an invalid type; a configuration longer than what is left is
/// short input.
pub open spec fn spec_loc_parse(s: Seq<u8>) -> Result<(LOCPropertyView, Seq<u8>), ErrorKind> {
    match spec_get_vi(s) {
        Err(e) => Err(e),
        Ok((id, r1)) => match LOCPropertyId::spec_from_value(id) {
            None => Err(ErrorKind::InvalidType),
            Some(LOCPropertyId::Timescale) => Err(ErrorKind::InvalidType),
            Some(LOCPropertyId::VideoConfig) => match spec_get_vi(r1) {
                Err(e) => Err(e),
                Ok((n, r2)) => if n > usize::MAX {
                    Err(ErrorKind::CastingError)
                } else if n > r2.len() {
                    Err(ErrorKind::NotEnoughBytes)
                } else {
                    Ok((LOCPropertyView::VideoConfig(r2.take(n as int)), r2.skip(n as int)))
                },
            },
            Some(kind) => match spec_get_vi(r1) {
                Err(e) => Err(e),
                Ok((v, r2)) => Ok(
                    (
                        match kind {
                            LOCPropertyId::Timestamp => LOCPropertyView::CaptureTimestamp(v),
                            LOCPropertyId::VideoFrameMarking => LOCPropertyView::VideoFrameMarking(v),
                            _ => LOCPropertyView::AudioLevel(v),
                        },
                        r2,
                    ),
                ),
            },
        },
    }
}

/// Reading back what was written gives the property and leaves what followed.
pub proof fn lemma_loc_roundtrip(p: LOCPropertyView, rest: Seq<u8>)
    requires
        p matches LOCPropertyView::VideoConfig(b) ==> b.len() <= usize::MAX,
    ensures
        spec_loc_parse(spec_loc_bytes(p) + rest) == Ok::<(LOCPropertyView, Seq<u8>), ErrorKind>(
            (p, rest),
        ),
{
    let id = spec_loc_id(p);
    id.lemma_codepoints(id.spec_value());
    let head = spec_vi_encode(id.spec_value());
    match p {
        LOCPropertyView::VideoConfig(b) => {
            let tail = spec_vi_encode(b.len() as u64) + b + rest;
            assert(spec_loc_bytes(p) + rest =~= head + tail);
            lemma_vi_roundtrip(id.spec_value(), tail);
            lemma_vi_roundtrip(b.len() as u64, b + rest);
            assert(spec_vi_encode(b.len() as u64) + (b + rest) =~= tail);
            assert((b + rest).take(b.len() as int) =~= b);
            assert((b + rest).skip(b.len() as int) =~= rest);
        },
        LOCPropertyView::CaptureTimestamp(v) => {
            assert(spec_loc_bytes(p) + rest =~= head + (spec_vi_encode(v) + rest));
            lemma_vi_roundtrip(id.spec_value(), spec_vi_encode(v) + rest);
            lemma_vi_roundtrip(v, rest);
        },
        LOCPropertyView::VideoFrameMarking(v) => {
            assert(spec_loc_bytes(p) + rest =~= head + (spec_vi_encode(v) + rest));
            lemma_vi_roundtrip(id.spec_value(), spec_vi_encode(v) + rest);
            lemma_vi_roundtrip(v, rest);
        },
        LOCPropertyView::AudioLevel(v) => {
            assert(spec_loc_bytes(p) + rest =~= head + (spec_vi_encode(v) + rest));
            lemma_vi_roundtrip(id.spec_value(), spec_vi_encode(v) + rest);
            lemma_vi_roundtrip(v, rest);
        },
    }
}

/// The property a pair stands for: the scalar properties come as varint
/// pairs and the video configuration as a bytes pair; any other pairing,
/// and an identifier that names no property, is an invalid type.
pub open spec fn spec_loc_of_kvp(k: KeyValuePair) -> Result<LOCProperty, ParseError> {
    match k {
        KeyValuePair::VarInt { type_value, value } => match LOCPropertyId::spec_from_value(type_value) {
            None => Err(ParseError::InvalidType { context: "LOCPropertyId::try_from(u64)", value: type_value }),
            Some(LOCPropertyId::AudioLevel) => Ok(LOCProperty::AudioLevel { value }),
            Some(LOCPropertyId::Timestamp) => Ok(LOCProperty::CaptureTimestamp { value }),
            Some(LOCPropertyId::VideoFrameMarking) => Ok(LOCProperty::VideoFrameMarking { value }),
            Some(_) => Err(
                ParseError::InvalidType { context: "LOCProperty::try_from(KeyValuePair::VarInt)", value: type_value },
            ),
        },
        KeyValuePair::Bytes { type_value, value } => match LOCPropertyId::spec_from_value(type_value) {
            None => Err(ParseError::InvalidType { context: "LOCPropertyId::try_from(u64)", value: type_value }),
            Some(LOCPropertyId::VideoConfig) => Ok(LOCProperty::VideoConfig { value }),
            Some(_) => Err(
                ParseError::InvalidType { context: "LOCProperty::try_from(KeyValuePair::Bytes)", value: type_value },
            ),
        },
    }
}

impl LOCProperty {
    /// Writes the property; this never fails.
    pub fn serialize(&self) -> (r: Result<Bytes, ParseError>)
        ensures
            r matches Ok(b) && bytes_view(b) == spec_loc_bytes(self@),
    {
        let mut out: Vec<u8> = Vec::new();
        match self {
            LOCProperty::CaptureTimestamp { value } => {
                push_vi(&mut out, LOCPropertyId::Timestamp.value());
                push_vi(&mut out, *value);
            },
            LOCProperty::VideoFrameMarking { value } => {
                push_vi(&mut out, LOCPropertyId::VideoFrameMarking.value());
                push_vi(&mut out, *value);
            },
            LOCProperty::AudioLevel { value } => {
                push_vi(&mut out, LOCPropertyId::AudioLevel.value());
                push_vi(&mut out, *value);
            },
            LOCProperty::VideoConfig { value } => {
                push_vi(&mut out, LOCPropertyId::VideoConfig.value());
                let len = bytes_len(value);
                push_vi(&mut out, len as u64);
                let s = bytes_as_slice(value);
                out.extend_from_slice(s);
            },
        }
        proof {
            assert(out@ =~= spec_loc_bytes(self@));
        }
        Ok(bytes_from_vec(out))
    }

    /// Reads one property from the front of `payload`, consuming it.
    pub fn deserialize(payload: &mut Bytes) -> (r: Result<Self, ParseError>)
        ensures
            match r {
                Ok(p) => spec_loc_parse(bytes_view(*old(payload))) == Ok::<
                    (LOCPropertyView, Seq<u8>),
                    ErrorKind,
                >((p@, bytes_view(*final(payload)))),
                Err(e) => spec_loc_parse(bytes_view(*old(payload))) == Err::<
                    (LOCPropertyView, Seq<u8>),
                    ErrorKind,
                >(e.kind()),
            },
    {
        let id = payload.get_vi()?;
        let kind = match LOCPropertyId::try_from(id) {
            Ok(k) => k,
            Err(e) => return Err(e),
        };
        match kind {
            LOCPropertyId::VideoConfig => {
                let n = payload.get_vi()?;
                if n > usize::MAX as u64 {
                    return Err(
                        ParseError::CastingError {
                            context: "LOCProperty::deserialize(payload_length)",
                            from_type: "u64",
                            to_type: "usize",
                        },
                    );
                }
                let len = n as usize;
                let available = bytes_len(payload);
                if available < len {
                    return Err(
                        ParseError::NotEnoughBytes {
                            context: "LOCProperty::deserialize(video_config)",
                            needed: len,
                            available,
                        },
                    );
                }
                let value = bytes_copy_to_bytes(payload, len);
                Ok(LOCProperty::VideoConfig { value })
            },
            LOCPropertyId::AudioLevel => {
                let value = payload.get_vi()?;
                Ok(LOCProperty::AudioLevel { value })
            },
            LOCPropertyId::Timestamp => {
                let value = payload.get_vi()?;
                Ok(LOCProperty::CaptureTimestamp { value })
            },
            LOCPropertyId::VideoFrameMarking => {
                let value = payload.get_vi()?;
                Ok(LOCProperty::VideoFrameMarking { value })
            },
            LOCPropertyId::Timescale => Err(
                ParseError::InvalidType { context: "LOCProperty::deserialize", value: id },
            ),
        }
    }
}

impl TryFrom<KeyValuePair> for LOCProperty {
    type Error = ParseError;

    fn try_from(pair: KeyValuePair) -> (r: Result<Self, Self::Error>) {
        match pair {
            KeyValuePair::VarInt { type_value, value } => {
                let id = match LOCPropertyId::try_from(type_value) {
                    Ok(id) => id,
                    Err(e) => return Err(e),
                };
                match id {
                    LOCPropertyId::AudioLevel => Ok(LOCProperty::AudioLevel { value }),
                    LOCPropertyId::Timestamp => Ok(LOCProperty::CaptureTimestamp { value }),
                    LOCPropertyId::VideoFrameMarking => Ok(LOCProperty::VideoFrameMarking { value }),
                    _ => Err(
                        ParseError::InvalidType {
                            context: "LOCProperty::try_from(KeyValuePair::VarInt)",
                            value: type_value,
                        },
                    ),
                }
            },
            KeyValuePair::Bytes { type_value, value } => {
                let id = match LOCPropertyId::try_from(type_value) {
                    Ok(id) => id,
                    Err(e) => return Err(e),
                };
                match id {
                    LOCPropertyId::VideoConfig => Ok(LOCProperty::VideoConfig { value }),
                    _ => Err(
                        ParseError::InvalidType {
                            context: "LOCProperty::try_from(KeyValuePair::Bytes)",
                            value: type_value,
                        },
                    ),
                }
            },
        }
    }
}

impl TryFromSpecImpl<KeyValuePair> for LOCProperty {
    open spec fn obeys_try_from_spec() -> bool {
        true
    }

    open spec fn try_from_spec(pair: KeyValuePair) -> Result<Self, ParseError> {
        spec_loc_of_kvp(pair)
    }
}

} // verus!
