//! The header that opens a subgroup stream.
use crate::buf::{bytes_from_vec, bytes_get_u8, bytes_len, bytes_view};
use crate::error::{ErrorKind, ParseError};
use crate::model::common::varint::{lemma_vi_roundtrip, push_vi, spec_get_vi, spec_vi_encode, BufVarIntExt};
use crate::model::data::constant::{
    lemma_subgroup_type_flags_round_trip, spec_subgroup_type_from_properties, spec_valid_subgroup_type,
    SubgroupHeaderType,
};
use bytes::Bytes;
use vstd::prelude::*;

verus! {

/// A Subgroup Header.
#[derive(Debug, PartialEq, Eq, Clone, Copy, Structural)]
pub struct SubgroupHeader {
    pub header_type: SubgroupHeaderType,
    pub track_alias: u64,
    pub group_id: u64,
    /// The subgroup, when the header type fixes it or carries it; `None` when
    /// it is the ID of the first object on the stream.
    pub subgroup_id: Option<u64>,
    /// Publisher priority. None when header_type has DEFAULT_PRIORITY bit set.
    pub publisher_priority: Option<u8>,
}

/// The subgroup ID is carried in the header (SUBGROUP_ID_MODE = 0b10).
pub open spec fn type_has_explicit_subgroup(t: u8) -> bool {
    t & 0x06 == 0x04
}

/// The subgroup ID is fixed at 0 (SUBGROUP_ID_MODE = 0b00).
pub open spec fn type_has_zero_subgroup(t: u8) -> bool {
    t & 0x06 == 0x00
}

/// The publisher priority is left out (DEFAULT_PRIORITY set).
pub open spec fn type_has_default_priority(t: u8) -> bool {
    t & 0x20 != 0
}

/// The subgroup field as written, or the error when the type asks for a
/// subgroup ID the header does not have.
pub open spec fn spec_subgroup_field(t: u8, subgroup_id: Option<u64>) -> Result<Seq<u8>, ErrorKind> {
    if type_has_explicit_subgroup(t) {
        match subgroup_id {
            Some(id) => Ok(spec_vi_encode(id)),
            None => Err(ErrorKind::ProtocolViolation),
        }
    } else {
        Ok(Seq::empty())
    }
}

/// The priority field as written, or the error when the type asks for a
/// priority the header does not have.
pub open spec fn spec_priority_field(t: u8, priority: Option<u8>) -> Result<Seq<u8>, ErrorKind> {
    if !type_has_default_priority(t) {
        match priority {
            Some(p) => Ok(seq![p]),
            None => Err(ErrorKind::ProtocolViolation),
        }
    } else {
        Ok(Seq::empty())
    }
}

/// The wire form of a header, written with `track_alias` in place of its own
/// alias when one is given.
pub open spec fn spec_serialize_subgroup_header(h: SubgroupHeader, track_alias: Option<u64>) -> Result<
    Seq<u8>,
    ErrorKind,
> {
    let t = h.header_type.spec_value();
    let alias = match track_alias {
        Some(a) => a,
        None => h.track_alias,
    };
    match spec_subgroup_field(t, h.subgroup_id) {
        Err(e) => Err(e),
        Ok(sg) => match spec_priority_field(t, h.publisher_priority) {
            Err(e) => Err(e),
            Ok(pr) => Ok(
                spec_vi_encode(t as u64) + spec_vi_encode(alias) + spec_vi_encode(h.group_id) + sg + pr,
            ),
        },
    }
}

/// Reading the subgroup ID: carried, fixed at 0, or left to the first object.
pub open spec fn spec_read_subgroup_id(t: u8, s: Seq<u8>) -> Result<(Option<u64>, Seq<u8>), ErrorKind> {
    if type_has_explicit_subgroup(t) {
        match spec_get_vi(s) {
            Err(e) => Err(e),
            Ok((id, r)) => Ok((Some(id), r)),
        }
    } else if type_has_zero_subgroup(t) {
        Ok((Some(0), s))
    } else {
        Ok((None, s))
    }
}

/// Reading the priority byte unless the type leaves it out.
pub open spec fn spec_read_header_priority(t: u8, s: Seq<u8>) -> Result<(Option<u8>, Seq<u8>), ErrorKind> {
    if type_has_default_priority(t) {
        Ok((None, s))
    } else if s.len() < 1 {
        Err(ErrorKind::NotEnoughBytes)
    } else {
        Ok((Some(s[0]), s.skip(1)))
    }
}

/// Reading a header: a valid type, the alias, the group, then the fields the
/// type asks for.
pub open spec fn spec_deserialize_subgroup_header(s: Seq<u8>) -> Result<(SubgroupHeader, Seq<u8>), ErrorKind> {
    match spec_get_vi(s) {
        Err(e) => Err(e),
        Ok((tv, s1)) => if !spec_valid_subgroup_type(tv) {
            Err(ErrorKind::InvalidType)
        } else {
            match spec_get_vi(s1) {
                Err(e) => Err(e),
                Ok((track_alias, s2)) => match spec_get_vi(s2) {
                    Err(e) => Err(e),
                    Ok((group_id, s3)) => match spec_read_subgroup_id(tv as u8, s3) {
                        Err(e) => Err(e),
                        Ok((subgroup_id, s4)) => match spec_read_header_priority(tv as u8, s4) {
                            Err(e) => Err(e),
                            Ok((publisher_priority, s5)) => Ok(
                                (
                                    SubgroupHeader {
                                        header_type: SubgroupHeaderType::spec_from_raw(tv as u8),
                                        track_alias,
                                        group_id,
                                        subgroup_id,
                                        publisher_priority,
                                    },
                                    s5,
                                ),
                            ),
                        },
                    },
                },
            }
        },
    }
}

/// A header that reads back as itself: a valid type, a subgroup ID exactly
/// when the type fixes or carries one (0 when it fixes it), and a priority
/// exactly when the type does not leave it out.
pub open spec fn subgroup_header_canonical(h: SubgroupHeader) -> bool {
    let t = h.header_type.spec_value();
    &&& spec_valid_subgroup_type(t as u64)
    &&& type_has_explicit_subgroup(t) ==> h.subgroup_id is Some
    &&& type_has_zero_subgroup(t) ==> h.subgroup_id == Some(0u64)
    &&& !type_has_explicit_subgroup(t) && !type_has_zero_subgroup(t) ==> h.subgroup_id is None
    &&& type_has_default_priority(t) <==> h.publisher_priority is None
}

impl SubgroupHeader {
    /// Create a new subgroup header with fixed Subgroup ID = 0.
    pub fn new_fixed_zero_id(
        track_alias: u64,
        group_id: u64,
        publisher_priority: Option<u8>,
        has_extensions: bool,
        contains_end_of_group: bool,
    ) -> (h: Self)
        ensures
            h.header_type.spec_value() == spec_subgroup_type_from_properties(
                has_extensions,
                0,
                contains_end_of_group,
                publisher_priority is None,
                false,
            ),
            h.track_alias == track_alias,
            h.group_id == group_id,
            h.subgroup_id == Some(0u64),
            h.publisher_priority == publisher_priority,
            subgroup_header_canonical(h),
    {
        let header_type = SubgroupHeaderType::from_properties(
            has_extensions,
            0,
            contains_end_of_group,
            publisher_priority.is_none(),
            false,
        );
        proof {
            lemma_subgroup_type_flags_round_trip(
                has_extensions,
                0,
                contains_end_of_group,
                publisher_priority is None,
                false,
            );
        }
        SubgroupHeader { header_type, track_alias, group_id, subgroup_id: Some(0), publisher_priority }
    }

    /// Create a new subgroup header where Subgroup ID = First Object ID.
    pub fn new_first_object_id(
        track_alias: u64,
        group_id: u64,
        publisher_priority: Option<u8>,
        has_extensions: bool,
        contains_end_of_group: bool,
    ) -> (h: Self)
        ensures
            h.header_type.spec_value() == spec_subgroup_type_from_properties(
                has_extensions,
                1,
                contains_end_of_group,
                publisher_priority is None,
                false,
            ),
            h.track_alias == track_alias,
            h.group_id == group_id,
            h.subgroup_id is None,
            h.publisher_priority == publisher_priority,
            subgroup_header_canonical(h),
    {
        let header_type = SubgroupHeaderType::from_properties(
            has_extensions,
            1,
            contains_end_of_group,
            publisher_priority.is_none(),
            false,
        );
        proof {
            lemma_subgroup_type_flags_round_trip(
                has_extensions,
                1,
                contains_end_of_group,
                publisher_priority is None,
                false,
            );
        }
        SubgroupHeader { header_type, track_alias, group_id, subgroup_id: None, publisher_priority }
    }

    /// Create a new subgroup header with explicit Subgroup ID.
    pub fn new_with_explicit_id(
        track_alias: u64,
        group_id: u64,
        subgroup_id: u64,
        publisher_priority: Option<u8>,
        has_extensions: bool,
        contains_end_of_group: bool,
    ) -> (h: Self)
        ensures
            h.header_type.spec_value() == spec_subgroup_type_from_properties(
                has_extensions,
                2,
                contains_end_of_group,
                publisher_priority is None,
                false,
            ),
            h.track_alias == track_alias,
            h.group_id == group_id,
            h.subgroup_id == Some(subgroup_id),
            h.publisher_priority == publisher_priority,
            subgroup_header_canonical(h),
    {
        let header_type = SubgroupHeaderType::from_properties(
            has_extensions,
            2,
            contains_end_of_group,
            publisher_priority.is_none(),
            false,
        );
        proof {
            lemma_subgroup_type_flags_round_trip(
                has_extensions,
                2,
                contains_end_of_group,
                publisher_priority is None,
                false,
            );
        }
        SubgroupHeader {
            header_type,
            track_alias,
            group_id,
            subgroup_id: Some(subgroup_id),
            publisher_priority,
        }
    }

    /// The wire form of this header; `track_alias`, when given, is written in
    /// place of the header's own alias.
    pub fn serialize(&self, track_alias: Option<u64>) -> (r: Result<Bytes, ParseError>)
        ensures
            match r {
                Ok(b) => spec_serialize_subgroup_header(*self, track_alias) == Ok::<Seq<u8>, ErrorKind>(
                    bytes_view(b),
                ),
                Err(e) => spec_serialize_subgroup_header(*self, track_alias) == Err::<
                    Seq<u8>,
                    ErrorKind,
                >(e.kind()),
            },
    {
        let mut out: Vec<u8> = Vec::new();
        push_vi(&mut out, self.header_type.value() as u64);
        let alias = match track_alias {
            Some(a) => a,
            None => self.track_alias,
        };
        push_vi(&mut out, alias);
        push_vi(&mut out, self.group_id);
        let ghost head = out@;
        if self.header_type.has_explicit_subgroup_id() {
            match self.subgroup_id {
                Some(id) => {
                    push_vi(&mut out, id);
                },
                None => {
                    return Err(
                        ParseError::ProtocolViolation {
                            context: "SubgroupHeader::serialize(header_type): subgroup_id is required for this header type",
                        },
                    );
                },
            }
        }
        let ghost with_subgroup = out@;
        if !self.header_type.has_default_priority() {
            match self.publisher_priority {
                Some(p) => {
                    out.push(p);
                },
                None => {
                    return Err(
                        ParseError::ProtocolViolation {
                            context: "SubgroupHeader::serialize(publisher_priority): required when DEFAULT_PRIORITY is not set",
                        },
                    );
                },
            }
        }
        proof {
            let t = self.header_type.spec_value();
            assert(with_subgroup =~= head + spec_subgroup_field(t, self.subgroup_id)->Ok_0);
            assert(out@ =~= with_subgroup + spec_priority_field(t, self.publisher_priority)->Ok_0);
            assert(out@ =~= spec_serialize_subgroup_header(*self, track_alias)->Ok_0);
        }
        Ok(bytes_from_vec(out))
    }

    /// Reads one header from the front of `bytes`.
    pub fn deserialize(bytes: &mut Bytes) -> (r: Result<Self, ParseError>)
        ensures
            match r {
                Ok(h) => spec_deserialize_subgroup_header(bytes_view(*old(bytes))) == Ok::<
                    (SubgroupHeader, Seq<u8>),
                    ErrorKind,
                >((h, bytes_view(*final(bytes)))),
                Err(e) => spec_deserialize_subgroup_header(bytes_view(*old(bytes))) == Err::<
                    (SubgroupHeader, Seq<u8>),
                    ErrorKind,
                >(e.kind()),
            },
    {
        let type_value = bytes.get_vi()?;
        let header_type = SubgroupHeaderType::try_new(type_value)?;
        let track_alias = bytes.get_vi()?;
        let group_id = bytes.get_vi()?;
        let subgroup_id = if header_type.has_explicit_subgroup_id() {
            Some(bytes.get_vi()?)
        } else if header_type.subgroup_id_is_zero() {
            Some(0)
        } else {
            None
        };
        let publisher_priority = if !header_type.has_default_priority() {
            if bytes_len(bytes) < 1 {
                return Err(
                    ParseError::NotEnoughBytes {
                        context: "SubgroupHeader::deserialize(publisher_priority)",
                        needed: 1,
                        available: 0,
                    },
                );
            }
            Some(bytes_get_u8(bytes))
        } else {
            None
        };
        proof {
            SubgroupHeaderType::lemma_from_raw(header_type);
        }
        Ok(SubgroupHeader { header_type, track_alias, group_id, subgroup_id, publisher_priority })
    }
}

/// A canonical header written out, with its own alias or another, reads back
/// as that header with the alias that was written, leaving what follows.
pub proof fn lemma_subgroup_header_roundtrip(h: SubgroupHeader, track_alias: Option<u64>, rest: Seq<u8>)
    requires
        subgroup_header_canonical(h),
    ensures
        spec_serialize_subgroup_header(h, track_alias) is Ok,
        spec_deserialize_subgroup_header(spec_serialize_subgroup_header(h, track_alias)->Ok_0 + rest)
            == Ok::<(SubgroupHeader, Seq<u8>), ErrorKind>(
            (
                SubgroupHeader {
                    track_alias: match track_alias {
                        Some(a) => a,
                        None => h.track_alias,
                    },
                    ..h
                },
                rest,
            ),
        ),
{
    let t = h.header_type.spec_value();
    let alias = match track_alias {
        Some(a) => a,
        None => h.track_alias,
    };
    let sg = spec_subgroup_field(t, h.subgroup_id)->Ok_0;
    let pr = spec_priority_field(t, h.publisher_priority)->Ok_0;
    let s3 = sg + pr + rest;
    let s2 = spec_vi_encode(h.group_id) + s3;
    let s1 = spec_vi_encode(alias) + s2;
    assert(spec_serialize_subgroup_header(h, track_alias)->Ok_0 + rest =~= spec_vi_encode(t as u64) + s1);
    lemma_vi_roundtrip(t as u64, s1);
    lemma_vi_roundtrip(alias, s2);
    lemma_vi_roundtrip(h.group_id, s3);
    let s4 = pr + rest;
    if type_has_explicit_subgroup(t) {
        lemma_vi_roundtrip(h.subgroup_id->Some_0, s4);
        assert(s3 =~= spec_vi_encode(h.subgroup_id->Some_0) + s4);
    } else {
        assert(s3 =~= s4);
    }
    if !type_has_default_priority(t) {
        assert(s4 =~= seq![h.publisher_priority->Some_0] + rest);
        assert(s4.skip(1) =~= rest);
    } else {
        assert(s4 =~= rest);
    }
    SubgroupHeaderType::lemma_from_raw(h.header_type);
}

} // verus!
