use crate::error::{ErrorKind, ParseError};
use vstd::prelude::*;
use vstd::std_specs::convert::{FromSpecImpl, TryFromSpecImpl};

verus! {

/// Fetch header types.
#[derive(Debug, PartialEq, Clone, Copy, Eq, Structural)]
pub enum FetchHeaderType {
    Type0x05,
}

/// A valid Subgroup Header type byte: bit 7 clear, bit 4 set, and
/// SUBGROUP_ID_MODE (bits 1-2) not the reserved `0b11`.
pub open spec fn spec_valid_subgroup_type(value: u64) -> bool {
    &&& value <= 0xff
    &&& value & 0x80 == 0
    &&& value & 0x10 != 0
    &&& value & 0x06 != 0x06
}

/// The type byte built from property flags; `subgroup_id_mode` keeps only its low two bits.
pub open spec fn spec_subgroup_type_from_properties(
    has_properties: bool,
    subgroup_id_mode: u8,
    contains_end_of_group: bool,
    has_default_priority: bool,
    first_object: bool,
) -> u8 {
    0x10u8 | (if has_properties { 0x01u8 } else { 0 }) | ((subgroup_id_mode & 0x03) << 1u8) | (
    if contains_end_of_group {
        0x08u8
    } else {
        0
    }) | (if has_default_priority { 0x20u8 } else { 0 }) | (if first_object { 0x40u8 } else { 0 })
}

/// Subgroup Header Type.
///
/// Type bit layout (form `0b0XX1XXXX`):
/// - Bit 0 (0x01): PROPERTIES - Properties present in all objects
/// - Bits 1-2 (0x06): SUBGROUP_ID_MODE - How subgroup ID is encoded
///   - 0b00: Subgroup ID = 0 (absent from header)
///   - 0b01: Subgroup ID = First Object ID (absent from header)
///   - 0b10: Subgroup ID = explicit (present in header)
///   - 0b11: Reserved (invalid)
/// - Bit 3 (0x08): END_OF_GROUP - This subgroup contains the final object in the group
/// - Bit 4 (0x10): Always set
/// - Bit 5 (0x20): DEFAULT_PRIORITY - Publisher priority field omitted
/// - Bit 6 (0x40): FIRST_OBJECT - The first object on this stream is the first the
///   original publisher published in the subgroup
/// - Bit 7 (0x80): Must be 0
#[derive(Debug, PartialEq, Clone, Copy, Eq, Structural)]
pub struct SubgroupHeaderType(u8);

impl SubgroupHeaderType {
    /// Properties present in all objects (bit 0)
    pub const PROPERTIES: u8 = 0x01;
    /// Mask for SUBGROUP_ID_MODE (bits 1-2)
    pub const SUBGROUP_ID_MODE_MASK: u8 = 0x06;
    /// This subgroup contains the final object in the group (bit 3)
    pub const END_OF_GROUP: u8 = 0x08;
    /// Required bit that must always be set (bit 4)
    pub const REQUIRED_BIT: u8 = 0x10;
    /// Publisher priority field omitted, inherited from subscription (bit 5)
    pub const DEFAULT_PRIORITY: u8 = 0x20;
    /// First object on this stream is the first published in the subgroup (bit 6)
    pub const FIRST_OBJECT: u8 = 0x40;

    /// The raw type byte.
    pub closed spec fn spec_value(self) -> u8 {
        self.0
    }

    /// The type holding the raw byte `v`.
    pub closed spec fn spec_from_raw(v: u8) -> SubgroupHeaderType {
        SubgroupHeaderType(v)
    }

    /// A type is the one holding its own raw byte.
    pub proof fn lemma_from_raw(t: SubgroupHeaderType)
        ensures
            Self::spec_from_raw(t.spec_value()) == t,
    {
    }

    /// Types with the same raw byte are the same type.
    pub proof fn lemma_value_injective(a: SubgroupHeaderType, b: SubgroupHeaderType)
        ensures
            a.spec_value() == b.spec_value() ==> a == b,
    {
    }

    /// A valid type reads back as itself from its raw byte.
    pub proof fn lemma_reads_back(t: SubgroupHeaderType)
        requires
            spec_valid_subgroup_type(t.spec_value() as u64),
        ensures
            <SubgroupHeaderType as vstd::std_specs::convert::TryFromSpec<u64>>::try_from_spec(t.spec_value() as u64) == Ok::<
                SubgroupHeaderType,
                ParseError,
            >(t),
    {
    }

    /// Validate and create from a raw value.
    pub fn try_new(value: u64) -> (r: Result<Self, ParseError>)
        ensures
            match r {
                Ok(t) => spec_valid_subgroup_type(value) && t.spec_value() == value,
                Err(e) => !spec_valid_subgroup_type(value) && e == (ParseError::InvalidType {
                    context: "SubgroupHeaderType::try_new",
                    value,
                }),
            },
    {
        if value > 0xff || value & 0x80 != 0 {
            return Err(ParseError::InvalidType { context: "SubgroupHeaderType::try_new", value });
        }
        if value & 0x10 == 0 {
            return Err(ParseError::InvalidType { context: "SubgroupHeaderType::try_new", value });
        }
        if value & 0x06 == 0x06 {
            return Err(ParseError::InvalidType { context: "SubgroupHeaderType::try_new", value });
        }
        Ok(SubgroupHeaderType(value as u8))
    }

    /// Get the raw u8 value.
    pub fn value(&self) -> (v: u8)
        ensures
            v == self.spec_value(),
    {
        self.0
    }

    /// Properties are present (bit 0 set).
    pub fn has_properties(&self) -> (b: bool)
        ensures
            b == (self.spec_value() & 0x01 != 0),
    {
        self.0 & Self::PROPERTIES != 0
    }

    /// The subgroup ID is explicit in the header (SUBGROUP_ID_MODE = 0b10).
    pub fn has_explicit_subgroup_id(&self) -> (b: bool)
        ensures
            b == (self.spec_value() & 0x06 == 0x04),
    {
        self.0 & Self::SUBGROUP_ID_MODE_MASK == 0x04
    }

    /// The subgroup ID is 0 (SUBGROUP_ID_MODE = 0b00).
    pub fn subgroup_id_is_zero(&self) -> (b: bool)
        ensures
            b == (self.spec_value() & 0x06 == 0x00),
    {
        self.0 & Self::SUBGROUP_ID_MODE_MASK == 0x00
    }

    /// The subgroup ID is the first Object ID (SUBGROUP_ID_MODE = 0b01).
    pub fn subgroup_id_is_first_object_id(&self) -> (b: bool)
        ensures
            b == (self.spec_value() & 0x06 == 0x02),
    {
        self.0 & Self::SUBGROUP_ID_MODE_MASK == 0x02
    }

    /// This subgroup contains the end of the group (bit 3 set).
    pub fn contains_end_of_group(&self) -> (b: bool)
        ensures
            b == (self.spec_value() & 0x08 != 0),
    {
        self.0 & Self::END_OF_GROUP != 0
    }

    /// The default publisher priority is used (bit 5 set); the priority field is omitted.
    pub fn has_default_priority(&self) -> (b: bool)
        ensures
            b == (self.spec_value() & 0x20 != 0),
    {
        self.0 & Self::DEFAULT_PRIORITY != 0
    }

    /// This stream's first object is the first the original publisher published
    /// in the subgroup (bit 6 set).
    pub fn is_first_object(&self) -> (b: bool)
        ensures
            b == (self.spec_value() & 0x40 != 0),
    {
        self.0 & Self::FIRST_OBJECT != 0
    }

    /// Create the type from property flags.
    /// `subgroup_id_mode`: 0 = zero, 1 = first object ID, 2 = explicit.
    pub fn from_properties(
        has_properties: bool,
        subgroup_id_mode: u8,
        contains_end_of_group: bool,
        has_default_priority: bool,
        first_object: bool,
    ) -> (t: Self)
        ensures
            t.spec_value() == spec_subgroup_type_from_properties(
                has_properties,
                subgroup_id_mode,
                contains_end_of_group,
                has_default_priority,
                first_object,
            ),
    {
        let v: u8 = Self::REQUIRED_BIT | (if has_properties { Self::PROPERTIES } else { 0 }) | ((
        subgroup_id_mode & 0x03) << 1u8) | (if contains_end_of_group {
            Self::END_OF_GROUP
        } else {
            0
        }) | (if has_default_priority { Self::DEFAULT_PRIORITY } else { 0 }) | (if first_object {
            Self::FIRST_OBJECT
        } else {
            0
        });
        SubgroupHeaderType(v)
    }
}

impl TryFrom<u64> for SubgroupHeaderType {
    type Error = ParseError;

    fn try_from(value: u64) -> (r: Result<Self, Self::Error>) {
        let r = Self::try_new(value);
        proof {
            if let Ok(t) = r {
                Self::lemma_from_raw(t);
            }
        }
        r
    }
}

impl TryFromSpecImpl<u64> for SubgroupHeaderType {
    open spec fn obeys_try_from_spec() -> bool {
        true
    }

    /// The type holding `value` when it is a valid Subgroup Header type,
    /// else an invalid-type error.
    open spec fn try_from_spec(value: u64) -> Result<Self, ParseError> {
        if spec_valid_subgroup_type(value) {
            Ok(SubgroupHeaderType::spec_from_raw(value as u8))
        } else {
            Err(ParseError::InvalidType { context: "SubgroupHeaderType::try_new", value })
        }
    }
}

impl From<SubgroupHeaderType> for u64 {
    fn from(value: SubgroupHeaderType) -> (v: u64) {
        value.value() as u64
    }
}

impl FromSpecImpl<SubgroupHeaderType> for u64 {
    open spec fn obeys_from_spec() -> bool {
        true
    }

    open spec fn from_spec(value: SubgroupHeaderType) -> u64 {
        value.spec_value() as u64
    }
}

/// The valid Subgroup Header types are exactly 0x10-0x7F with bit 4 set,
/// less the sixteen with SUBGROUP_ID_MODE = 0b11.
pub proof fn lemma_valid_subgroup_types(value: u64)
    ensures
        spec_valid_subgroup_type(value) <==> (0x10 <= value <= 0x7f && (value / 16) % 2 == 1
            && (value % 8) / 2 != 3),
{
    assert(spec_valid_subgroup_type(value) <==> (0x10 <= value <= 0x7f && (value / 16) % 2 == 1
        && (value % 8) / 2 != 3)) by (bit_vector);
}

/// A type built from flags with a defined SUBGROUP_ID_MODE reads back as
/// itself from its raw byte.
pub proof fn lemma_subgroup_type_from_properties_reads_back(
    t: SubgroupHeaderType,
    has_properties: bool,
    subgroup_id_mode: u8,
    contains_end_of_group: bool,
    has_default_priority: bool,
    first_object: bool,
)
    requires
        subgroup_id_mode < 3,
        t.spec_value() == spec_subgroup_type_from_properties(
            has_properties,
            subgroup_id_mode,
            contains_end_of_group,
            has_default_priority,
            first_object,
        ),
    ensures
        <SubgroupHeaderType as vstd::std_specs::convert::TryFromSpec<u64>>::try_from_spec(
            t.spec_value() as u64,
        ) == Ok::<SubgroupHeaderType, ParseError>(t),
{
    lemma_subgroup_type_flags_round_trip(
        has_properties,
        subgroup_id_mode,
        contains_end_of_group,
        has_default_priority,
        first_object,
    );
    SubgroupHeaderType::lemma_reads_back(t);
}

/// A type built from flags with a defined SUBGROUP_ID_MODE is valid, and every
/// flag reads back as it was given.
pub proof fn lemma_subgroup_type_flags_round_trip(
    has_properties: bool,
    subgroup_id_mode: u8,
    contains_end_of_group: bool,
    has_default_priority: bool,
    first_object: bool,
)
    requires
        subgroup_id_mode < 3,
    ensures
        ({
            let v = spec_subgroup_type_from_properties(
                has_properties,
                subgroup_id_mode,
                contains_end_of_group,
                has_default_priority,
                first_object,
            );
            &&& spec_valid_subgroup_type(v as u64)
            &&& (v & 0x01 != 0) == has_properties
            &&& (v & 0x06 == 0x00) == (subgroup_id_mode == 0)
            &&& (v & 0x06 == 0x02) == (subgroup_id_mode == 1)
            &&& (v & 0x06 == 0x04) == (subgroup_id_mode == 2)
            &&& (v & 0x08 != 0) == contains_end_of_group
            &&& (v & 0x20 != 0) == has_default_priority
            &&& (v & 0x40 != 0) == first_object
        }),
{
    let v = spec_subgroup_type_from_properties(
        has_properties,
        subgroup_id_mode,
        contains_end_of_group,
        has_default_priority,
        first_object,
    );
    assert(subgroup_id_mode < 3 ==> {
        let v = 0x10u8 | (if has_properties { 0x01u8 } else { 0 }) | ((subgroup_id_mode & 0x03) << 1u8) | (
        if contains_end_of_group {
            0x08u8
        } else {
            0
        }) | (if has_default_priority { 0x20u8 } else { 0 }) | (if first_object { 0x40u8 } else { 0 });
        &&& v & 0x80 == 0
        &&& v & 0x10 != 0
        &&& v & 0x06 != 0x06
        &&& (v & 0x01 != 0) == has_properties
        &&& (v & 0x06 == 0x00) == (subgroup_id_mode == 0)
        &&& (v & 0x06 == 0x02) == (subgroup_id_mode == 1)
        &&& (v & 0x06 == 0x04) == (subgroup_id_mode == 2)
        &&& (v & 0x08 != 0) == contains_end_of_group
        &&& (v & 0x20 != 0) == has_default_priority
        &&& (v & 0x40 != 0) == first_object
    }) by (bit_vector);
    assert((v as u64) & 0x80 == (v & 0x80) as u64) by (bit_vector);
    assert((v as u64) & 0x10 == (v & 0x10) as u64) by (bit_vector);
    assert((v as u64) & 0x06 == (v & 0x06) as u64) by (bit_vector);
}

/// Object status values.
#[derive(Debug, Clone, Copy, PartialEq, Eq, Structural)]
pub enum ObjectStatus {
    /// 0x0: Normal object. Implicit for any non-zero length object.
    Normal,
    /// 0x3: Indicates end of Group.
    EndOfGroup,
    /// 0x4: Indicates end of Track.
    EndOfTrack,
}

impl ObjectStatus {
    /// The codepoint of this variant.
    pub open spec fn spec_value(self) -> u64 {
        match self {
            ObjectStatus::Normal => 0x0,
            ObjectStatus::EndOfGroup => 0x3,
            ObjectStatus::EndOfTrack => 0x4,
        }
    }

    /// The variant a codepoint names, if any.
    pub open spec fn spec_from_value(value: u64) -> Option<ObjectStatus> {
        if value == 0x0 {
            Some(ObjectStatus::Normal)
        } else if value == 0x3 {
            Some(ObjectStatus::EndOfGroup)
        } else if value == 0x4 {
            Some(ObjectStatus::EndOfTrack)
        } else {
            None
        }
    }

    /// Codepoints and variants correspond one to one.
    pub proof fn lemma_codepoints(self, value: u64)
        ensures
            ObjectStatus::spec_from_value(self.spec_value()) == Some(self),
            ObjectStatus::spec_from_value(value) == Some(self) ==> self.spec_value() == value,
    {
    }

    /// The codepoint of this variant.
    pub fn value(self) -> (v: u64)
        ensures
            v == self.spec_value(),
    {
        match self {
            ObjectStatus::Normal => 0x0,
            ObjectStatus::EndOfGroup => 0x3,
            ObjectStatus::EndOfTrack => 0x4,
        }
    }
}

impl TryFrom<u64> for ObjectStatus {
    type Error = ParseError;

    fn try_from(value: u64) -> (r: Result<Self, Self::Error>) {
        match value {
            0x0 => Ok(ObjectStatus::Normal),
            0x3 => Ok(ObjectStatus::EndOfGroup),
            0x4 => Ok(ObjectStatus::EndOfTrack),
            _ => Err(ParseError::InvalidType { context: "ObjectStatus::try_from(u8)", value: value as u64 }),
        }
    }
}

impl TryFromSpecImpl<u64> for ObjectStatus {
    open spec fn obeys_try_from_spec() -> bool {
        true
    }

    open spec fn try_from_spec(value: u64) -> Result<Self, ParseError> {
        match ObjectStatus::spec_from_value(value) {
            Some(x) => Ok(x),
            None => Err(ParseError::InvalidType { context: "ObjectStatus::try_from(u8)", value: value as u64 }),
        }
    }
}

impl From<ObjectStatus> for u64 {
    fn from(value: ObjectStatus) -> (v: u64) {
        value.value()
    }
}

impl FromSpecImpl<ObjectStatus> for u64 {
    open spec fn obeys_from_spec() -> bool {
        true
    }

    open spec fn from_spec(value: ObjectStatus) -> u64 {
        value.spec_value()
    }
}
/// How an object is forwarded.
#[derive(Debug, Clone, Copy, PartialEq, Eq, Structural)]
pub enum ObjectForwardingPreference {
    Subgroup,
    Datagram,
}

/// A valid Object Datagram type byte: of the form `0b00X0XXXX`, and not both
/// STATUS and END_OF_GROUP.
pub open spec fn spec_datagram_type_error(value: u64) -> Option<ErrorKind> {
    if value > 0xff || value & 0xD0 != 0 {
        Some(ErrorKind::InvalidType)
    } else if value & 0x20 != 0 && value & 0x02 != 0 {
        Some(ErrorKind::ProtocolViolation)
    } else {
        None
    }
}

/// The error that rejects an Object Datagram type byte: a byte outside the
/// form is an invalid type, STATUS with END_OF_GROUP a protocol violation.
pub open spec fn spec_datagram_type_parse_error(value: u64) -> ParseError {
    if value > 0xff || value & 0xD0 != 0 {
        ParseError::InvalidType { context: "ObjectDatagramType::try_new", value }
    } else {
        ParseError::ProtocolViolation { context: "ObjectDatagramType::try_new" }
    }
}

/// The type byte built from datagram property flags.
pub open spec fn spec_datagram_type_from_properties(
    has_properties: bool,
    end_of_group: bool,
    object_id_is_zero: bool,
    default_priority: bool,
    is_status: bool,
) -> u8 {
    (if has_properties { 0x01u8 } else { 0 }) | (if end_of_group { 0x02u8 } else { 0 }) | (
    if object_id_is_zero {
        0x04u8
    } else {
        0
    }) | (if default_priority { 0x08u8 } else { 0 }) | (if is_status { 0x20u8 } else { 0 })
}

/// Object Datagram Type (bitmask).
///
/// Type bit layout (form `0b00X0XXXX`):
/// - Bit 0 (0x01): PROPERTIES - Properties field present
/// - Bit 1 (0x02): END_OF_GROUP - Last object in group
/// - Bit 2 (0x04): ZERO_OBJECT_ID - Object ID omitted (assumed 0)
/// - Bit 3 (0x08): DEFAULT_PRIORITY - Publisher Priority omitted (inherited)
/// - Bit 5 (0x20): STATUS - Object Status replaces Object Payload
///
/// STATUS together with END_OF_GROUP is a protocol violation.
#[derive(Debug, Clone, Copy, PartialEq, Eq, Structural)]
pub struct ObjectDatagramType(u8);

impl ObjectDatagramType {
    pub const PROPERTIES: u8 = 0x01;
    pub const END_OF_GROUP: u8 = 0x02;
    pub const ZERO_OBJECT_ID: u8 = 0x04;
    pub const DEFAULT_PRIORITY: u8 = 0x08;
    pub const STATUS: u8 = 0x20;

    /// The raw type byte.
    pub closed spec fn spec_value(self) -> u8 {
        self.0
    }

    /// The type holding the raw byte `v`.
    pub closed spec fn spec_from_raw(v: u8) -> ObjectDatagramType {
        ObjectDatagramType(v)
    }

    /// A type is the one holding its own raw byte.
    pub proof fn lemma_from_raw(t: ObjectDatagramType)
        ensures
            Self::spec_from_raw(t.spec_value()) == t,
    {
    }

    /// Types with the same raw byte are the same type.
    pub proof fn lemma_value_injective(a: ObjectDatagramType, b: ObjectDatagramType)
        ensures
            a.spec_value() == b.spec_value() ==> a == b,
    {
    }

    /// A valid type reads back as itself from its raw byte.
    pub proof fn lemma_reads_back(t: ObjectDatagramType)
        requires
            spec_datagram_type_error(t.spec_value() as u64) is None,
        ensures
            <ObjectDatagramType as vstd::std_specs::convert::TryFromSpec<u64>>::try_from_spec(t.spec_value() as u64) == Ok::<
                ObjectDatagramType,
                ParseError,
            >(t),
    {
    }

    /// Validate and create from a raw value.
    pub fn try_new(value: u64) -> (r: Result<Self, ParseError>)
        ensures
            match r {
                Ok(t) => spec_datagram_type_error(value) is None && t.spec_value() == value,
                Err(e) => e == spec_datagram_type_parse_error(value) && spec_datagram_type_error(value)
                    == Some(e.kind()),
            },
    {
        if value > 0xff || value & 0xD0 != 0 {
            return Err(ParseError::InvalidType { context: "ObjectDatagramType::try_new", value });
        }
        if value & 0x20 != 0 && value & 0x02 != 0 {
            return Err(ParseError::ProtocolViolation { context: "ObjectDatagramType::try_new" });
        }
        Ok(ObjectDatagramType(value as u8))
    }

    /// Get the raw u8 value.
    pub fn value(&self) -> (v: u8)
        ensures
            v == self.spec_value(),
    {
        self.0
    }

    /// Properties are present (bit 0).
    pub fn has_properties(&self) -> (b: bool)
        ensures
            b == (self.spec_value() & 0x01 != 0),
    {
        self.0 & Self::PROPERTIES != 0
    }

    /// This is the end of the group (bit 1).
    pub fn is_end_of_group(&self) -> (b: bool)
        ensures
            b == (self.spec_value() & 0x02 != 0),
    {
        self.0 & Self::END_OF_GROUP != 0
    }

    /// The Object ID is absent and assumed to be 0 (bit 2).
    pub fn is_zero_object_id(&self) -> (b: bool)
        ensures
            b == (self.spec_value() & 0x04 != 0),
    {
        self.0 & Self::ZERO_OBJECT_ID != 0
    }

    /// The Publisher Priority is omitted and inherited (bit 3).
    pub fn has_default_priority(&self) -> (b: bool)
        ensures
            b == (self.spec_value() & 0x08 != 0),
    {
        self.0 & Self::DEFAULT_PRIORITY != 0
    }

    /// The datagram carries an Object Status instead of a payload (bit 5).
    pub fn is_status(&self) -> (b: bool)
        ensures
            b == (self.spec_value() & 0x20 != 0),
    {
        self.0 & Self::STATUS != 0
    }

    /// Create the type from property flags; STATUS with END_OF_GROUP is an error.
    pub fn from_properties(
        has_properties: bool,
        end_of_group: bool,
        object_id_is_zero: bool,
        default_priority: bool,
        is_status: bool,
    ) -> (r: Result<Self, ParseError>)
        ensures
            match r {
                Ok(t) => !(is_status && end_of_group) && t.spec_value()
                    == spec_datagram_type_from_properties(
                    has_properties,
                    end_of_group,
                    object_id_is_zero,
                    default_priority,
                    is_status,
                ),
                Err(e) => is_status && end_of_group && e.kind() == ErrorKind::ProtocolViolation,
            },
    {
        let v: u8 = (if has_properties { Self::PROPERTIES } else { 0 }) | (if end_of_group {
            Self::END_OF_GROUP
        } else {
            0
        }) | (if object_id_is_zero { Self::ZERO_OBJECT_ID } else { 0 }) | (if default_priority {
            Self::DEFAULT_PRIORITY
        } else {
            0
        }) | (if is_status { Self::STATUS } else { 0 });
        proof {
            lemma_datagram_type_flags(
                has_properties,
                end_of_group,
                object_id_is_zero,
                default_priority,
                is_status,
            );
        }
        Self::try_new(v as u64)
    }
}

impl TryFrom<u64> for ObjectDatagramType {
    type Error = ParseError;

    fn try_from(value: u64) -> (r: Result<Self, Self::Error>) {
        let r = Self::try_new(value);
        proof {
            if let Ok(t) = r {
                Self::lemma_from_raw(t);
            }
        }
        r
    }
}

impl TryFromSpecImpl<u64> for ObjectDatagramType {
    open spec fn obeys_try_from_spec() -> bool {
        true
    }

    /// The type holding `value` when it is a valid Object Datagram type,
    /// else the error that rejects it.
    open spec fn try_from_spec(value: u64) -> Result<Self, ParseError> {
        if spec_datagram_type_error(value) is None {
            Ok(ObjectDatagramType::spec_from_raw(value as u8))
        } else {
            Err(spec_datagram_type_parse_error(value))
        }
    }
}

impl From<ObjectDatagramType> for u64 {
    fn from(value: ObjectDatagramType) -> (v: u64) {
        value.value() as u64
    }
}

impl FromSpecImpl<ObjectDatagramType> for u64 {
    open spec fn obeys_from_spec() -> bool {
        true
    }

    open spec fn from_spec(value: ObjectDatagramType) -> u64 {
        value.spec_value() as u64
    }
}

/// A datagram type built from flags is valid unless it combines STATUS with
/// END_OF_GROUP, and every flag reads back as it was given.
pub proof fn lemma_datagram_type_flags(
    has_properties: bool,
    end_of_group: bool,
    object_id_is_zero: bool,
    default_priority: bool,
    is_status: bool,
)
    ensures
        ({
            let v = spec_datagram_type_from_properties(
                has_properties,
                end_of_group,
                object_id_is_zero,
                default_priority,
                is_status,
            );
            &&& spec_datagram_type_error(v as u64) == (if is_status && end_of_group {
                Some(ErrorKind::ProtocolViolation)
            } else {
                None
            })
            &&& (v & 0x01 != 0) == has_properties
            &&& (v & 0x02 != 0) == end_of_group
            &&& (v & 0x04 != 0) == object_id_is_zero
            &&& (v & 0x08 != 0) == default_priority
            &&& (v & 0x20 != 0) == is_status
        }),
{
    let v = spec_datagram_type_from_properties(
        has_properties,
        end_of_group,
        object_id_is_zero,
        default_priority,
        is_status,
    );
    assert({
        let v = (if has_properties { 0x01u8 } else { 0 }) | (if end_of_group { 0x02u8 } else { 0 }) | (
        if object_id_is_zero {
            0x04u8
        } else {
            0
        }) | (if default_priority { 0x08u8 } else { 0 }) | (if is_status { 0x20u8 } else { 0 });
        &&& v & 0xD0 == 0
        &&& (v & 0x01 != 0) == has_properties
        &&& (v & 0x02 != 0) == end_of_group
        &&& (v & 0x04 != 0) == object_id_is_zero
        &&& (v & 0x08 != 0) == default_priority
        &&& (v & 0x20 != 0) == is_status
    }) by (bit_vector);
    assert((v as u64) & 0xD0 == (v & 0xD0) as u64) by (bit_vector);
    assert((v as u64) & 0x20 == (v & 0x20) as u64) by (bit_vector);
    assert((v as u64) & 0x02 == (v & 0x02) as u64) by (bit_vector);
}

} // verus!
