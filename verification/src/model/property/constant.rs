use crate::error::ParseError;
use vstd::prelude::*;
use vstd::std_specs::convert::{FromSpecImpl, TryFromSpecImpl};

verus! {

/// LOC property identifiers.
#[derive(Debug, Clone, Copy, PartialEq, Eq, Structural)]
pub enum LOCPropertyId {
    Timestamp,
    Timescale,
    VideoFrameMarking,
    AudioLevel,
    VideoConfig,
}

impl LOCPropertyId {
    /// The codepoint of this variant.
    pub open spec fn spec_value(self) -> u64 {
        match self {
            LOCPropertyId::Timestamp => 0x06,
            LOCPropertyId::Timescale => 0x08,
            LOCPropertyId::VideoFrameMarking => 0x0A,
            LOCPropertyId::AudioLevel => 0x0C,
            LOCPropertyId::VideoConfig => 0x0D,
        }
    }

    /// The variant a codepoint names, if any.
    pub open spec fn spec_from_value(value: u64) -> Option<LOCPropertyId> {
        if value == 0x06 {
            Some(LOCPropertyId::Timestamp)
        } else if value == 0x08 {
            Some(LOCPropertyId::Timescale)
        } else if value == 0x0A {
            Some(LOCPropertyId::VideoFrameMarking)
        } else if value == 0x0C {
            Some(LOCPropertyId::AudioLevel)
        } else if value == 0x0D {
            Some(LOCPropertyId::VideoConfig)
        } else {
            None
        }
    }

    /// Codepoints and variants correspond one to one.
    pub proof fn lemma_codepoints(self, value: u64)
        ensures
            LOCPropertyId::spec_from_value(self.spec_value()) == Some(self),
            LOCPropertyId::spec_from_value(value) == Some(self) ==> self.spec_value() == value,
    {
    }

    /// The codepoint of this variant.
    pub fn value(self) -> (v: u64)
        ensures
            v == self.spec_value(),
    {
        match self {
            LOCPropertyId::Timestamp => 0x06,
            LOCPropertyId::Timescale => 0x08,
            LOCPropertyId::VideoFrameMarking => 0x0A,
            LOCPropertyId::AudioLevel => 0x0C,
            LOCPropertyId::VideoConfig => 0x0D,
        }
    }
}

impl TryFrom<u64> for LOCPropertyId {
    type Error = ParseError;

    fn try_from(value: u64) -> (r: Result<Self, Self::Error>) {
        match value {
            0x06 => Ok(LOCPropertyId::Timestamp),
            0x08 => Ok(LOCPropertyId::Timescale),
            0x0A => Ok(LOCPropertyId::VideoFrameMarking),
            0x0C => Ok(LOCPropertyId::AudioLevel),
            0x0D => Ok(LOCPropertyId::VideoConfig),
            _ => Err(ParseError::InvalidType { context: "LOCPropertyId::try_from(u64)", value: value as u64 }),
        }
    }
}

impl TryFromSpecImpl<u64> for LOCPropertyId {
    open spec fn obeys_try_from_spec() -> bool {
        true
    }

    open spec fn try_from_spec(value: u64) -> Result<Self, ParseError> {
        match LOCPropertyId::spec_from_value(value) {
            Some(x) => Ok(x),
            None => Err(ParseError::InvalidType { context: "LOCPropertyId::try_from(u64)", value: value as u64 }),
        }
    }
}

impl From<LOCPropertyId> for u64 {
    fn from(value: LOCPropertyId) -> (v: u64) {
        value.value()
    }
}

impl FromSpecImpl<LOCPropertyId> for u64 {
    open spec fn obeys_from_spec() -> bool {
        true
    }

    open spec fn from_spec(value: LOCPropertyId) -> u64 {
        value.spec_value()
    }
}
/// MOQT property type values.
/// Even type values use VarInt KVP encoding; odd type values use Bytes KVP encoding.
#[derive(Debug, Clone, Copy, PartialEq, Eq, Structural)]
pub enum TrackPropertyType {
    ObjectDeliveryTimeout,
    MaxCacheDuration,
    SubgroupDeliveryTimeout,
    ImmutableProperties,
    DefaultPublisherPriority,
    DefaultPublisherGroupOrder,
    DynamicGroups,
    PriorGroupIdGap,
    PriorObjectIdGap,
}

impl TrackPropertyType {
    /// The codepoint of this variant.
    pub open spec fn spec_value(self) -> u64 {
        match self {
            TrackPropertyType::ObjectDeliveryTimeout => 0x02,
            TrackPropertyType::MaxCacheDuration => 0x04,
            TrackPropertyType::SubgroupDeliveryTimeout => 0x06,
            TrackPropertyType::ImmutableProperties => 0x0B,
            TrackPropertyType::DefaultPublisherPriority => 0x0E,
            TrackPropertyType::DefaultPublisherGroupOrder => 0x22,
            TrackPropertyType::DynamicGroups => 0x30,
            TrackPropertyType::PriorGroupIdGap => 0x3C,
            TrackPropertyType::PriorObjectIdGap => 0x3E,
        }
    }

    /// The variant a codepoint names, if any.
    pub open spec fn spec_from_value(value: u64) -> Option<TrackPropertyType> {
        if value == 0x02 {
            Some(TrackPropertyType::ObjectDeliveryTimeout)
        } else if value == 0x04 {
            Some(TrackPropertyType::MaxCacheDuration)
        } else if value == 0x06 {
            Some(TrackPropertyType::SubgroupDeliveryTimeout)
        } else if value == 0x0B {
            Some(TrackPropertyType::ImmutableProperties)
        } else if value == 0x0E {
            Some(TrackPropertyType::DefaultPublisherPriority)
        } else if value == 0x22 {
            Some(TrackPropertyType::DefaultPublisherGroupOrder)
        } else if value == 0x30 {
            Some(TrackPropertyType::DynamicGroups)
        } else if value == 0x3C {
            Some(TrackPropertyType::PriorGroupIdGap)
        } else if value == 0x3E {
            Some(TrackPropertyType::PriorObjectIdGap)
        } else {
            None
        }
    }

    /// Codepoints and variants correspond one to one.
    pub proof fn lemma_codepoints(self, value: u64)
        ensures
            TrackPropertyType::spec_from_value(self.spec_value()) == Some(self),
            TrackPropertyType::spec_from_value(value) == Some(self) ==> self.spec_value() == value,
    {
    }

    /// The codepoint of this variant.
    pub fn value(self) -> (v: u64)
        ensures
            v == self.spec_value(),
    {
        match self {
            TrackPropertyType::ObjectDeliveryTimeout => 0x02,
            TrackPropertyType::MaxCacheDuration => 0x04,
            TrackPropertyType::SubgroupDeliveryTimeout => 0x06,
            TrackPropertyType::ImmutableProperties => 0x0B,
            TrackPropertyType::DefaultPublisherPriority => 0x0E,
            TrackPropertyType::DefaultPublisherGroupOrder => 0x22,
            TrackPropertyType::DynamicGroups => 0x30,
            TrackPropertyType::PriorGroupIdGap => 0x3C,
            TrackPropertyType::PriorObjectIdGap => 0x3E,
        }
    }
}

impl TryFrom<u64> for TrackPropertyType {
    type Error = ParseError;

    fn try_from(value: u64) -> (r: Result<Self, Self::Error>) {
        match value {
            0x02 => Ok(TrackPropertyType::ObjectDeliveryTimeout),
            0x04 => Ok(TrackPropertyType::MaxCacheDuration),
            0x06 => Ok(TrackPropertyType::SubgroupDeliveryTimeout),
            0x0B => Ok(TrackPropertyType::ImmutableProperties),
            0x0E => Ok(TrackPropertyType::DefaultPublisherPriority),
            0x22 => Ok(TrackPropertyType::DefaultPublisherGroupOrder),
            0x30 => Ok(TrackPropertyType::DynamicGroups),
            0x3C => Ok(TrackPropertyType::PriorGroupIdGap),
            0x3E => Ok(TrackPropertyType::PriorObjectIdGap),
            _ => Err(ParseError::InvalidType { context: "TrackPropertyType::try_from(u64)", value: value as u64 }),
        }
    }
}

impl TryFromSpecImpl<u64> for TrackPropertyType {
    open spec fn obeys_try_from_spec() -> bool {
        true
    }

    open spec fn try_from_spec(value: u64) -> Result<Self, ParseError> {
        match TrackPropertyType::spec_from_value(value) {
            Some(x) => Ok(x),
            None => Err(ParseError::InvalidType { context: "TrackPropertyType::try_from(u64)", value: value as u64 }),
        }
    }
}

impl From<TrackPropertyType> for u64 {
    fn from(value: TrackPropertyType) -> (v: u64) {
        value.value()
    }
}

impl FromSpecImpl<TrackPropertyType> for u64 {
    open spec fn obeys_from_spec() -> bool {
        true
    }

    open spec fn from_spec(value: TrackPropertyType) -> u64 {
        value.spec_value()
    }
}
} // verus!
