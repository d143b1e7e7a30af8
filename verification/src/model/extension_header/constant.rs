use crate::error::ParseError;
use vstd::prelude::*;
use vstd::std_specs::convert::{FromSpecImpl, TryFromSpecImpl};

verus! {

/// LOC header extension identifiers.
#[derive(Debug, Clone, Copy, PartialEq, Eq, Structural)]
pub enum LOCHeaderExtensionId {
    CaptureTimestamp,
    VideoFrameMarking,
    AudioLevel,
    VideoConfig,
}

impl LOCHeaderExtensionId {
    /// The codepoint of this variant.
    pub open spec fn spec_value(self) -> u64 {
        match self {
            LOCHeaderExtensionId::CaptureTimestamp => 2,
            LOCHeaderExtensionId::VideoFrameMarking => 4,
            LOCHeaderExtensionId::AudioLevel => 6,
            LOCHeaderExtensionId::VideoConfig => 13,
        }
    }

    /// The variant a codepoint names, if any.
    pub open spec fn spec_from_value(value: u64) -> Option<LOCHeaderExtensionId> {
        if value == 2 {
            Some(LOCHeaderExtensionId::CaptureTimestamp)
        } else if value == 4 {
            Some(LOCHeaderExtensionId::VideoFrameMarking)
        } else if value == 6 {
            Some(LOCHeaderExtensionId::AudioLevel)
        } else if value == 13 {
            Some(LOCHeaderExtensionId::VideoConfig)
        } else {
            None
        }
    }

    /// Codepoints and variants correspond one to one.
    pub proof fn lemma_codepoints(self, value: u64)
        ensures
            LOCHeaderExtensionId::spec_from_value(self.spec_value()) == Some(self),
            LOCHeaderExtensionId::spec_from_value(value) == Some(self) ==> self.spec_value() == value,
    {
    }

    /// The codepoint of this variant.
    pub fn value(self) -> (v: u64)
        ensures
            v == self.spec_value(),
    {
        match self {
            LOCHeaderExtensionId::CaptureTimestamp => 2,
            LOCHeaderExtensionId::VideoFrameMarking => 4,
            LOCHeaderExtensionId::AudioLevel => 6,
            LOCHeaderExtensionId::VideoConfig => 13,
        }
    }
}

impl TryFrom<u64> for LOCHeaderExtensionId {
    type Error = ParseError;

    fn try_from(value: u64) -> (r: Result<Self, Self::Error>) {
        match value {
            2 => Ok(LOCHeaderExtensionId::CaptureTimestamp),
            4 => Ok(LOCHeaderExtensionId::VideoFrameMarking),
            6 => Ok(LOCHeaderExtensionId::AudioLevel),
            13 => Ok(LOCHeaderExtensionId::VideoConfig),
            _ => Err(ParseError::InvalidType { context: "LOCHeaderExtensionId::try_from(u64)", value: value as u64 }),
        }
    }
}

impl TryFromSpecImpl<u64> for LOCHeaderExtensionId {
    open spec fn obeys_try_from_spec() -> bool {
        true
    }

    open spec fn try_from_spec(value: u64) -> Result<Self, ParseError> {
        match LOCHeaderExtensionId::spec_from_value(value) {
            Some(x) => Ok(x),
            None => Err(ParseError::InvalidType { context: "LOCHeaderExtensionId::try_from(u64)", value: value as u64 }),
        }
    }
}

impl From<LOCHeaderExtensionId> for u64 {
    fn from(value: LOCHeaderExtensionId) -> (v: u64) {
        value.value()
    }
}

impl FromSpecImpl<LOCHeaderExtensionId> for u64 {
    open spec fn obeys_from_spec() -> bool {
        true
    }

    open spec fn from_spec(value: LOCHeaderExtensionId) -> u64 {
        value.spec_value()
    }
}
/// MOQT extension header type values.
/// Even type values use VarInt KVP encoding; odd type values use Bytes KVP encoding.
#[derive(Debug, Clone, Copy, PartialEq, Eq, Structural)]
pub enum TrackExtensionType {
    DeliveryTimeout,
    MaxCacheDuration,
    ImmutableExtensions,
    DefaultPublisherPriority,
    DefaultPublisherGroupOrder,
    DynamicGroups,
    PriorGroupIdGap,
    PriorObjectIdGap,
}

impl TrackExtensionType {
    /// The codepoint of this variant.
    pub open spec fn spec_value(self) -> u64 {
        match self {
            TrackExtensionType::DeliveryTimeout => 0x02,
            TrackExtensionType::MaxCacheDuration => 0x04,
            TrackExtensionType::ImmutableExtensions => 0x0B,
            TrackExtensionType::DefaultPublisherPriority => 0x0E,
            TrackExtensionType::DefaultPublisherGroupOrder => 0x22,
            TrackExtensionType::DynamicGroups => 0x30,
            TrackExtensionType::PriorGroupIdGap => 0x3C,
            TrackExtensionType::PriorObjectIdGap => 0x3E,
        }
    }

    /// The variant a codepoint names, if any.
    pub open spec fn spec_from_value(value: u64) -> Option<TrackExtensionType> {
        if value == 0x02 {
            Some(TrackExtensionType::DeliveryTimeout)
        } else if value == 0x04 {
            Some(TrackExtensionType::MaxCacheDuration)
        } else if value == 0x0B {
            Some(TrackExtensionType::ImmutableExtensions)
        } else if value == 0x0E {
            Some(TrackExtensionType::DefaultPublisherPriority)
        } else if value == 0x22 {
            Some(TrackExtensionType::DefaultPublisherGroupOrder)
        } else if value == 0x30 {
            Some(TrackExtensionType::DynamicGroups)
        } else if value == 0x3C {
            Some(TrackExtensionType::PriorGroupIdGap)
        } else if value == 0x3E {
            Some(TrackExtensionType::PriorObjectIdGap)
        } else {
            None
        }
    }

    /// Codepoints and variants correspond one to one.
    pub proof fn lemma_codepoints(self, value: u64)
        ensures
            TrackExtensionType::spec_from_value(self.spec_value()) == Some(self),
            TrackExtensionType::spec_from_value(value) == Some(self) ==> self.spec_value() == value,
    {
    }

    /// The codepoint of this variant.
    pub fn value(self) -> (v: u64)
        ensures
            v == self.spec_value(),
    {
        match self {
            TrackExtensionType::DeliveryTimeout => 0x02,
            TrackExtensionType::MaxCacheDuration => 0x04,
            TrackExtensionType::ImmutableExtensions => 0x0B,
            TrackExtensionType::DefaultPublisherPriority => 0x0E,
            TrackExtensionType::DefaultPublisherGroupOrder => 0x22,
            TrackExtensionType::DynamicGroups => 0x30,
            TrackExtensionType::PriorGroupIdGap => 0x3C,
            TrackExtensionType::PriorObjectIdGap => 0x3E,
        }
    }
}

impl TryFrom<u64> for TrackExtensionType {
    type Error = ParseError;

    fn try_from(value: u64) -> (r: Result<Self, Self::Error>) {
        match value {
            0x02 => Ok(TrackExtensionType::DeliveryTimeout),
            0x04 => Ok(TrackExtensionType::MaxCacheDuration),
            0x0B => Ok(TrackExtensionType::ImmutableExtensions),
            0x0E => Ok(TrackExtensionType::DefaultPublisherPriority),
            0x22 => Ok(TrackExtensionType::DefaultPublisherGroupOrder),
            0x30 => Ok(TrackExtensionType::DynamicGroups),
            0x3C => Ok(TrackExtensionType::PriorGroupIdGap),
            0x3E => Ok(TrackExtensionType::PriorObjectIdGap),
            _ => Err(ParseError::InvalidType { context: "TrackExtensionType::try_from(u64)", value: value as u64 }),
        }
    }
}

impl TryFromSpecImpl<u64> for TrackExtensionType {
    open spec fn obeys_try_from_spec() -> bool {
        true
    }

    open spec fn try_from_spec(value: u64) -> Result<Self, ParseError> {
        match TrackExtensionType::spec_from_value(value) {
            Some(x) => Ok(x),
            None => Err(ParseError::InvalidType { context: "TrackExtensionType::try_from(u64)", value: value as u64 }),
        }
    }
}

impl From<TrackExtensionType> for u64 {
    fn from(value: TrackExtensionType) -> (v: u64) {
        value.value()
    }
}

impl FromSpecImpl<TrackExtensionType> for u64 {
    open spec fn obeys_from_spec() -> bool {
        true
    }

    open spec fn from_spec(value: TrackExtensionType) -> u64 {
        value.spec_value()
    }
}
} // verus!
