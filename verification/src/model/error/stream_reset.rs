use crate::error::ParseError;
use vstd::prelude::*;
use vstd::std_specs::convert::{FromSpecImpl, TryFromSpecImpl};

verus! {

/// Error codes carried when resetting a request stream (or sending STOP_SENDING).
///
/// This registry deliberately disagrees with REQUEST_ERROR codes on the same names.
#[derive(Debug, Clone, Copy, PartialEq, Eq, Structural)]
pub enum StreamResetCode {
    InternalError,
    Cancelled,
    DeliveryTimeout,
    SessionClosed,
    GoingAway,
    TooFarBehind,
    UnknownObjectStatus,
    ExpiredAuthToken,
    ExcessiveLoad,
    MalformedTrack,
}

impl StreamResetCode {
    /// The codepoint of this variant.
    pub open spec fn spec_value(self) -> u64 {
        match self {
            StreamResetCode::InternalError => 0x0,
            StreamResetCode::Cancelled => 0x1,
            StreamResetCode::DeliveryTimeout => 0x2,
            StreamResetCode::SessionClosed => 0x3,
            StreamResetCode::GoingAway => 0x4,
            StreamResetCode::TooFarBehind => 0x5,
            StreamResetCode::UnknownObjectStatus => 0x6,
            StreamResetCode::ExpiredAuthToken => 0x7,
            StreamResetCode::ExcessiveLoad => 0x9,
            StreamResetCode::MalformedTrack => 0x12,
        }
    }

    /// The variant a codepoint names, if any.
    pub open spec fn spec_from_value(value: u64) -> Option<StreamResetCode> {
        if value == 0x0 {
            Some(StreamResetCode::InternalError)
        } else if value == 0x1 {
            Some(StreamResetCode::Cancelled)
        } else if value == 0x2 {
            Some(StreamResetCode::DeliveryTimeout)
        } else if value == 0x3 {
            Some(StreamResetCode::SessionClosed)
        } else if value == 0x4 {
            Some(StreamResetCode::GoingAway)
        } else if value == 0x5 {
            Some(StreamResetCode::TooFarBehind)
        } else if value == 0x6 {
            Some(StreamResetCode::UnknownObjectStatus)
        } else if value == 0x7 {
            Some(StreamResetCode::ExpiredAuthToken)
        } else if value == 0x9 {
            Some(StreamResetCode::ExcessiveLoad)
        } else if value == 0x12 {
            Some(StreamResetCode::MalformedTrack)
        } else {
            None
        }
    }

    /// Codepoints and variants correspond one to one.
    pub proof fn lemma_codepoints(self, value: u64)
        ensures
            StreamResetCode::spec_from_value(self.spec_value()) == Some(self),
            StreamResetCode::spec_from_value(value) == Some(self) ==> self.spec_value() == value,
    {
    }

    /// The codepoint of this variant.
    pub fn value(self) -> (v: u64)
        ensures
            v == self.spec_value(),
    {
        match self {
            StreamResetCode::InternalError => 0x0,
            StreamResetCode::Cancelled => 0x1,
            StreamResetCode::DeliveryTimeout => 0x2,
            StreamResetCode::SessionClosed => 0x3,
            StreamResetCode::GoingAway => 0x4,
            StreamResetCode::TooFarBehind => 0x5,
            StreamResetCode::UnknownObjectStatus => 0x6,
            StreamResetCode::ExpiredAuthToken => 0x7,
            StreamResetCode::ExcessiveLoad => 0x9,
            StreamResetCode::MalformedTrack => 0x12,
        }
    }
}

impl TryFrom<u64> for StreamResetCode {
    type Error = ParseError;

    fn try_from(value: u64) -> (r: Result<Self, Self::Error>) {
        match value {
            0x0 => Ok(StreamResetCode::InternalError),
            0x1 => Ok(StreamResetCode::Cancelled),
            0x2 => Ok(StreamResetCode::DeliveryTimeout),
            0x3 => Ok(StreamResetCode::SessionClosed),
            0x4 => Ok(StreamResetCode::GoingAway),
            0x5 => Ok(StreamResetCode::TooFarBehind),
            0x6 => Ok(StreamResetCode::UnknownObjectStatus),
            0x7 => Ok(StreamResetCode::ExpiredAuthToken),
            0x9 => Ok(StreamResetCode::ExcessiveLoad),
            0x12 => Ok(StreamResetCode::MalformedTrack),
            _ => Err(ParseError::InvalidType { context: "StreamResetCode::try_from(u64)", value: value as u64 }),
        }
    }
}

impl TryFromSpecImpl<u64> for StreamResetCode {
    open spec fn obeys_try_from_spec() -> bool {
        true
    }

    open spec fn try_from_spec(value: u64) -> Result<Self, ParseError> {
        match StreamResetCode::spec_from_value(value) {
            Some(x) => Ok(x),
            None => Err(ParseError::InvalidType { context: "StreamResetCode::try_from(u64)", value: value as u64 }),
        }
    }
}

impl From<StreamResetCode> for u64 {
    fn from(value: StreamResetCode) -> (v: u64) {
        value.value()
    }
}

impl FromSpecImpl<StreamResetCode> for u64 {
    open spec fn obeys_from_spec() -> bool {
        true
    }

    open spec fn from_spec(value: StreamResetCode) -> u64 {
        value.spec_value()
    }
}
impl StreamResetCode {
    /// The numeric code carried on the wire (QUIC application error code).
    pub fn to_u64(self) -> (v: u64)
        ensures
            v == self.spec_value(),
    {
        self.value()
    }
}

} // verus!
