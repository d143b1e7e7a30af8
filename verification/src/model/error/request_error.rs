use crate::error::ParseError;
use vstd::prelude::*;
use vstd::std_specs::convert::{FromSpecImpl, TryFromSpecImpl};

verus! {

/// Error codes carried by REQUEST_ERROR.
///
/// This is a distinct registry from stream reset codes; the two disagree on some
/// names (`GOING_AWAY` is `0x6` here but `0x4` as a stream reset code).
#[derive(Debug, Clone, Copy, PartialEq, Eq, Structural)]
pub enum RequestErrorCode {
    InternalError,
    Unauthorized,
    Timeout,
    NotSupported,
    MalformedAuthToken,
    ExpiredAuthToken,
    GoingAway,
    ExcessiveLoad,
    DoesNotExist,
    InvalidRange,
    MalformedTrack,
    DuplicateSubscription,
    Uninterested,
    PrefixOverlap,
    NamespaceTooLarge,
    InvalidJoiningRequestId,
    UnsupportedExtension,
}

impl RequestErrorCode {
    /// The codepoint of this variant.
    pub open spec fn spec_value(self) -> u64 {
        match self {
            RequestErrorCode::InternalError => 0x0,
            RequestErrorCode::Unauthorized => 0x1,
            RequestErrorCode::Timeout => 0x2,
            RequestErrorCode::NotSupported => 0x3,
            RequestErrorCode::MalformedAuthToken => 0x4,
            RequestErrorCode::ExpiredAuthToken => 0x5,
            RequestErrorCode::GoingAway => 0x6,
            RequestErrorCode::ExcessiveLoad => 0x9,
            RequestErrorCode::DoesNotExist => 0x10,
            RequestErrorCode::InvalidRange => 0x11,
            RequestErrorCode::MalformedTrack => 0x12,
            RequestErrorCode::DuplicateSubscription => 0x19,
            RequestErrorCode::Uninterested => 0x20,
            RequestErrorCode::PrefixOverlap => 0x30,
            RequestErrorCode::NamespaceTooLarge => 0x31,
            RequestErrorCode::InvalidJoiningRequestId => 0x32,
            RequestErrorCode::UnsupportedExtension => 0x33,
        }
    }

    /// The variant a codepoint names, if any.
    pub open spec fn spec_from_value(value: u64) -> Option<RequestErrorCode> {
        if value == 0x0 {
            Some(RequestErrorCode::InternalError)
        } else if value == 0x1 {
            Some(RequestErrorCode::Unauthorized)
        } else if value == 0x2 {
            Some(RequestErrorCode::Timeout)
        } else if value == 0x3 {
            Some(RequestErrorCode::NotSupported)
        } else if value == 0x4 {
            Some(RequestErrorCode::MalformedAuthToken)
        } else if value == 0x5 {
            Some(RequestErrorCode::ExpiredAuthToken)
        } else if value == 0x6 {
            Some(RequestErrorCode::GoingAway)
        } else if value == 0x9 {
            Some(RequestErrorCode::ExcessiveLoad)
        } else if value == 0x10 {
            Some(RequestErrorCode::DoesNotExist)
        } else if value == 0x11 {
            Some(RequestErrorCode::InvalidRange)
        } else if value == 0x12 {
            Some(RequestErrorCode::MalformedTrack)
        } else if value == 0x19 {
            Some(RequestErrorCode::DuplicateSubscription)
        } else if value == 0x20 {
            Some(RequestErrorCode::Uninterested)
        } else if value == 0x30 {
            Some(RequestErrorCode::PrefixOverlap)
        } else if value == 0x31 {
            Some(RequestErrorCode::NamespaceTooLarge)
        } else if value == 0x32 {
            Some(RequestErrorCode::InvalidJoiningRequestId)
        } else if value == 0x33 {
            Some(RequestErrorCode::UnsupportedExtension)
        } else {
            None
        }
    }

    /// Codepoints and variants correspond one to one.
    pub proof fn lemma_codepoints(self, value: u64)
        ensures
            RequestErrorCode::spec_from_value(self.spec_value()) == Some(self),
            RequestErrorCode::spec_from_value(value) == Some(self) ==> self.spec_value() == value,
    {
    }

    /// The codepoint of this variant.
    pub fn value(self) -> (v: u64)
        ensures
            v == self.spec_value(),
    {
        match self {
            RequestErrorCode::InternalError => 0x0,
            RequestErrorCode::Unauthorized => 0x1,
            RequestErrorCode::Timeout => 0x2,
            RequestErrorCode::NotSupported => 0x3,
            RequestErrorCode::MalformedAuthToken => 0x4,
            RequestErrorCode::ExpiredAuthToken => 0x5,
            RequestErrorCode::GoingAway => 0x6,
            RequestErrorCode::ExcessiveLoad => 0x9,
            RequestErrorCode::DoesNotExist => 0x10,
            RequestErrorCode::InvalidRange => 0x11,
            RequestErrorCode::MalformedTrack => 0x12,
            RequestErrorCode::DuplicateSubscription => 0x19,
            RequestErrorCode::Uninterested => 0x20,
            RequestErrorCode::PrefixOverlap => 0x30,
            RequestErrorCode::NamespaceTooLarge => 0x31,
            RequestErrorCode::InvalidJoiningRequestId => 0x32,
            RequestErrorCode::UnsupportedExtension => 0x33,
        }
    }
}

impl TryFrom<u64> for RequestErrorCode {
    type Error = ParseError;

    fn try_from(value: u64) -> (r: Result<Self, Self::Error>) {
        match value {
            0x0 => Ok(RequestErrorCode::InternalError),
            0x1 => Ok(RequestErrorCode::Unauthorized),
            0x2 => Ok(RequestErrorCode::Timeout),
            0x3 => Ok(RequestErrorCode::NotSupported),
            0x4 => Ok(RequestErrorCode::MalformedAuthToken),
            0x5 => Ok(RequestErrorCode::ExpiredAuthToken),
            0x6 => Ok(RequestErrorCode::GoingAway),
            0x9 => Ok(RequestErrorCode::ExcessiveLoad),
            0x10 => Ok(RequestErrorCode::DoesNotExist),
            0x11 => Ok(RequestErrorCode::InvalidRange),
            0x12 => Ok(RequestErrorCode::MalformedTrack),
            0x19 => Ok(RequestErrorCode::DuplicateSubscription),
            0x20 => Ok(RequestErrorCode::Uninterested),
            0x30 => Ok(RequestErrorCode::PrefixOverlap),
            0x31 => Ok(RequestErrorCode::NamespaceTooLarge),
            0x32 => Ok(RequestErrorCode::InvalidJoiningRequestId),
            0x33 => Ok(RequestErrorCode::UnsupportedExtension),
            _ => Err(ParseError::InvalidType { context: "RequestErrorCode::try_from(u64)", value: value as u64 }),
        }
    }
}

impl TryFromSpecImpl<u64> for RequestErrorCode {
    open spec fn obeys_try_from_spec() -> bool {
        true
    }

    open spec fn try_from_spec(value: u64) -> Result<Self, ParseError> {
        match RequestErrorCode::spec_from_value(value) {
            Some(x) => Ok(x),
            None => Err(ParseError::InvalidType { context: "RequestErrorCode::try_from(u64)", value: value as u64 }),
        }
    }
}

impl From<RequestErrorCode> for u64 {
    fn from(value: RequestErrorCode) -> (v: u64) {
        value.value()
    }
}

impl FromSpecImpl<RequestErrorCode> for u64 {
    open spec fn obeys_from_spec() -> bool {
        true
    }

    open spec fn from_spec(value: RequestErrorCode) -> u64 {
        value.spec_value()
    }
}
impl RequestErrorCode {
    /// Maps a received error code to a known variant, treating any unknown value
    /// (including GREASE) as `InternalError`. An unknown error code is never fatal.
    pub fn from_wire(value: u64) -> (c: Self)
        ensures
            c == (match RequestErrorCode::spec_from_value(value) {
                Some(x) => x,
                None => RequestErrorCode::InternalError,
            }),
    {
        match Self::try_from(value) {
            Ok(c) => c,
            Err(_) => RequestErrorCode::InternalError,
        }
    }
}

} // verus!
