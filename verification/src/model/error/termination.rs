//! Why a session is closed.
use vstd::prelude::*;

verus! {

/// The reasons a session is terminated with.
#[derive(Debug, Clone, Copy, PartialEq, Eq, Structural)]
pub enum TerminationCode {
    NoError,
    InternalError,
    Unauthorized,
    ProtocolViolation,
    InvalidRequestID,
    DuplicateTrackAlias,
    KeyValueFormattingError,
    TooManyRequests,
    InvalidPath,
    MalformedPath,
    GoawayTimeout,
    ControlMessageTimeout,
    DataStreamTimeout,
    AuthTokenCacheOverflow,
    DuplicateAuthTokenAlias,
    VersionNegotiationFailed,
    MalformedAuthToken,
    UnknownAuthTokenAlias,
    ExpiredAuthToken,
    InvalidAuthority,
    MalformedAuthority,
}

} // verus!
