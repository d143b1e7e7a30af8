use vstd::prelude::*;

verus! {

/// Kinds of decoding and encoding failure, as seen by specifications.
pub enum ErrorKind {
    NotEnoughBytes,
    InvalidType,
    ProtocolViolation,
    CastingError,
    KeyValueFormattingError,
    LengthExceedsMax,
    InvalidUTF8,
    TrackNameError,
    Other,
}

/// Errors raised while encoding or decoding wire messages.
#[derive(Debug, Clone, PartialEq)]
pub enum ParseError {
    NotEnoughBytes { context: &'static str, needed: usize, available: usize },
    InvalidType { context: &'static str, value: u64 },
    ProtocolViolation { context: &'static str },
    CastingError { context: &'static str, from_type: &'static str, to_type: &'static str },
    KeyValueFormattingError { context: &'static str },
    LengthExceedsMax { context: &'static str, max: usize, len: usize },
    InvalidUTF8 { context: &'static str },
    TrackNameError { context: &'static str },
    Other { context: &'static str },
}

impl ParseError {
    pub open spec fn kind(self) -> ErrorKind {
        match self {
            ParseError::NotEnoughBytes { .. } => ErrorKind::NotEnoughBytes,
            ParseError::InvalidType { .. } => ErrorKind::InvalidType,
            ParseError::ProtocolViolation { .. } => ErrorKind::ProtocolViolation,
            ParseError::CastingError { .. } => ErrorKind::CastingError,
            ParseError::KeyValueFormattingError { .. } => ErrorKind::KeyValueFormattingError,
            ParseError::LengthExceedsMax { .. } => ErrorKind::LengthExceedsMax,
            ParseError::InvalidUTF8 { .. } => ErrorKind::InvalidUTF8,
            ParseError::TrackNameError { .. } => ErrorKind::TrackNameError,
            ParseError::Other { .. } => ErrorKind::Other,
        }
    }
}

} // verus!
