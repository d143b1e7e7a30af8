//! The failures a transport reports, with the two backends' own errors folded
//! into the few cases that the session logic tells apart.
use vstd::prelude::*;

verus! {

/// A connection-level failure: the peer closed the session, or anything else.
#[derive(Debug, Clone, PartialEq)]
pub enum TransportConnectionError {
    ApplicationClosed,
    Other(String),
}

/// A failure writing a stream: it was closed or stopped, or anything else.
#[derive(Debug, Clone, PartialEq)]
pub enum TransportWriteError {
    ClosedOrStopped,
    Other(String),
}

/// A failure reading a stream.
#[derive(Debug, Clone, PartialEq)]
pub enum TransportReadError {
    NotConnected,
    /// The peer reset the stream with this application error code.
    Reset(u64),
    Other(String),
}

} // verus!
