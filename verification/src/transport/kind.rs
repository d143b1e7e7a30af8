//! Which of the two QUIC-based transports a session runs over.
use vstd::prelude::*;

verus! {

#[derive(Debug, Clone, Copy, PartialEq, Eq, Structural)]
pub enum TransportKind {
    WebTransport,
    Quic,
}

impl TransportKind {
    /// The transport's name as it is displayed.
    pub fn name(&self) -> (s: &'static str)
        ensures
            s@ == match self {
                TransportKind::WebTransport => "webtransport"@,
                TransportKind::Quic => "quic"@,
            },
    {
        match self {
            TransportKind::WebTransport => "webtransport",
            TransportKind::Quic => "quic",
        }
    }
}

} // verus!
