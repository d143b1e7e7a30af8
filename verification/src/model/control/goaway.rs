//! GOAWAY: the sender is closing the session and may name where to go next.
use crate::buf::{bytes_len, bytes_view};
use crate::error::{ErrorKind, ParseError};
use crate::model::common::text::{
    lemma_opt_text_roundtrip, nonempty_text, push_opt_text, read_opt_text, spec_nonempty_text,
    spec_opt_text_bytes, spec_read_opt_text,
};
use crate::model::common::varint::{
    lemma_vi_encode_len, lemma_vi_roundtrip, push_vi, spec_get_vi, spec_vi_encode, BufVarIntExt,
};
use crate::model::control::constant::ControlMessageType;
use crate::model::control::control_message::{
    frame, lemma_frame_roundtrip, spec_frame, spec_read_frame, ControlMessageTrait,
};
use bytes::Bytes;
use vstd::prelude::*;
use vstd::utf8::encode_utf8;

verus! {

/// The New Session URI is bounded at 8,192 bytes; a longer one is a protocol
/// violation.
pub const MAX_NEW_SESSION_URI_LEN: usize = 8192;

#[derive(Debug, PartialEq, Clone)]
pub struct GoAway {
    /// Empty means the current URI is reused.
    pub new_session_uri: Option<String>,
    /// Milliseconds the sender waits for graceful closure (0 = no specific timeout).
    pub timeout: u64,
    /// The smallest peer Request ID not necessarily processed. Present only when
    /// the GOAWAY is sent on the control stream.
    pub request_id: Option<u64>,
}

/// What a GOAWAY holds, with its URI as characters.
pub struct GoAwayView {
    pub new_session_uri: Option<Seq<char>>,
    pub timeout: u64,
    pub request_id: Option<u64>,
}

impl View for GoAway {
    type V = GoAwayView;

    open spec fn view(&self) -> GoAwayView {
        GoAwayView {
            new_session_uri: match self.new_session_uri {
                Some(u) => Some(u@),
                None => None,
            },
            timeout: self.timeout,
            request_id: self.request_id,
        }
    }
}

/// The payload of a GOAWAY: the URI, the timeout, then the request ID if any.
pub open spec fn spec_goaway_payload(g: GoAwayView) -> Seq<u8> {
    spec_opt_text_bytes(g.new_session_uri) + spec_vi_encode(g.timeout) + (match g.request_id {
        Some(r) => spec_vi_encode(r),
        None => Seq::empty(),
    })
}

/// Reading a GOAWAY payload: the request ID is there exactly when bytes are
/// left after the timeout.
pub open spec fn spec_parse_goaway(s: Seq<u8>) -> Result<(GoAwayView, Seq<u8>), ErrorKind> {
    match spec_read_opt_text(s, MAX_NEW_SESSION_URI_LEN as nat) {
        Err(e) => Err(e),
        Ok((uri, s1)) => match spec_get_vi(s1) {
            Err(e) => Err(e),
            Ok((timeout, s2)) => if s2.len() == 0 {
                Ok((GoAwayView { new_session_uri: uri, timeout, request_id: None }, s2))
            } else {
                match spec_get_vi(s2) {
                    Err(e) => Err(e),
                    Ok((r, s3)) => Ok((GoAwayView { new_session_uri: uri, timeout, request_id: Some(r) }, s3)),
                }
            },
        },
    }
}

impl GoAway {
    /// An empty URI is kept as none: the current one is reused.
    pub fn new(new_session_uri: Option<String>, timeout: u64, request_id: Option<u64>) -> (g: Self)
        ensures
            g@ == (GoAwayView {
                new_session_uri: spec_nonempty_text(match new_session_uri {
                    Some(u) => Some(u@),
                    None => None,
                }),
                timeout,
                request_id,
            }),
    {
        let new_session_uri = nonempty_text(new_session_uri);
        GoAway { new_session_uri, timeout, request_id }
    }
}

impl ControlMessageTrait for GoAway {
    /// The framed message; fails only when the payload exceeds the frame limit.
    fn serialize(&self) -> (r: Result<Bytes, ParseError>)
        ensures
            match r {
                Ok(b) => spec_frame(ControlMessageType::GoAway, spec_goaway_payload(self@)) == Ok::<
                    Seq<u8>,
                    ErrorKind,
                >(bytes_view(b)),
                Err(e) => spec_frame(ControlMessageType::GoAway, spec_goaway_payload(self@)) == Err::<
                    Seq<u8>,
                    ErrorKind,
                >(e.kind()),
            },
    {
        let mut payload: Vec<u8> = Vec::new();
        push_opt_text(&mut payload, &self.new_session_uri);
        push_vi(&mut payload, self.timeout);
        match self.request_id {
            Some(r) => push_vi(&mut payload, r),
            None => {},
        }
        proof {
            assert(payload@ =~= spec_goaway_payload(self@));
        }
        frame(ControlMessageType::GoAway, payload.as_slice(), "GoAway::serialize(payload_length)")
    }

    fn parse_payload(payload: &mut Bytes) -> (r: Result<Box<Self>, ParseError>)
        ensures
            match r {
                Ok(g) => spec_parse_goaway(bytes_view(*old(payload))) == Ok::<(GoAwayView, Seq<u8>), ErrorKind>(
                    (g@, bytes_view(*final(payload))),
                ),
                Err(e) => spec_parse_goaway(bytes_view(*old(payload))) == Err::<(GoAwayView, Seq<u8>), ErrorKind>(
                    e.kind(),
                ),
            },
    {
        let new_session_uri = read_opt_text(payload, MAX_NEW_SESSION_URI_LEN, "GoAway::parse_payload(new_session_uri)")?;
        let timeout = payload.get_vi()?;
        let request_id = if bytes_len(payload) > 0 {
            Some(payload.get_vi()?)
        } else {
            None
        };
        Ok(Box::new(GoAway { new_session_uri, timeout, request_id }))
    }

    fn get_type(&self) -> (t: ControlMessageType)
        ensures
            t == ControlMessageType::GoAway,
    {
        ControlMessageType::GoAway
    }
}

/// A GOAWAY whose URI, if any, is non-empty and within the limit reads back
/// from its payload whole.
pub proof fn lemma_goaway_roundtrip(g: GoAwayView)
    requires
        g.new_session_uri matches Some(c) ==> c.len() > 0 && encode_utf8(c).len() <= MAX_NEW_SESSION_URI_LEN,
    ensures
        spec_parse_goaway(spec_goaway_payload(g)) == Ok::<(GoAwayView, Seq<u8>), ErrorKind>((g, Seq::empty())),
{
    let tail = match g.request_id {
        Some(r) => spec_vi_encode(r),
        None => Seq::<u8>::empty(),
    };
    let after_uri = spec_vi_encode(g.timeout) + tail;
    lemma_opt_text_roundtrip(g.new_session_uri, MAX_NEW_SESSION_URI_LEN as nat, after_uri);
    assert(spec_goaway_payload(g) =~= spec_opt_text_bytes(g.new_session_uri) + after_uri);
    lemma_vi_roundtrip(g.timeout, tail);
    match g.request_id {
        Some(r) => {
            lemma_vi_roundtrip(r, Seq::empty());
            assert(spec_vi_encode(r) + Seq::<u8>::empty() =~= spec_vi_encode(r));
        },
        None => {},
    }
}

/// A GOAWAY whose URI, if any, is non-empty and within the limit is framed,
/// and the framed message reads back as a GOAWAY frame whose payload reads
/// back as that GOAWAY, with nothing left over.
pub proof fn lemma_goaway_frame_roundtrip(g: GoAwayView)
    requires
        g.new_session_uri matches Some(c) ==> c.len() > 0 && encode_utf8(c).len() <= MAX_NEW_SESSION_URI_LEN,
    ensures
        spec_frame(ControlMessageType::GoAway, spec_goaway_payload(g)) is Ok,
        spec_read_frame(spec_frame(ControlMessageType::GoAway, spec_goaway_payload(g))->Ok_0) == Ok::<
            (u64, Seq<u8>, Seq<u8>),
            ErrorKind,
        >((ControlMessageType::GoAway.spec_value(), spec_goaway_payload(g), Seq::empty())),
        spec_parse_goaway(spec_goaway_payload(g)) == Ok::<(GoAwayView, Seq<u8>), ErrorKind>(
            (g, Seq::empty()),
        ),
{
    lemma_vi_encode_len(g.timeout);
    match g.new_session_uri {
        Some(c) => lemma_vi_encode_len(encode_utf8(c).len() as u64),
        None => lemma_vi_encode_len(0),
    }
    match g.request_id {
        Some(r) => lemma_vi_encode_len(r),
        None => {},
    }
    lemma_goaway_roundtrip(g);
    let framed = spec_frame(ControlMessageType::GoAway, spec_goaway_payload(g))->Ok_0;
    lemma_frame_roundtrip(ControlMessageType::GoAway, spec_goaway_payload(g), Seq::empty());
    assert(framed + Seq::<u8>::empty() =~= framed);
}

} // verus!
