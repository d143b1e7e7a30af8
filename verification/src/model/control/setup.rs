//! SETUP: the first message each endpoint sends on its control stream.
use crate::buf::bytes_view;
use crate::error::{ErrorKind, ParseError};
use crate::model::common::pair::{
    all_wf, deserialize_kvp_list_until_empty, kvps_view, lemma_kvp_list_roundtrip,
    lemma_sort_ascending_is_identity, serialize_kvp_list, sort_by_type, spec_deserialize_kvps_until_empty,
    spec_serialize_kvps, types_ascending, KeyValuePair, KvpView,
};
use crate::model::control::constant::ControlMessageType;
use crate::model::control::control_message::{frame, spec_frame, ControlMessageTrait};
use crate::model::error::termination::TerminationCode;
use crate::model::parameter::constant::SetupOptionType;
use crate::transport::kind::TransportKind;
use bytes::Bytes;
use vstd::prelude::*;

verus! {

/// The first message each endpoint sends on its control stream.
///
/// Both peers send the same message; there are no separate client and server forms and
/// no version fields, since version negotiation happens over ALPN.
///
/// Some options are client-only. Whether a peer is allowed to send a given option
/// depends on which side it is and on the transport, neither of which is knowable
/// here, so those rules are enforced by the session rather than by parsing.
#[derive(Debug, Clone, PartialEq)]
pub struct Setup {
    pub setup_options: Vec<KeyValuePair>,
}

/// Which side sent a SETUP. Some options are client-only, so validating one depends on
/// knowing who sent it.
#[derive(Debug, Clone, Copy, PartialEq, Eq, Structural)]
pub enum SetupSender {
    Client,
    Server,
}

/// The payload: the options, sorted by type and delta-encoded, spanning the
/// whole payload with no count.
pub open spec fn spec_setup_payload(options: Seq<KvpView>) -> Seq<u8> {
    spec_serialize_kvps(sort_by_type(options), 0)->Ok_0
}

/// Reading the payload: options until the bytes run out.
pub open spec fn spec_parse_setup(s: Seq<u8>) -> Result<Seq<KvpView>, ErrorKind> {
    spec_deserialize_kvps_until_empty(s, 0)
}

/// The session-closing code an option earns when a peer may not send it:
/// AUTHORITY and PATH are client-only and native-QUIC-only.
pub open spec fn spec_restricted_option(t: u64) -> Option<TerminationCode> {
    if t == SetupOptionType::Authority.spec_value() {
        Some(TerminationCode::InvalidAuthority)
    } else if t == SetupOptionType::Path.spec_value() {
        Some(TerminationCode::InvalidPath)
    } else {
        None
    }
}

/// The code of the first restricted option among `ks`, if any.
pub open spec fn spec_first_restricted(ks: Seq<KvpView>) -> Option<TerminationCode>
    decreases ks.len(),
{
    if ks.len() == 0 {
        None
    } else {
        match spec_restricted_option(ks[0].type_of()) {
            Some(c) => Some(c),
            None => spec_first_restricted(ks.skip(1)),
        }
    }
}

impl Setup {
    pub fn new(setup_options: Vec<KeyValuePair>) -> (s: Self)
        ensures
            s.setup_options == setup_options,
    {
        Setup { setup_options }
    }

    /// Checks the options a peer is allowed to send.
    ///
    /// AUTHORITY and PATH carry the authority and path of the MoQ URI for native QUIC,
    /// where there is no HTTP CONNECT to carry them. Both MUST NOT be sent by a server,
    /// and MUST NOT be used over WebTransport, which carries them itself. Either
    /// violation closes the session: `INVALID_AUTHORITY` for AUTHORITY, `INVALID_PATH`
    /// for PATH. Unknown options are ignored rather than rejected.
    pub fn validate_incoming(&self, sender: SetupSender, transport: TransportKind) -> (r: Result<
        (),
        TerminationCode,
    >)
        ensures
            r == (if sender == SetupSender::Server || transport == TransportKind::WebTransport {
                match spec_first_restricted(kvps_view(self.setup_options@)) {
                    Some(c) => Err::<(), TerminationCode>(c),
                    None => Ok(()),
                }
            } else {
                Ok(())
            }),
    {
        let ghost ks = kvps_view(self.setup_options@);
        let restricted = sender == SetupSender::Server || transport == TransportKind::WebTransport;
        let mut i: usize = 0;
        proof {
            assert(ks.skip(0) =~= ks);
        }
        while i < self.setup_options.len()
            invariant
                i <= self.setup_options@.len(),
                ks == kvps_view(self.setup_options@),
                restricted == (sender == SetupSender::Server || transport == TransportKind::WebTransport),
                restricted ==> spec_first_restricted(ks) == spec_first_restricted(ks.skip(i as int)),
            decreases self.setup_options.len() - i,
        {
            proof {
                assert(ks.skip(i as int)[0] == ks[i as int]);
                assert(ks.skip(i as int).skip(1) =~= ks.skip(i + 1));
            }
            let t = self.setup_options[i].get_type();
            let code = if t == SetupOptionType::Authority.value() {
                Some(TerminationCode::InvalidAuthority)
            } else if t == SetupOptionType::Path.value() {
                Some(TerminationCode::InvalidPath)
            } else {
                None
            };
            match code {
                Some(c) => {
                    if restricted {
                        return Err(c);
                    }
                },
                None => {},
            }
            i = i + 1;
        }
        proof {
            assert(ks.skip(i as int).len() == 0);
        }
        Ok(())
    }
}

impl ControlMessageTrait for Setup {
    fn serialize(&self) -> (r: Result<Bytes, ParseError>)
        ensures
            match r {
                Ok(b) => spec_frame(ControlMessageType::Setup, spec_setup_payload(kvps_view(self.setup_options@)))
                    == Ok::<Seq<u8>, ErrorKind>(bytes_view(b)),
                Err(e) => spec_frame(ControlMessageType::Setup, spec_setup_payload(kvps_view(self.setup_options@)))
                    == Err::<Seq<u8>, ErrorKind>(e.kind()),
            },
    {
        let payload = serialize_kvp_list(self.setup_options.as_slice())?;
        frame(ControlMessageType::Setup, crate::buf::bytes_as_slice(&payload), "Setup::serialize(payload_length)")
    }

    fn parse_payload(payload: &mut Bytes) -> (r: Result<Box<Self>, ParseError>)
        ensures
            match r {
                Ok(s) => spec_parse_setup(bytes_view(*old(payload))) == Ok::<Seq<KvpView>, ErrorKind>(
                    kvps_view(s.setup_options@),
                ) && bytes_view(*final(payload)).len() == 0,
                Err(e) => spec_parse_setup(bytes_view(*old(payload))) == Err::<Seq<KvpView>, ErrorKind>(e.kind()),
            },
    {
        let setup_options = deserialize_kvp_list_until_empty(payload)?;
        Ok(Box::new(Setup { setup_options }))
    }

    fn get_type(&self) -> (t: ControlMessageType)
        ensures
            t == ControlMessageType::Setup,
    {
        ControlMessageType::Setup
    }
}

/// Well-formed options read back from a SETUP payload sorted by type; in
/// particular, options already in ascending type order read back unchanged.
pub proof fn lemma_setup_roundtrip(options: Seq<KvpView>)
    requires
        all_wf(options),
    ensures
        spec_parse_setup(spec_setup_payload(options)) == Ok::<Seq<KvpView>, ErrorKind>(sort_by_type(options)),
        types_ascending(options) ==> spec_parse_setup(spec_setup_payload(options)) == Ok::<
            Seq<KvpView>,
            ErrorKind,
        >(options),
{
    lemma_kvp_list_roundtrip(options, Seq::empty());
    if types_ascending(options) {
        lemma_sort_ascending_is_identity(options);
    }
}

} // verus!
