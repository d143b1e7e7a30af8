//! SWITCH: move a subscription over to another track.
use crate::buf::{bytes_len, bytes_view};
use crate::error::{ErrorKind, ParseError};
use crate::model::common::pair::{
    all_wf, kvps_view, lemma_kvp_roundtrip, spec_deserialize_delta, KeyValuePair, KvpView,
};
use crate::model::common::tuple::{
    deserialize_field, fields_fit, lemma_field_roundtrip, lemma_tuple_roundtrip, spec_deserialize_field,
    spec_deserialize_tuple, spec_field_bytes, spec_serialize_tuple, Tuple, TupleField,
};
use crate::model::common::varint::{lemma_vi_encode_len, lemma_vi_roundtrip, push_vi, spec_get_vi, spec_vi_encode, BufVarIntExt};
use crate::model::control::constant::ControlMessageType;
use crate::model::control::control_message::{frame, spec_frame, ControlMessageTrait};
use crate::model::data::full_track_name::FullTrackName;
use crate::model::extension_header::immutable::{lemma_kvp_bytes_is_delta_from_zero, push_concat_kvps, spec_concat_kvps};
use bytes::Bytes;
use vstd::prelude::*;

verus! {

/// SWITCH moves the subscription with `subscription_request_id` over to the
/// named track.
#[derive(Debug, PartialEq, Clone)]
pub struct Switch {
    pub request_id: u64,
    pub track_namespace: Tuple,
    pub track_name: TupleField,
    pub subscription_request_id: u64,
    pub subscribe_parameters: Vec<KeyValuePair>,
}

/// What a SWITCH holds.
pub struct SwitchView {
    pub request_id: u64,
    pub track_namespace: Seq<Seq<u8>>,
    pub track_name: Seq<u8>,
    pub subscription_request_id: u64,
    pub subscribe_parameters: Seq<KvpView>,
}

impl View for Switch {
    type V = SwitchView;

    open spec fn view(&self) -> SwitchView {
        SwitchView {
            request_id: self.request_id,
            track_namespace: self.track_namespace@,
            track_name: self.track_name@,
            subscription_request_id: self.subscription_request_id,
            subscribe_parameters: kvps_view(self.subscribe_parameters@),
        }
    }
}

/// Reading `n` pairs, each with its type written whole.
pub open spec fn spec_read_whole_pairs(s: Seq<u8>, n: nat) -> Result<(Seq<KvpView>, Seq<u8>), ErrorKind>
    decreases n,
{
    if n == 0 {
        Ok((Seq::empty(), s))
    } else {
        match spec_deserialize_delta(s, 0) {
            Err(e) => Err(e),
            Ok((k, r)) => match spec_read_whole_pairs(r, (n - 1) as nat) {
                Err(e) => Err(e),
                Ok((ks, r2)) => Ok((seq![k] + ks, r2)),
            },
        }
    }
}

/// The payload: request ID, namespace, name, the subscription's request ID,
/// then the count of parameters and the parameters, each pair with its type
/// written whole.
pub open spec fn spec_switch_payload(m: SwitchView) -> Seq<u8> {
    spec_vi_encode(m.request_id) + spec_serialize_tuple(m.track_namespace) + spec_field_bytes(m.track_name)
        + spec_vi_encode(m.subscription_request_id) + spec_vi_encode(m.subscribe_parameters.len() as u64)
        + spec_concat_kvps(m.subscribe_parameters)
}

/// Reading the parameters: their count, then that many pairs.
pub open spec fn spec_read_switch_params(s: Seq<u8>) -> Result<(Seq<KvpView>, Seq<u8>), ErrorKind> {
    match spec_get_vi(s) {
        Err(e) => Err(e),
        Ok((n, r)) => if n > usize::MAX {
            Err(ErrorKind::CastingError)
        } else {
            spec_read_whole_pairs(r, n as nat)
        },
    }
}

/// Reading the payload.
pub open spec fn spec_parse_switch(s: Seq<u8>) -> Result<(SwitchView, Seq<u8>), ErrorKind> {
    match spec_get_vi(s) {
        Err(e) => Err(e),
        Ok((request_id, s1)) => match spec_deserialize_tuple(s1) {
            Err(e) => Err(e),
            Ok((ns, s2)) => match spec_deserialize_field(s2) {
                Err(e) => Err(e),
                Ok((name, s3)) => if s3.len() < 1 {
                    Err(ErrorKind::NotEnoughBytes)
                } else {
                    match spec_get_vi(s3) {
                        Err(e) => Err(e),
                        Ok((sub, s4)) => match spec_read_switch_params(s4) {
                            Err(e) => Err(e),
                            Ok((ps, s5)) => Ok(
                                (
                                    SwitchView {
                                        request_id,
                                        track_namespace: ns,
                                        track_name: name,
                                        subscription_request_id: sub,
                                        subscribe_parameters: ps,
                                    },
                                    s5,
                                ),
                            ),
                        },
                    }
                },
            },
        },
    }
}

#[allow(clippy::too_many_arguments)]
impl Switch {
    pub fn new(
        request_id: u64,
        track_namespace: Tuple,
        track_name: TupleField,
        subscription_request_id: u64,
        subscribe_parameters: Vec<KeyValuePair>,
    ) -> (m: Self)
        ensures
            m.request_id == request_id,
            m.track_namespace == track_namespace,
            m.track_name == track_name,
            m.subscription_request_id == subscription_request_id,
            m.subscribe_parameters == subscribe_parameters,
    {
        Self { request_id, track_namespace, track_name, subscription_request_id, subscribe_parameters }
    }

    /// The namespace and name of the track switched to.
    pub fn get_full_track_name(&self) -> (f: FullTrackName)
        ensures
            f@ == (self.track_namespace@, self.track_name@),
    {
        FullTrackName { namespace: self.track_namespace.duplicate(), name: self.track_name.duplicate() }
    }
}

/// Reads a parameter count, then that many pairs.
fn read_switch_params(bytes: &mut Bytes) -> (r: Result<Vec<KeyValuePair>, ParseError>)
    ensures
        match r {
            Ok(v) => spec_read_switch_params(bytes_view(*old(bytes))) == Ok::<(Seq<KvpView>, Seq<u8>), ErrorKind>(
                (kvps_view(v@), bytes_view(*final(bytes))),
            ),
            Err(e) => spec_read_switch_params(bytes_view(*old(bytes))) == Err::<
                (Seq<KvpView>, Seq<u8>),
                ErrorKind,
            >(e.kind()),
        },
{
    let count = bytes.get_vi()?;
    if count > usize::MAX as u64 {
        return Err(
            ParseError::CastingError { context: "Switch::parse_payload(param_count)", from_type: "u64", to_type: "usize" },
        );
    }
    let n = count as usize;
    let ghost start = bytes_view(*bytes);
    let mut items: Vec<KeyValuePair> = Vec::new();
    let mut i: usize = 0;
    while i < n
        invariant
            i <= n,
            n == count,
            spec_read_switch_params(bytes_view(*old(bytes))) == spec_read_whole_pairs(start, n as nat),
            spec_read_whole_pairs(start, n as nat) == (match spec_read_whole_pairs(
                bytes_view(*bytes),
                (n - i) as nat,
            ) {
                Ok((ks, rest)) => Ok::<(Seq<KvpView>, Seq<u8>), ErrorKind>((kvps_view(items@) + ks, rest)),
                Err(e) => Err(e),
            }),
        decreases n - i,
    {
        let kvp = KeyValuePair::deserialize(bytes)?;
        let ghost before = kvps_view(items@);
        items.push(kvp);
        proof {
            assert(kvps_view(items@) =~= before.push(kvp@));
            assert forall|ks: Seq<KvpView>| #[trigger] (before + (seq![kvp@] + ks)) =~= kvps_view(items@) + ks by {}
        }
        i = i + 1;
    }
    proof {
        assert(kvps_view(items@) + Seq::<KvpView>::empty() =~= kvps_view(items@));
    }
    Ok(items)
}

impl ControlMessageTrait for Switch {
    fn serialize(&self) -> (r: Result<Bytes, ParseError>)
        ensures
            match r {
                Ok(b) => spec_frame(ControlMessageType::Switch, spec_switch_payload(self@)) == Ok::<Seq<u8>, ErrorKind>(
                    bytes_view(b),
                ),
                Err(e) => spec_frame(ControlMessageType::Switch, spec_switch_payload(self@)) == Err::<
                    Seq<u8>,
                    ErrorKind,
                >(e.kind()),
            },
    {
        let mut payload: Vec<u8> = Vec::new();
        push_vi(&mut payload, self.request_id);
        self.track_namespace.push_serialized(&mut payload);
        self.track_name.push_serialized(&mut payload);
        push_vi(&mut payload, self.subscription_request_id);
        push_vi(&mut payload, self.subscribe_parameters.len() as u64);
        push_concat_kvps(&mut payload, self.subscribe_parameters.as_slice());
        proof {
            assert(payload@ =~= spec_switch_payload(self@));
        }
        frame(ControlMessageType::Switch, payload.as_slice(), "Switch::serialize")
    }

    fn parse_payload(payload: &mut Bytes) -> (r: Result<Box<Self>, ParseError>)
        ensures
            match r {
                Ok(m) => spec_parse_switch(bytes_view(*old(payload))) == Ok::<(SwitchView, Seq<u8>), ErrorKind>(
                    (m@, bytes_view(*final(payload))),
                ),
                Err(e) => spec_parse_switch(bytes_view(*old(payload))) == Err::<(SwitchView, Seq<u8>), ErrorKind>(
                    e.kind(),
                ),
            },
    {
        let request_id = payload.get_vi()?;
        let track_namespace = Tuple::deserialize(payload)?;
        let track_name = deserialize_field(payload)?;
        if bytes_len(payload) < 1 {
            return Err(
                ParseError::NotEnoughBytes {
                    context: "Switch::parse_payload(subscription_request_id)",
                    needed: 1,
                    available: 0,
                },
            );
        }
        let subscription_request_id = payload.get_vi()?;
        let subscribe_parameters = read_switch_params(payload)?;
        Ok(
            Box::new(
                Switch { request_id, track_namespace, track_name, subscription_request_id, subscribe_parameters },
            ),
        )
    }

    fn get_type(&self) -> (t: ControlMessageType)
        ensures
            t == ControlMessageType::Switch,
    {
        ControlMessageType::Switch
    }
}

/// Well-formed pairs, each written with its type whole, are read back as
/// many, leaving what follows.
proof fn lemma_whole_pairs_roundtrip(ks: Seq<KvpView>, rest: Seq<u8>)
    requires
        all_wf(ks),
    ensures
        spec_read_whole_pairs(spec_concat_kvps(ks) + rest, ks.len()) == Ok::<(Seq<KvpView>, Seq<u8>), ErrorKind>(
            (ks, rest),
        ),
    decreases ks.len(),
{
    if ks.len() == 0 {
        assert(ks =~= Seq::<KvpView>::empty());
        assert(spec_concat_kvps(ks) + rest =~= rest);
    } else {
        let t = ks.skip(1);
        assert forall|i: int| 0 <= i < t.len() implies #[trigger] t[i].wf() by {
            assert(t[i] == ks[i + 1]);
        }
        lemma_whole_pairs_roundtrip(t, rest);
        assert(ks[0].wf());
        let tail = spec_concat_kvps(t) + rest;
        lemma_kvp_roundtrip(ks[0], 0, tail);
        lemma_kvp_bytes_is_delta_from_zero(ks[0]);
        assert(spec_concat_kvps(ks) + rest =~= crate::model::extension_header::immutable::spec_kvp_bytes(ks[0]) + tail);
        assert(seq![ks[0]] + t =~= ks);
        assert((ks.len() - 1) as nat == t.len());
    }
}

/// A SWITCH with well-formed parameters reads back from its payload, leaving
/// what follows.
pub proof fn lemma_switch_roundtrip(m: SwitchView, rest: Seq<u8>)
    requires
        fields_fit(m.track_namespace),
        m.track_namespace.len() <= u64::MAX,
        m.track_name.len() <= usize::MAX,
        all_wf(m.subscribe_parameters),
        m.subscribe_parameters.len() <= usize::MAX,
    ensures
        spec_parse_switch(spec_switch_payload(m) + rest) == Ok::<(SwitchView, Seq<u8>), ErrorKind>((m, rest)),
{
    let ps = m.subscribe_parameters;
    lemma_whole_pairs_roundtrip(ps, rest);
    let s5 = spec_concat_kvps(ps) + rest;
    let s4 = spec_vi_encode(ps.len() as u64) + s5;
    let s3 = spec_vi_encode(m.subscription_request_id) + s4;
    let s2 = spec_field_bytes(m.track_name) + s3;
    let s1 = spec_serialize_tuple(m.track_namespace) + s2;
    lemma_vi_roundtrip(ps.len() as u64, s5);
    lemma_vi_roundtrip(m.subscription_request_id, s4);
    lemma_vi_encode_len(m.subscription_request_id);
    lemma_field_roundtrip(m.track_name, s3);
    lemma_tuple_roundtrip(m.track_namespace, s2);
    lemma_vi_roundtrip(m.request_id, s1);
    assert(spec_switch_payload(m) + rest =~= spec_vi_encode(m.request_id) + s1);
}

} // verus!
