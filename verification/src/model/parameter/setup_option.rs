//! Setup Options: the options a SETUP message carries, each as a pair.
use crate::buf::bytes_view;
use crate::error::{ErrorKind, ParseError};
use crate::model::common::pair::{
    lemma_kvp_roundtrip, spec_deserialize_delta, spec_serialize_delta, KeyValuePair, KvpView, MAX_VALUE_LENGTH,
};
use crate::model::common::text::{utf8_bytes, utf8_string};
use crate::model::extension_header::immutable::{lemma_kvp_bytes_is_delta_from_zero, spec_kvp_bytes};
use crate::model::parameter::authorization_token::{
    auth_token_wf, lemma_auth_token_roundtrip, spec_deserialize_auth_token, spec_serialize_auth_token,
    AuthTokenView, AuthorizationToken,
};
use crate::model::parameter::constant::SetupOptionType;
use bytes::Bytes;
use vstd::prelude::*;
use vstd::utf8::{decode_utf8, encode_utf8, valid_utf8};

verus! {

broadcast use {vstd::utf8::encode_utf8_decode_utf8, vstd::utf8::encode_utf8_valid_utf8};

#[derive(Debug, Clone, PartialEq, Eq)]
pub enum SetupOption {
    Path { moqt_path: String },
    AuthorizationToken { token: AuthorizationToken },
    MaxAuthTokenCacheSize { max_size: u64 },
    Authority { authority: String },
    MoqtImplementation { info: String },
}

/// What a setup option holds.
pub enum SetupOptionView {
    Path(Seq<char>),
    AuthorizationToken(AuthTokenView),
    MaxAuthTokenCacheSize(u64),
    Authority(Seq<char>),
    MoqtImplementation(Seq<char>),
}

impl View for SetupOption {
    type V = SetupOptionView;

    open spec fn view(&self) -> SetupOptionView {
        match self {
            SetupOption::Path { moqt_path } => SetupOptionView::Path(moqt_path@),
            SetupOption::AuthorizationToken { token } => SetupOptionView::AuthorizationToken(token@),
            SetupOption::MaxAuthTokenCacheSize { max_size } => SetupOptionView::MaxAuthTokenCacheSize(*max_size),
            SetupOption::Authority { authority } => SetupOptionView::Authority(authority@),
            SetupOption::MoqtImplementation { info } => SetupOptionView::MoqtImplementation(info@),
        }
    }
}

/// A bytes pair of type `t` holding `v`, refused when `v` is too long for a pair value.
pub open spec fn spec_bytes_pair(t: u64, v: Seq<u8>) -> Result<KvpView, ErrorKind> {
    if v.len() > MAX_VALUE_LENGTH {
        Err(ErrorKind::LengthExceedsMax)
    } else {
        Ok(KvpView::Bytes { type_value: t, value: v })
    }
}

/// The pair an option stands for; text is carried as its UTF-8 bytes.
pub open spec fn spec_setup_option_pair(o: SetupOptionView) -> Result<KvpView, ErrorKind> {
    match o {
        SetupOptionView::Path(c) => spec_bytes_pair(SetupOptionType::Path.spec_value(), encode_utf8(c)),
        SetupOptionView::AuthorizationToken(t) => match spec_serialize_auth_token(t) {
            Err(e) => Err(e),
            Ok(b) => spec_bytes_pair(SetupOptionType::AuthorizationToken.spec_value(), b),
        },
        SetupOptionView::MaxAuthTokenCacheSize(n) => Ok(
            KvpView::VarInt { type_value: SetupOptionType::MaxAuthTokenCacheSize.spec_value(), value: n },
        ),
        SetupOptionView::Authority(c) => spec_bytes_pair(SetupOptionType::Authority.spec_value(), encode_utf8(c)),
        SetupOptionView::MoqtImplementation(c) => spec_bytes_pair(
            SetupOptionType::MoqtImplementation.spec_value(),
            encode_utf8(c),
        ),
    }
}

/// The wire form of an option: its pair with the type written whole. A token
/// that cannot be written is reported as `Other`.
pub open spec fn spec_serialize_setup_option(o: SetupOptionView) -> Result<Seq<u8>, ErrorKind> {
    match o {
        SetupOptionView::AuthorizationToken(t) if spec_serialize_auth_token(t) is Err => Err(ErrorKind::Other),
        _ => match spec_setup_option_pair(o) {
            Err(e) => Err(e),
            Ok(k) => Ok(spec_kvp_bytes(k)),
        },
    }
}

/// Text carried in a bytes pair: refused unless it is UTF-8.
pub open spec fn spec_text_of(v: Seq<u8>) -> Result<Seq<char>, ErrorKind> {
    if valid_utf8(v) {
        Ok(decode_utf8(v))
    } else {
        Err(ErrorKind::InvalidUTF8)
    }
}

/// The option a pair stands for. A type outside the registry is refused; a
/// known type in the wrong encoding, or one that is no option here, is a
/// formatting error.
pub open spec fn spec_setup_option_of(k: KvpView) -> Result<SetupOptionView, ErrorKind> {
    match k {
        KvpView::VarInt { type_value, value } => match SetupOptionType::spec_from_value(type_value) {
            None => Err(ErrorKind::InvalidType),
            Some(SetupOptionType::MaxAuthTokenCacheSize) => Ok(SetupOptionView::MaxAuthTokenCacheSize(value)),
            Some(_) => Err(ErrorKind::KeyValueFormattingError),
        },
        KvpView::Bytes { type_value, value } => match SetupOptionType::spec_from_value(type_value) {
            None => Err(ErrorKind::InvalidType),
            Some(SetupOptionType::Path) => match spec_text_of(value) {
                Err(e) => Err(e),
                Ok(c) => Ok(SetupOptionView::Path(c)),
            },
            Some(SetupOptionType::AuthorizationToken) => match spec_deserialize_auth_token(value) {
                Err(e) => Err(e),
                Ok((t, _)) => Ok(SetupOptionView::AuthorizationToken(t)),
            },
            Some(SetupOptionType::MoqtImplementation) => match spec_text_of(value) {
                Err(e) => Err(e),
                Ok(c) => Ok(SetupOptionView::MoqtImplementation(c)),
            },
            Some(SetupOptionType::Authority) => match spec_text_of(value) {
                Err(e) => Err(e),
                Ok(c) => Ok(SetupOptionView::Authority(c)),
            },
            Some(_) => Err(ErrorKind::KeyValueFormattingError),
        },
    }
}

/// A pair holding text, or the error when the text is too long.
fn text_pair(t: u64, s: &String) -> (r: Result<KeyValuePair, ParseError>)
    requires
        t % 2 == 1,
    ensures
        match r {
            Ok(k) => spec_bytes_pair(t, encode_utf8(s@)) == Ok::<KvpView, ErrorKind>(k@),
            Err(e) => spec_bytes_pair(t, encode_utf8(s@)) == Err::<KvpView, ErrorKind>(e.kind()),
        },
{
    KeyValuePair::try_new_bytes(t, utf8_bytes(s))
}

impl SetupOption {
    pub fn new_path(moqt_path: String) -> (o: Self)
        ensures
            o == (SetupOption::Path { moqt_path }),
    {
        SetupOption::Path { moqt_path }
    }

    /// Raw-QUIC only: the authority component of the `moqt://` URI.
    /// MUST NOT be sent over WebTransport.
    pub fn new_authority(authority: String) -> (o: Self)
        ensures
            o == (SetupOption::Authority { authority }),
    {
        SetupOption::Authority { authority }
    }

    pub fn new_auth_token(token: AuthorizationToken) -> (o: Self)
        ensures
            o == (SetupOption::AuthorizationToken { token }),
    {
        SetupOption::AuthorizationToken { token }
    }

    pub fn new_max_auth_token_cache_size(max_size: u64) -> (o: Self)
        ensures
            o == (SetupOption::MaxAuthTokenCacheSize { max_size }),
    {
        SetupOption::MaxAuthTokenCacheSize { max_size }
    }

    pub fn new_moqt_implementation(info: String) -> (o: Self)
        ensures
            o == (SetupOption::MoqtImplementation { info }),
    {
        SetupOption::MoqtImplementation { info }
    }

    /// The pair this option stands for.
    pub fn to_kvp(&self) -> (r: Result<KeyValuePair, ParseError>)
        ensures
            match r {
                Ok(k) => spec_setup_option_pair(self@) == Ok::<KvpView, ErrorKind>(k@),
                Err(e) => spec_setup_option_pair(self@) == Err::<KvpView, ErrorKind>(e.kind()),
            },
    {
        match self {
            SetupOption::Path { moqt_path } => text_pair(SetupOptionType::Path.value(), moqt_path),
            SetupOption::AuthorizationToken { token } => {
                let b = token.serialize()?;
                KeyValuePair::try_new_bytes(SetupOptionType::AuthorizationToken.value(), b)
            },
            SetupOption::MaxAuthTokenCacheSize { max_size } => KeyValuePair::try_new_varint(
                SetupOptionType::MaxAuthTokenCacheSize.value(),
                *max_size,
            ),
            SetupOption::Authority { authority } => text_pair(SetupOptionType::Authority.value(), authority),
            SetupOption::MoqtImplementation { info } => text_pair(SetupOptionType::MoqtImplementation.value(), info),
        }
    }

    /// The wire form of this option.
    pub fn serialize(&self) -> (r: Result<Bytes, ParseError>)
        ensures
            match r {
                Ok(b) => spec_serialize_setup_option(self@) == Ok::<Seq<u8>, ErrorKind>(bytes_view(b)),
                Err(e) => spec_serialize_setup_option(self@) == Err::<Seq<u8>, ErrorKind>(e.kind()),
            },
    {
        if let SetupOption::AuthorizationToken { token } = self {
            if token.serialize().is_err() {
                return Err(ParseError::Other { context: "SetupOption::serialize: the token cannot be written" });
            }
        }
        let kvp = self.to_kvp()?;
        proof {
            lemma_kvp_bytes_is_delta_from_zero(kvp@);
        }
        kvp.serialize()
    }

    /// The option a pair stands for.
    pub fn deserialize(kvp: &KeyValuePair) -> (r: Result<SetupOption, ParseError>)
        ensures
            match r {
                Ok(o) => spec_setup_option_of(kvp@) == Ok::<SetupOptionView, ErrorKind>(o@),
                Err(e) => spec_setup_option_of(kvp@) == Err::<SetupOptionView, ErrorKind>(e.kind()),
            },
    {
        match kvp {
            KeyValuePair::VarInt { type_value, value } => {
                let t = SetupOptionType::try_from(*type_value)?;
                match t {
                    SetupOptionType::MaxAuthTokenCacheSize => Ok(SetupOption::MaxAuthTokenCacheSize { max_size: *value }),
                    _ => Err(ParseError::KeyValueFormattingError { context: "SetupOption::deserialize" }),
                }
            },
            KeyValuePair::Bytes { type_value, value } => {
                let t = SetupOptionType::try_from(*type_value)?;
                match t {
                    SetupOptionType::Path => match utf8_string(value) {
                        Some(moqt_path) => Ok(SetupOption::Path { moqt_path }),
                        None => Err(ParseError::InvalidUTF8 { context: "SetupOption::deserialize" }),
                    },
                    SetupOptionType::AuthorizationToken => {
                        let mut payload = value.clone();
                        let token = AuthorizationToken::deserialize(&mut payload)?;
                        Ok(SetupOption::AuthorizationToken { token })
                    },
                    SetupOptionType::MoqtImplementation => match utf8_string(value) {
                        Some(info) => Ok(SetupOption::MoqtImplementation { info }),
                        None => Err(ParseError::InvalidUTF8 { context: "SetupOption::deserialize" }),
                    },
                    SetupOptionType::Authority => match utf8_string(value) {
                        Some(authority) => Ok(SetupOption::Authority { authority }),
                        None => Err(ParseError::InvalidUTF8 { context: "SetupOption::deserialize" }),
                    },
                    _ => Err(ParseError::KeyValueFormattingError { context: "SetupOption::deserialize" }),
                }
            },
        }
    }
}

/// An option that reads back as itself: text short enough for a pair value,
/// and a well-formed token whose wire form fits one.
pub open spec fn setup_option_canonical(o: SetupOptionView) -> bool {
    match o {
        SetupOptionView::Path(c) => encode_utf8(c).len() <= MAX_VALUE_LENGTH,
        SetupOptionView::Authority(c) => encode_utf8(c).len() <= MAX_VALUE_LENGTH,
        SetupOptionView::MoqtImplementation(c) => encode_utf8(c).len() <= MAX_VALUE_LENGTH,
        SetupOptionView::AuthorizationToken(t) => auth_token_wf(t) && spec_serialize_auth_token(t)->Ok_0.len()
            <= MAX_VALUE_LENGTH,
        SetupOptionView::MaxAuthTokenCacheSize(_) => true,
    }
}

/// A canonical option, written out and read back as a pair, is the same
/// option, and what follows is left untouched.
pub proof fn lemma_setup_option_roundtrip(o: SetupOptionView, rest: Seq<u8>)
    requires
        setup_option_canonical(o),
    ensures
        spec_serialize_setup_option(o) is Ok,
        spec_deserialize_delta(spec_serialize_setup_option(o)->Ok_0 + rest, 0) matches Ok((k, r)) && r == rest
            && spec_setup_option_of(k) == Ok::<SetupOptionView, ErrorKind>(o),
{
    if let SetupOptionView::AuthorizationToken(t) = o {
        lemma_auth_token_roundtrip(t);
    }
    let k = spec_setup_option_pair(o)->Ok_0;
    lemma_kvp_bytes_is_delta_from_zero(k);
    lemma_kvp_roundtrip(k, 0, rest);
    match o {
        SetupOptionView::AuthorizationToken(t) => {
            SetupOptionType::AuthorizationToken.lemma_codepoints(3);
        },
        SetupOptionView::Path(c) => {
            SetupOptionType::Path.lemma_codepoints(1);
        },
        SetupOptionView::Authority(c) => {
            SetupOptionType::Authority.lemma_codepoints(5);
        },
        SetupOptionView::MoqtImplementation(c) => {
            SetupOptionType::MoqtImplementation.lemma_codepoints(7);
        },
        SetupOptionView::MaxAuthTokenCacheSize(n) => {
            SetupOptionType::MaxAuthTokenCacheSize.lemma_codepoints(4);
        },
    }
}

} // verus!
