//! Authorization tokens, and the aliases a session may register for them.
use crate::buf::{bytes_as_slice, bytes_from_vec, bytes_view};
use crate::error::{ErrorKind, ParseError};
use crate::model::common::varint::{lemma_vi_roundtrip, push_vi, spec_get_vi, spec_vi_encode, BufVarIntExt};
use crate::model::parameter::constant::TokenAliasType;
use bytes::Bytes;
use vstd::prelude::*;

verus! {

#[derive(Debug, Clone, PartialEq, Eq)]
pub struct AuthorizationToken {
    pub alias_type: u64,
    pub token_alias: Option<u64>,
    pub token_type: Option<u64>,
    pub token_value: Option<Bytes>,
}

/// What an authorization token holds.
pub struct AuthTokenView {
    pub alias_type: u64,
    pub token_alias: Option<u64>,
    pub token_type: Option<u64>,
    pub token_value: Option<Seq<u8>>,
}

impl View for AuthorizationToken {
    type V = AuthTokenView;

    open spec fn view(&self) -> AuthTokenView {
        AuthTokenView {
            alias_type: self.alias_type,
            token_alias: self.token_alias,
            token_type: self.token_type,
            token_value: match self.token_value {
                Some(b) => Some(bytes_view(b)),
                None => None,
            },
        }
    }
}

/// The wire form of a token: its alias type, then the fields that type
/// carries; a field the type needs but the token lacks is left out, as are
/// the fields that follow it. An alias type outside the registry is refused.
pub open spec fn spec_serialize_auth_token(t: AuthTokenView) -> Result<Seq<u8>, ErrorKind> {
    let head = spec_vi_encode(t.alias_type);
    if t.alias_type == TokenAliasType::Delete.spec_value() || t.alias_type
        == TokenAliasType::UseAlias.spec_value() {
        Ok(
            head + match t.token_alias {
                Some(a) => spec_vi_encode(a),
                None => Seq::empty(),
            },
        )
    } else if t.alias_type == TokenAliasType::Register.spec_value() {
        Ok(
            head + match (t.token_alias, t.token_type, t.token_value) {
                (Some(a), Some(ty), Some(v)) => spec_vi_encode(a) + spec_vi_encode(ty) + v,
                _ => Seq::empty(),
            },
        )
    } else if t.alias_type == TokenAliasType::UseValue.spec_value() {
        Ok(
            head + match (t.token_type, t.token_value) {
                (Some(ty), Some(v)) => spec_vi_encode(ty) + v,
                _ => Seq::empty(),
            },
        )
    } else {
        Err(ErrorKind::InvalidType)
    }
}

/// Reading a token. A token value runs to the end of the bytes, which are
/// left in place; an alias is read off the front.
pub open spec fn spec_deserialize_auth_token(s: Seq<u8>) -> Result<(AuthTokenView, Seq<u8>), ErrorKind> {
    match spec_get_vi(s) {
        Err(e) => Err(e),
        Ok((alias_type, r)) => match TokenAliasType::spec_from_value(alias_type) {
            None => Err(ErrorKind::InvalidType),
            Some(TokenAliasType::Delete) => match spec_get_vi(r) {
                Err(e) => Err(e),
                Ok((a, r2)) => Ok(
                    (
                        AuthTokenView {
                            alias_type,
                            token_alias: Some(a),
                            token_type: None,
                            token_value: None,
                        },
                        r2,
                    ),
                ),
            },
            Some(TokenAliasType::UseAlias) => match spec_get_vi(r) {
                Err(e) => Err(e),
                Ok((a, r2)) => Ok(
                    (
                        AuthTokenView {
                            alias_type,
                            token_alias: Some(a),
                            token_type: None,
                            token_value: None,
                        },
                        r2,
                    ),
                ),
            },
            Some(TokenAliasType::Register) => match spec_get_vi(r) {
                Err(e) => Err(e),
                Ok((a, r2)) => match spec_get_vi(r2) {
                    Err(e) => Err(e),
                    Ok((ty, r3)) => Ok(
                        (
                            AuthTokenView {
                                alias_type,
                                token_alias: Some(a),
                                token_type: Some(ty),
                                token_value: Some(r3),
                            },
                            r3,
                        ),
                    ),
                },
            },
            Some(TokenAliasType::UseValue) => match spec_get_vi(r) {
                Err(e) => Err(e),
                Ok((ty, r2)) => Ok(
                    (
                        AuthTokenView {
                            alias_type,
                            token_alias: None,
                            token_type: Some(ty),
                            token_value: Some(r2),
                        },
                        r2,
                    ),
                ),
            },
        },
    }
}

/// A token as the constructors build it: the fields its alias type carries
/// are present and the others absent.
pub open spec fn auth_token_wf(t: AuthTokenView) -> bool {
    if t.alias_type == TokenAliasType::Delete.spec_value() || t.alias_type
        == TokenAliasType::UseAlias.spec_value() {
        t.token_alias is Some && t.token_type is None && t.token_value is None
    } else if t.alias_type == TokenAliasType::Register.spec_value() {
        t.token_alias is Some && t.token_type is Some && t.token_value is Some
    } else if t.alias_type == TokenAliasType::UseValue.spec_value() {
        t.token_alias is None && t.token_type is Some && t.token_value is Some
    } else {
        false
    }
}

/// A well-formed token, written alone, reads back as itself.
pub proof fn lemma_auth_token_roundtrip(t: AuthTokenView)
    requires
        auth_token_wf(t),
    ensures
        spec_serialize_auth_token(t) is Ok,
        spec_deserialize_auth_token(spec_serialize_auth_token(t)->Ok_0) is Ok,
        spec_deserialize_auth_token(spec_serialize_auth_token(t)->Ok_0)->Ok_0.0 == t,
{
    let whole = spec_serialize_auth_token(t)->Ok_0;
    let head = spec_vi_encode(t.alias_type);
    if t.alias_type == TokenAliasType::Delete.spec_value() || t.alias_type
        == TokenAliasType::UseAlias.spec_value() {
        let a = t.token_alias->Some_0;
        lemma_vi_roundtrip(t.alias_type, spec_vi_encode(a));
        lemma_vi_roundtrip(a, Seq::empty());
        assert(spec_vi_encode(a) + Seq::<u8>::empty() =~= spec_vi_encode(a));
    } else if t.alias_type == TokenAliasType::Register.spec_value() {
        let a = t.token_alias->Some_0;
        let ty = t.token_type->Some_0;
        let v = t.token_value->Some_0;
        let body = spec_vi_encode(a) + (spec_vi_encode(ty) + v);
        assert(whole =~= head + body);
        lemma_vi_roundtrip(t.alias_type, body);
        lemma_vi_roundtrip(a, spec_vi_encode(ty) + v);
        lemma_vi_roundtrip(ty, v);
    } else {
        let ty = t.token_type->Some_0;
        let v = t.token_value->Some_0;
        let body = spec_vi_encode(ty) + v;
        lemma_vi_roundtrip(t.alias_type, body);
        lemma_vi_roundtrip(ty, v);
    }
}

impl AuthorizationToken {
    pub fn new_delete(token_alias: u64) -> (t: Self)
        ensures
            t@ == (AuthTokenView {
                alias_type: TokenAliasType::Delete.spec_value(),
                token_alias: Some(token_alias),
                token_type: None,
                token_value: None,
            }),
    {
        AuthorizationToken {
            alias_type: TokenAliasType::Delete.value(),
            token_alias: Some(token_alias),
            token_type: None,
            token_value: None,
        }
    }

    pub fn new_register(token_alias: u64, token_type: u64, token_value: Bytes) -> (t: Self)
        ensures
            t@ == (AuthTokenView {
                alias_type: TokenAliasType::Register.spec_value(),
                token_alias: Some(token_alias),
                token_type: Some(token_type),
                token_value: Some(bytes_view(token_value)),
            }),
    {
        AuthorizationToken {
            alias_type: TokenAliasType::Register.value(),
            token_alias: Some(token_alias),
            token_type: Some(token_type),
            token_value: Some(token_value),
        }
    }

    pub fn new_use_alias(token_alias: u64) -> (t: Self)
        ensures
            t@ == (AuthTokenView {
                alias_type: TokenAliasType::UseAlias.spec_value(),
                token_alias: Some(token_alias),
                token_type: None,
                token_value: None,
            }),
    {
        AuthorizationToken {
            alias_type: TokenAliasType::UseAlias.value(),
            token_alias: Some(token_alias),
            token_type: None,
            token_value: None,
        }
    }

    pub fn new_use_value(token_type: u64, token_value: Bytes) -> (t: Self)
        ensures
            t@ == (AuthTokenView {
                alias_type: TokenAliasType::UseValue.spec_value(),
                token_alias: None,
                token_type: Some(token_type),
                token_value: Some(bytes_view(token_value)),
            }),
    {
        AuthorizationToken {
            alias_type: TokenAliasType::UseValue.value(),
            token_alias: None,
            token_type: Some(token_type),
            token_value: Some(token_value),
        }
    }

    /// Appends the wire form of this token.
    pub fn push_serialized(&self, out: &mut Vec<u8>) -> (r: Result<(), ParseError>)
        ensures
            match r {
                Ok(_) => spec_serialize_auth_token(self@) is Ok && final(out)@ == old(out)@
                    + spec_serialize_auth_token(self@)->Ok_0,
                Err(e) => spec_serialize_auth_token(self@) == Err::<Seq<u8>, ErrorKind>(e.kind())
                    && final(out)@ == old(out)@,
            },
    {
        let ghost start = out@;
        let at = self.alias_type;
        if at == TokenAliasType::Delete.value() || at == TokenAliasType::UseAlias.value() {
            push_vi(out, at);
            let ghost h = out@;
            if let Some(a) = self.token_alias {
                push_vi(out, a);
            }
            proof {
                assert(out@ =~= start + spec_serialize_auth_token(self@)->Ok_0);
            }
        } else if at == TokenAliasType::Register.value() {
            push_vi(out, at);
            match (self.token_alias, self.token_type, &self.token_value) {
                (Some(a), Some(ty), Some(v)) => {
                    push_vi(out, a);
                    push_vi(out, ty);
                    out.extend_from_slice(bytes_as_slice(v));
                },
                _ => {},
            }
            proof {
                assert(out@ =~= start + spec_serialize_auth_token(self@)->Ok_0);
            }
        } else if at == TokenAliasType::UseValue.value() {
            push_vi(out, at);
            match (self.token_type, &self.token_value) {
                (Some(ty), Some(v)) => {
                    push_vi(out, ty);
                    out.extend_from_slice(bytes_as_slice(v));
                },
                _ => {},
            }
            proof {
                assert(out@ =~= start + spec_serialize_auth_token(self@)->Ok_0);
            }
        } else {
            return Err(
                ParseError::InvalidType {
                    context: "AuthorizationToken::serialize: unknown alias_type",
                    value: at,
                },
            );
        }
        Ok(())
    }

    pub fn serialize(&self) -> (r: Result<Bytes, ParseError>)
        ensures
            match r {
                Ok(b) => spec_serialize_auth_token(self@) == Ok::<Seq<u8>, ErrorKind>(bytes_view(b)),
                Err(e) => spec_serialize_auth_token(self@) == Err::<Seq<u8>, ErrorKind>(e.kind()),
            },
    {
        let mut out: Vec<u8> = Vec::new();
        self.push_serialized(&mut out)?;
        proof {
            assert(out@ =~= spec_serialize_auth_token(self@)->Ok_0);
        }
        Ok(bytes_from_vec(out))
    }

    /// Reads a token. A token value is the rest of `buf`, which is left in
    /// place.
    pub fn deserialize(buf: &mut Bytes) -> (r: Result<Self, ParseError>)
        ensures
            match r {
                Ok(t) => spec_deserialize_auth_token(bytes_view(*old(buf))) == Ok::<
                    (AuthTokenView, Seq<u8>),
                    ErrorKind,
                >((t@, bytes_view(*final(buf)))),
                Err(e) => spec_deserialize_auth_token(bytes_view(*old(buf))) == Err::<
                    (AuthTokenView, Seq<u8>),
                    ErrorKind,
                >(e.kind()),
            },
    {
        let raw = buf.get_vi()?;
        let alias_type = TokenAliasType::try_from(raw)?;
        match alias_type {
            TokenAliasType::Delete => {
                let token_alias = buf.get_vi()?;
                Ok(AuthorizationToken::new_delete(token_alias))
            },
            TokenAliasType::Register => {
                let token_alias = buf.get_vi()?;
                let token_type = buf.get_vi()?;
                let token_value = buf.clone();
                Ok(AuthorizationToken::new_register(token_alias, token_type, token_value))
            },
            TokenAliasType::UseAlias => {
                let token_alias = buf.get_vi()?;
                Ok(AuthorizationToken::new_use_alias(token_alias))
            },
            TokenAliasType::UseValue => {
                let token_type = buf.get_vi()?;
                let token_value = buf.clone();
                Ok(AuthorizationToken::new_use_value(token_type, token_value))
            },
        }
    }

    /// A token holding the same fields.
    pub fn duplicate(&self) -> (r: Self)
        ensures
            r@ == self@,
    {
        AuthorizationToken {
            alias_type: self.alias_type,
            token_alias: self.token_alias,
            token_type: self.token_type,
            token_value: match &self.token_value {
                Some(b) => Some(b.clone()),
                None => None,
            },
        }
    }
}

} // verus!
