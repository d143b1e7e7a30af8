use crate::error::ParseError;
use vstd::prelude::*;
use vstd::std_specs::convert::{FromSpecImpl, TryFromSpecImpl};

verus! {

/// Setup option types.
#[derive(Debug, Clone, Copy, PartialEq, Eq, Structural)]
pub enum SetupOptionType {
    Path,
    MaxRequestId,
    AuthorizationToken,
    MaxAuthTokenCacheSize,
    Authority,
    MoqtImplementation,
}

impl SetupOptionType {
    /// The codepoint of this variant.
    pub open spec fn spec_value(self) -> u64 {
        match self {
            SetupOptionType::Path => 0x01,
            SetupOptionType::MaxRequestId => 0x02,
            SetupOptionType::AuthorizationToken => 0x03,
            SetupOptionType::MaxAuthTokenCacheSize => 0x04,
            SetupOptionType::Authority => 0x05,
            SetupOptionType::MoqtImplementation => 0x07,
        }
    }

    /// The variant a codepoint names, if any.
    pub open spec fn spec_from_value(value: u64) -> Option<SetupOptionType> {
        if value == 0x01 {
            Some(SetupOptionType::Path)
        } else if value == 0x02 {
            Some(SetupOptionType::MaxRequestId)
        } else if value == 0x03 {
            Some(SetupOptionType::AuthorizationToken)
        } else if value == 0x04 {
            Some(SetupOptionType::MaxAuthTokenCacheSize)
        } else if value == 0x05 {
            Some(SetupOptionType::Authority)
        } else if value == 0x07 {
            Some(SetupOptionType::MoqtImplementation)
        } else {
            None
        }
    }

    /// Codepoints and variants correspond one to one.
    pub proof fn lemma_codepoints(self, value: u64)
        ensures
            SetupOptionType::spec_from_value(self.spec_value()) == Some(self),
            SetupOptionType::spec_from_value(value) == Some(self) ==> self.spec_value() == value,
    {
    }

    /// The codepoint of this variant.
    pub fn value(self) -> (v: u64)
        ensures
            v == self.spec_value(),
    {
        match self {
            SetupOptionType::Path => 0x01,
            SetupOptionType::MaxRequestId => 0x02,
            SetupOptionType::AuthorizationToken => 0x03,
            SetupOptionType::MaxAuthTokenCacheSize => 0x04,
            SetupOptionType::Authority => 0x05,
            SetupOptionType::MoqtImplementation => 0x07,
        }
    }
}

impl TryFrom<u64> for SetupOptionType {
    type Error = ParseError;

    fn try_from(value: u64) -> (r: Result<Self, Self::Error>) {
        match value {
            0x01 => Ok(SetupOptionType::Path),
            0x02 => Ok(SetupOptionType::MaxRequestId),
            0x03 => Ok(SetupOptionType::AuthorizationToken),
            0x04 => Ok(SetupOptionType::MaxAuthTokenCacheSize),
            0x05 => Ok(SetupOptionType::Authority),
            0x07 => Ok(SetupOptionType::MoqtImplementation),
            _ => Err(ParseError::InvalidType { context: "SetupOptionType::try_from(u64)", value: value as u64 }),
        }
    }
}

impl TryFromSpecImpl<u64> for SetupOptionType {
    open spec fn obeys_try_from_spec() -> bool {
        true
    }

    open spec fn try_from_spec(value: u64) -> Result<Self, ParseError> {
        match SetupOptionType::spec_from_value(value) {
            Some(x) => Ok(x),
            None => Err(ParseError::InvalidType { context: "SetupOptionType::try_from(u64)", value: value as u64 }),
        }
    }
}

impl From<SetupOptionType> for u64 {
    fn from(value: SetupOptionType) -> (v: u64) {
        value.value()
    }
}

impl FromSpecImpl<SetupOptionType> for u64 {
    open spec fn obeys_from_spec() -> bool {
        true
    }

    open spec fn from_spec(value: SetupOptionType) -> u64 {
        value.spec_value()
    }
}
/// Message parameter types.
#[derive(Debug, Clone, Copy, PartialEq, Eq, Structural)]
pub enum MessageParameterType {
    ObjectDeliveryTimeout,
    AuthorizationToken,
    RendezvousTimeout,
    SubgroupDeliveryTimeout,
    Expires,
    LargestObject,
    FillTimeout,
    Forward,
    SubscriberPriority,
    SubscriptionFilter,
    GroupOrder,
    NewGroupRequest,
    TrackNamespacePrefix,
}

impl MessageParameterType {
    /// The codepoint of this variant.
    pub open spec fn spec_value(self) -> u64 {
        match self {
            MessageParameterType::ObjectDeliveryTimeout => 0x02,
            MessageParameterType::AuthorizationToken => 0x03,
            MessageParameterType::RendezvousTimeout => 0x04,
            MessageParameterType::SubgroupDeliveryTimeout => 0x06,
            MessageParameterType::Expires => 0x08,
            MessageParameterType::LargestObject => 0x09,
            MessageParameterType::FillTimeout => 0x0A,
            MessageParameterType::Forward => 0x10,
            MessageParameterType::SubscriberPriority => 0x20,
            MessageParameterType::SubscriptionFilter => 0x21,
            MessageParameterType::GroupOrder => 0x22,
            MessageParameterType::NewGroupRequest => 0x32,
            MessageParameterType::TrackNamespacePrefix => 0x34,
        }
    }

    /// The variant a codepoint names, if any.
    pub open spec fn spec_from_value(value: u64) -> Option<MessageParameterType> {
        if value == 0x02 {
            Some(MessageParameterType::ObjectDeliveryTimeout)
        } else if value == 0x03 {
            Some(MessageParameterType::AuthorizationToken)
        } else if value == 0x04 {
            Some(MessageParameterType::RendezvousTimeout)
        } else if value == 0x06 {
            Some(MessageParameterType::SubgroupDeliveryTimeout)
        } else if value == 0x08 {
            Some(MessageParameterType::Expires)
        } else if value == 0x09 {
            Some(MessageParameterType::LargestObject)
        } else if value == 0x0A {
            Some(MessageParameterType::FillTimeout)
        } else if value == 0x10 {
            Some(MessageParameterType::Forward)
        } else if value == 0x20 {
            Some(MessageParameterType::SubscriberPriority)
        } else if value == 0x21 {
            Some(MessageParameterType::SubscriptionFilter)
        } else if value == 0x22 {
            Some(MessageParameterType::GroupOrder)
        } else if value == 0x32 {
            Some(MessageParameterType::NewGroupRequest)
        } else if value == 0x34 {
            Some(MessageParameterType::TrackNamespacePrefix)
        } else {
            None
        }
    }

    /// Codepoints and variants correspond one to one.
    pub proof fn lemma_codepoints(self, value: u64)
        ensures
            MessageParameterType::spec_from_value(self.spec_value()) == Some(self),
            MessageParameterType::spec_from_value(value) == Some(self) ==> self.spec_value() == value,
    {
    }

    /// The codepoint of this variant.
    pub fn value(self) -> (v: u64)
        ensures
            v == self.spec_value(),
    {
        match self {
            MessageParameterType::ObjectDeliveryTimeout => 0x02,
            MessageParameterType::AuthorizationToken => 0x03,
            MessageParameterType::RendezvousTimeout => 0x04,
            MessageParameterType::SubgroupDeliveryTimeout => 0x06,
            MessageParameterType::Expires => 0x08,
            MessageParameterType::LargestObject => 0x09,
            MessageParameterType::FillTimeout => 0x0A,
            MessageParameterType::Forward => 0x10,
            MessageParameterType::SubscriberPriority => 0x20,
            MessageParameterType::SubscriptionFilter => 0x21,
            MessageParameterType::GroupOrder => 0x22,
            MessageParameterType::NewGroupRequest => 0x32,
            MessageParameterType::TrackNamespacePrefix => 0x34,
        }
    }
}

impl TryFrom<u64> for MessageParameterType {
    type Error = ParseError;

    fn try_from(value: u64) -> (r: Result<Self, Self::Error>) {
        match value {
            0x02 => Ok(MessageParameterType::ObjectDeliveryTimeout),
            0x03 => Ok(MessageParameterType::AuthorizationToken),
            0x04 => Ok(MessageParameterType::RendezvousTimeout),
            0x06 => Ok(MessageParameterType::SubgroupDeliveryTimeout),
            0x08 => Ok(MessageParameterType::Expires),
            0x09 => Ok(MessageParameterType::LargestObject),
            0x0A => Ok(MessageParameterType::FillTimeout),
            0x10 => Ok(MessageParameterType::Forward),
            0x20 => Ok(MessageParameterType::SubscriberPriority),
            0x21 => Ok(MessageParameterType::SubscriptionFilter),
            0x22 => Ok(MessageParameterType::GroupOrder),
            0x32 => Ok(MessageParameterType::NewGroupRequest),
            0x34 => Ok(MessageParameterType::TrackNamespacePrefix),
            _ => Err(ParseError::InvalidType { context: "MessageParameterType::try_from(u64)", value: value as u64 }),
        }
    }
}

impl TryFromSpecImpl<u64> for MessageParameterType {
    open spec fn obeys_try_from_spec() -> bool {
        true
    }

    open spec fn try_from_spec(value: u64) -> Result<Self, ParseError> {
        match MessageParameterType::spec_from_value(value) {
            Some(x) => Ok(x),
            None => Err(ParseError::InvalidType { context: "MessageParameterType::try_from(u64)", value: value as u64 }),
        }
    }
}

impl From<MessageParameterType> for u64 {
    fn from(value: MessageParameterType) -> (v: u64) {
        value.value()
    }
}

impl FromSpecImpl<MessageParameterType> for u64 {
    open spec fn obeys_from_spec() -> bool {
        true
    }

    open spec fn from_spec(value: MessageParameterType) -> u64 {
        value.spec_value()
    }
}
/// Authorization token alias types.
#[derive(Debug, Clone, Copy, PartialEq, Eq, Structural)]
pub enum TokenAliasType {
    Delete,
    Register,
    UseAlias,
    UseValue,
}

impl TokenAliasType {
    /// The codepoint of this variant.
    pub open spec fn spec_value(self) -> u64 {
        match self {
            TokenAliasType::Delete => 0x0,
            TokenAliasType::Register => 0x1,
            TokenAliasType::UseAlias => 0x2,
            TokenAliasType::UseValue => 0x3,
        }
    }

    /// The variant a codepoint names, if any.
    pub open spec fn spec_from_value(value: u64) -> Option<TokenAliasType> {
        if value == 0x0 {
            Some(TokenAliasType::Delete)
        } else if value == 0x1 {
            Some(TokenAliasType::Register)
        } else if value == 0x2 {
            Some(TokenAliasType::UseAlias)
        } else if value == 0x3 {
            Some(TokenAliasType::UseValue)
        } else {
            None
        }
    }

    /// Codepoints and variants correspond one to one.
    pub proof fn lemma_codepoints(self, value: u64)
        ensures
            TokenAliasType::spec_from_value(self.spec_value()) == Some(self),
            TokenAliasType::spec_from_value(value) == Some(self) ==> self.spec_value() == value,
    {
    }

    /// The codepoint of this variant.
    pub fn value(self) -> (v: u64)
        ensures
            v == self.spec_value(),
    {
        match self {
            TokenAliasType::Delete => 0x0,
            TokenAliasType::Register => 0x1,
            TokenAliasType::UseAlias => 0x2,
            TokenAliasType::UseValue => 0x3,
        }
    }
}

impl TryFrom<u64> for TokenAliasType {
    type Error = ParseError;

    fn try_from(value: u64) -> (r: Result<Self, Self::Error>) {
        match value {
            0x0 => Ok(TokenAliasType::Delete),
            0x1 => Ok(TokenAliasType::Register),
            0x2 => Ok(TokenAliasType::UseAlias),
            0x3 => Ok(TokenAliasType::UseValue),
            _ => Err(ParseError::InvalidType { context: "TokenAliasType::try_from(u64)", value: value as u64 }),
        }
    }
}

impl TryFromSpecImpl<u64> for TokenAliasType {
    open spec fn obeys_try_from_spec() -> bool {
        true
    }

    open spec fn try_from_spec(value: u64) -> Result<Self, ParseError> {
        match TokenAliasType::spec_from_value(value) {
            Some(x) => Ok(x),
            None => Err(ParseError::InvalidType { context: "TokenAliasType::try_from(u64)", value: value as u64 }),
        }
    }
}

impl From<TokenAliasType> for u64 {
    fn from(value: TokenAliasType) -> (v: u64) {
        value.value()
    }
}

impl FromSpecImpl<TokenAliasType> for u64 {
    open spec fn obeys_from_spec() -> bool {
        true
    }

    open spec fn from_spec(value: TokenAliasType) -> u64 {
        value.spec_value()
    }
}
} // verus!
