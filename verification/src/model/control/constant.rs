use crate::error::ParseError;
use vstd::prelude::*;
use vstd::std_specs::convert::{FromSpecImpl, TryFromSpecImpl};

verus! {

/// The version string this implementation speaks.
pub const SUPPORTED_VERSIONS: &'static str = "moqt-16";

/// Control message types.
#[derive(Debug, Clone, Copy, PartialEq, Eq, Structural)]
pub enum ControlMessageType {
    ClientSetup,
    ServerSetup,
    GoAway,
    MaxRequestId,
    RequestsBlocked,
    Subscribe,
    SubscribeOk,
    RequestError,
    Unsubscribe,
    SubscribeUpdate,
    Fetch,
    FetchOk,
    FetchCancel,
    TrackStatus,
    TrackStatusOk,
    PublishNamespace,
    PublishNamespaceOk,
    PublishNamespaceDone,
    PublishNamespaceCancel,
    SubscribeNamespace,
    SubscribeNamespaceOk,
    UnsubscribeNamespace,
    Publish,
    PublishDone,
    PublishOk,
    Switch,
    /// REQUEST_UPDATE, written under SUBSCRIBE_UPDATE's codepoint.
    RequestUpdate,
    /// REQUEST_OK (0x7), written under PUBLISH_NAMESPACE_OK's codepoint.
    RequestOk,
    /// SUBSCRIBE_TRACKS (0x51).
    SubscribeTracks,
    /// PUBLISH_BLOCKED (0xF).
    PublishBlocked,
    /// SETUP, the one setup message both peers send.
    Setup,
}

impl ControlMessageType {
    /// The codepoint of this variant.
    pub open spec fn spec_value(self) -> u64 {
        match self {
            ControlMessageType::ClientSetup => 0x20,
            ControlMessageType::ServerSetup => 0x21,
            ControlMessageType::GoAway => 0x10,
            ControlMessageType::MaxRequestId => 0x15,
            ControlMessageType::RequestsBlocked => 0x1A,
            ControlMessageType::Subscribe => 0x03,
            ControlMessageType::SubscribeOk => 0x04,
            ControlMessageType::RequestError => 0x05,
            ControlMessageType::Unsubscribe => 0x0A,
            ControlMessageType::SubscribeUpdate => 0x02,
            ControlMessageType::Fetch => 0x16,
            ControlMessageType::FetchOk => 0x18,
            ControlMessageType::FetchCancel => 0x17,
            ControlMessageType::TrackStatus => 0x0D,
            ControlMessageType::TrackStatusOk => 0x0E,
            ControlMessageType::PublishNamespace => 0x06,
            ControlMessageType::PublishNamespaceOk => 0x07,
            ControlMessageType::PublishNamespaceDone => 0x09,
            ControlMessageType::PublishNamespaceCancel => 0x0C,
            ControlMessageType::SubscribeNamespace => 0x11,
            ControlMessageType::SubscribeNamespaceOk => 0x12,
            ControlMessageType::UnsubscribeNamespace => 0x14,
            ControlMessageType::Publish => 0x1D,
            ControlMessageType::PublishDone => 0x0B,
            ControlMessageType::PublishOk => 0x1E,
            ControlMessageType::Switch => 0x22,
            ControlMessageType::RequestUpdate => 0x02,
            ControlMessageType::RequestOk => 0x07,
            ControlMessageType::SubscribeTracks => 0x51,
            ControlMessageType::PublishBlocked => 0x0F,
            ControlMessageType::Setup => 0x2F00,
        }
    }

    /// The variant a codepoint names, if any.
    pub open spec fn spec_from_value(value: u64) -> Option<ControlMessageType> {
        if value == 0x20 {
            Some(ControlMessageType::ClientSetup)
        } else if value == 0x21 {
            Some(ControlMessageType::ServerSetup)
        } else if value == 0x10 {
            Some(ControlMessageType::GoAway)
        } else if value == 0x15 {
            Some(ControlMessageType::MaxRequestId)
        } else if value == 0x1A {
            Some(ControlMessageType::RequestsBlocked)
        } else if value == 0x03 {
            Some(ControlMessageType::Subscribe)
        } else if value == 0x04 {
            Some(ControlMessageType::SubscribeOk)
        } else if value == 0x05 {
            Some(ControlMessageType::RequestError)
        } else if value == 0x0A {
            Some(ControlMessageType::Unsubscribe)
        } else if value == 0x02 {
            Some(ControlMessageType::SubscribeUpdate)
        } else if value == 0x16 {
            Some(ControlMessageType::Fetch)
        } else if value == 0x18 {
            Some(ControlMessageType::FetchOk)
        } else if value == 0x17 {
            Some(ControlMessageType::FetchCancel)
        } else if value == 0x0D {
            Some(ControlMessageType::TrackStatus)
        } else if value == 0x0E {
            Some(ControlMessageType::TrackStatusOk)
        } else if value == 0x06 {
            Some(ControlMessageType::PublishNamespace)
        } else if value == 0x07 {
            Some(ControlMessageType::PublishNamespaceOk)
        } else if value == 0x09 {
            Some(ControlMessageType::PublishNamespaceDone)
        } else if value == 0x0C {
            Some(ControlMessageType::PublishNamespaceCancel)
        } else if value == 0x11 {
            Some(ControlMessageType::SubscribeNamespace)
        } else if value == 0x12 {
            Some(ControlMessageType::SubscribeNamespaceOk)
        } else if value == 0x14 {
            Some(ControlMessageType::UnsubscribeNamespace)
        } else if value == 0x1D {
            Some(ControlMessageType::Publish)
        } else if value == 0x0B {
            Some(ControlMessageType::PublishDone)
        } else if value == 0x1E {
            Some(ControlMessageType::PublishOk)
        } else if value == 0x22 {
            Some(ControlMessageType::Switch)
        } else if value == 0x51 {
            Some(ControlMessageType::SubscribeTracks)
        } else if value == 0x0F {
            Some(ControlMessageType::PublishBlocked)
        } else if value == 0x2F00 {
            Some(ControlMessageType::Setup)
        } else {
            None
        }
    }

    /// A codepoint reads as a variant that writes it back; every variant
    /// reads back from its codepoint, except the two that share one with an
    /// older name, which read back as that name.
    pub proof fn lemma_codepoints(self, value: u64)
        ensures
            ControlMessageType::spec_from_value(self.spec_value()) == Some(match self {
                ControlMessageType::RequestUpdate => ControlMessageType::SubscribeUpdate,
                ControlMessageType::RequestOk => ControlMessageType::PublishNamespaceOk,
                _ => self,
            }),
            ControlMessageType::spec_from_value(value) == Some(self) ==> self.spec_value() == value,
    {
    }

    /// The codepoint of this variant.
    pub fn value(self) -> (v: u64)
        ensures
            v == self.spec_value(),
    {
        match self {
            ControlMessageType::ClientSetup => 0x20,
            ControlMessageType::ServerSetup => 0x21,
            ControlMessageType::GoAway => 0x10,
            ControlMessageType::MaxRequestId => 0x15,
            ControlMessageType::RequestsBlocked => 0x1A,
            ControlMessageType::Subscribe => 0x03,
            ControlMessageType::SubscribeOk => 0x04,
            ControlMessageType::RequestError => 0x05,
            ControlMessageType::Unsubscribe => 0x0A,
            ControlMessageType::SubscribeUpdate => 0x02,
            ControlMessageType::Fetch => 0x16,
            ControlMessageType::FetchOk => 0x18,
            ControlMessageType::FetchCancel => 0x17,
            ControlMessageType::TrackStatus => 0x0D,
            ControlMessageType::TrackStatusOk => 0x0E,
            ControlMessageType::PublishNamespace => 0x06,
            ControlMessageType::PublishNamespaceOk => 0x07,
            ControlMessageType::PublishNamespaceDone => 0x09,
            ControlMessageType::PublishNamespaceCancel => 0x0C,
            ControlMessageType::SubscribeNamespace => 0x11,
            ControlMessageType::SubscribeNamespaceOk => 0x12,
            ControlMessageType::UnsubscribeNamespace => 0x14,
            ControlMessageType::Publish => 0x1D,
            ControlMessageType::PublishDone => 0x0B,
            ControlMessageType::PublishOk => 0x1E,
            ControlMessageType::Switch => 0x22,
            ControlMessageType::RequestUpdate => 0x02,
            ControlMessageType::RequestOk => 0x07,
            ControlMessageType::SubscribeTracks => 0x51,
            ControlMessageType::PublishBlocked => 0x0F,
            ControlMessageType::Setup => 0x2F00,
        }
    }
}

impl TryFrom<u64> for ControlMessageType {
    type Error = ParseError;

    fn try_from(value: u64) -> (r: Result<Self, Self::Error>) {
        match value {
            0x20 => Ok(ControlMessageType::ClientSetup),
            0x21 => Ok(ControlMessageType::ServerSetup),
            0x10 => Ok(ControlMessageType::GoAway),
            0x15 => Ok(ControlMessageType::MaxRequestId),
            0x1A => Ok(ControlMessageType::RequestsBlocked),
            0x03 => Ok(ControlMessageType::Subscribe),
            0x04 => Ok(ControlMessageType::SubscribeOk),
            0x05 => Ok(ControlMessageType::RequestError),
            0x0A => Ok(ControlMessageType::Unsubscribe),
            0x02 => Ok(ControlMessageType::SubscribeUpdate),
            0x16 => Ok(ControlMessageType::Fetch),
            0x18 => Ok(ControlMessageType::FetchOk),
            0x17 => Ok(ControlMessageType::FetchCancel),
            0x0D => Ok(ControlMessageType::TrackStatus),
            0x0E => Ok(ControlMessageType::TrackStatusOk),
            0x06 => Ok(ControlMessageType::PublishNamespace),
            0x07 => Ok(ControlMessageType::PublishNamespaceOk),
            0x09 => Ok(ControlMessageType::PublishNamespaceDone),
            0x0C => Ok(ControlMessageType::PublishNamespaceCancel),
            0x11 => Ok(ControlMessageType::SubscribeNamespace),
            0x12 => Ok(ControlMessageType::SubscribeNamespaceOk),
            0x14 => Ok(ControlMessageType::UnsubscribeNamespace),
            0x1D => Ok(ControlMessageType::Publish),
            0x0B => Ok(ControlMessageType::PublishDone),
            0x1E => Ok(ControlMessageType::PublishOk),
            0x22 => Ok(ControlMessageType::Switch),
            0x51 => Ok(ControlMessageType::SubscribeTracks),
            0x0F => Ok(ControlMessageType::PublishBlocked),
            0x2F00 => Ok(ControlMessageType::Setup),
            _ => Err(ParseError::InvalidType { context: " ControlMessageType::try_from(u64)", value: value as u64 }),
        }
    }
}

impl TryFromSpecImpl<u64> for ControlMessageType {
    open spec fn obeys_try_from_spec() -> bool {
        true
    }

    open spec fn try_from_spec(value: u64) -> Result<Self, ParseError> {
        match ControlMessageType::spec_from_value(value) {
            Some(x) => Ok(x),
            None => Err(ParseError::InvalidType { context: " ControlMessageType::try_from(u64)", value: value as u64 }),
        }
    }
}

impl From<ControlMessageType> for u64 {
    fn from(value: ControlMessageType) -> (v: u64) {
        value.value()
    }
}

impl FromSpecImpl<ControlMessageType> for u64 {
    open spec fn obeys_from_spec() -> bool {
        true
    }

    open spec fn from_spec(value: ControlMessageType) -> u64 {
        value.spec_value()
    }
}
/// Subscription filter types.
#[derive(Debug, Clone, Copy, PartialEq, Eq, Structural)]
pub enum FilterType {
    NextGroupStart,
    LatestObject,
    AbsoluteStart,
    AbsoluteRange,
}

impl FilterType {
    /// The codepoint of this variant.
    pub open spec fn spec_value(self) -> u64 {
        match self {
            FilterType::NextGroupStart => 0x1,
            FilterType::LatestObject => 0x2,
            FilterType::AbsoluteStart => 0x3,
            FilterType::AbsoluteRange => 0x4,
        }
    }

    /// The variant a codepoint names, if any.
    pub open spec fn spec_from_value(value: u64) -> Option<FilterType> {
        if value == 0x1 {
            Some(FilterType::NextGroupStart)
        } else if value == 0x2 {
            Some(FilterType::LatestObject)
        } else if value == 0x3 {
            Some(FilterType::AbsoluteStart)
        } else if value == 0x4 {
            Some(FilterType::AbsoluteRange)
        } else {
            None
        }
    }

    /// Codepoints and variants correspond one to one.
    pub proof fn lemma_codepoints(self, value: u64)
        ensures
            FilterType::spec_from_value(self.spec_value()) == Some(self),
            FilterType::spec_from_value(value) == Some(self) ==> self.spec_value() == value,
    {
    }

    /// The codepoint of this variant.
    pub fn value(self) -> (v: u64)
        ensures
            v == self.spec_value(),
    {
        match self {
            FilterType::NextGroupStart => 0x1,
            FilterType::LatestObject => 0x2,
            FilterType::AbsoluteStart => 0x3,
            FilterType::AbsoluteRange => 0x4,
        }
    }
}

impl TryFrom<u64> for FilterType {
    type Error = ParseError;

    fn try_from(value: u64) -> (r: Result<Self, Self::Error>) {
        match value {
            0x1 => Ok(FilterType::NextGroupStart),
            0x2 => Ok(FilterType::LatestObject),
            0x3 => Ok(FilterType::AbsoluteStart),
            0x4 => Ok(FilterType::AbsoluteRange),
            _ => Err(ParseError::InvalidType { context: "FilterType::try_from(u64)", value: value as u64 }),
        }
    }
}

impl TryFromSpecImpl<u64> for FilterType {
    open spec fn obeys_try_from_spec() -> bool {
        true
    }

    open spec fn try_from_spec(value: u64) -> Result<Self, ParseError> {
        match FilterType::spec_from_value(value) {
            Some(x) => Ok(x),
            None => Err(ParseError::InvalidType { context: "FilterType::try_from(u64)", value: value as u64 }),
        }
    }
}

impl From<FilterType> for u64 {
    fn from(value: FilterType) -> (v: u64) {
        value.value()
    }
}

impl FromSpecImpl<FilterType> for u64 {
    open spec fn obeys_from_spec() -> bool {
        true
    }

    open spec fn from_spec(value: FilterType) -> u64 {
        value.spec_value()
    }
}
/// Fetch types.
#[derive(Debug, Clone, Copy, PartialEq, Eq, Structural)]
pub enum FetchType {
    Standalone,
    RelativeFetch,
    AbsoluteFetch,
}

impl FetchType {
    /// The codepoint of this variant.
    pub open spec fn spec_value(self) -> u64 {
        match self {
            FetchType::Standalone => 0x1,
            FetchType::RelativeFetch => 0x2,
            FetchType::AbsoluteFetch => 0x3,
        }
    }

    /// The variant a codepoint names, if any.
    pub open spec fn spec_from_value(value: u64) -> Option<FetchType> {
        if value == 0x1 {
            Some(FetchType::Standalone)
        } else if value == 0x2 {
            Some(FetchType::RelativeFetch)
        } else if value == 0x3 {
            Some(FetchType::AbsoluteFetch)
        } else {
            None
        }
    }

    /// Codepoints and variants correspond one to one.
    pub proof fn lemma_codepoints(self, value: u64)
        ensures
            FetchType::spec_from_value(self.spec_value()) == Some(self),
            FetchType::spec_from_value(value) == Some(self) ==> self.spec_value() == value,
    {
    }

    /// The codepoint of this variant.
    pub fn value(self) -> (v: u64)
        ensures
            v == self.spec_value(),
    {
        match self {
            FetchType::Standalone => 0x1,
            FetchType::RelativeFetch => 0x2,
            FetchType::AbsoluteFetch => 0x3,
        }
    }
}

impl TryFrom<u64> for FetchType {
    type Error = ParseError;

    fn try_from(value: u64) -> (r: Result<Self, Self::Error>) {
        match value {
            0x1 => Ok(FetchType::Standalone),
            0x2 => Ok(FetchType::RelativeFetch),
            0x3 => Ok(FetchType::AbsoluteFetch),
            _ => Err(ParseError::InvalidType { context: "FetchType::try_from(u64)", value: value as u64 }),
        }
    }
}

impl TryFromSpecImpl<u64> for FetchType {
    open spec fn obeys_try_from_spec() -> bool {
        true
    }

    open spec fn try_from_spec(value: u64) -> Result<Self, ParseError> {
        match FetchType::spec_from_value(value) {
            Some(x) => Ok(x),
            None => Err(ParseError::InvalidType { context: "FetchType::try_from(u64)", value: value as u64 }),
        }
    }
}

impl From<FetchType> for u64 {
    fn from(value: FetchType) -> (v: u64) {
        value.value()
    }
}

impl FromSpecImpl<FetchType> for u64 {
    open spec fn obeys_from_spec() -> bool {
        true
    }

    open spec fn from_spec(value: FetchType) -> u64 {
        value.spec_value()
    }
}
/// Group delivery orders.
#[derive(Debug, Clone, Copy, PartialEq, Eq, Structural)]
pub enum GroupOrder {
    Original,
    Ascending,
    Descending,
}

impl GroupOrder {
    /// The codepoint of this variant.
    pub open spec fn spec_value(self) -> u8 {
        match self {
            GroupOrder::Original => 0x0,
            GroupOrder::Ascending => 0x1,
            GroupOrder::Descending => 0x2,
        }
    }

    /// The variant a codepoint names, if any.
    pub open spec fn spec_from_value(value: u8) -> Option<GroupOrder> {
        if value == 0x0 {
            Some(GroupOrder::Original)
        } else if value == 0x1 {
            Some(GroupOrder::Ascending)
        } else if value == 0x2 {
            Some(GroupOrder::Descending)
        } else {
            None
        }
    }

    /// Codepoints and variants correspond one to one.
    pub proof fn lemma_codepoints(self, value: u8)
        ensures
            GroupOrder::spec_from_value(self.spec_value()) == Some(self),
            GroupOrder::spec_from_value(value) == Some(self) ==> self.spec_value() == value,
    {
    }

    /// The codepoint of this variant.
    pub fn value(self) -> (v: u8)
        ensures
            v == self.spec_value(),
    {
        match self {
            GroupOrder::Original => 0x0,
            GroupOrder::Ascending => 0x1,
            GroupOrder::Descending => 0x2,
        }
    }
}

impl TryFrom<u8> for GroupOrder {
    type Error = ParseError;

    fn try_from(value: u8) -> (r: Result<Self, Self::Error>) {
        match value {
            0x0 => Ok(GroupOrder::Original),
            0x1 => Ok(GroupOrder::Ascending),
            0x2 => Ok(GroupOrder::Descending),
            _ => Err(ParseError::InvalidType { context: "GroupOrder::try_from(u8)", value: value as u64 }),
        }
    }
}

impl TryFromSpecImpl<u8> for GroupOrder {
    open spec fn obeys_try_from_spec() -> bool {
        true
    }

    open spec fn try_from_spec(value: u8) -> Result<Self, ParseError> {
        match GroupOrder::spec_from_value(value) {
            Some(x) => Ok(x),
            None => Err(ParseError::InvalidType { context: "GroupOrder::try_from(u8)", value: value as u64 }),
        }
    }
}

impl From<GroupOrder> for u8 {
    fn from(value: GroupOrder) -> (v: u8) {
        value.value()
    }
}

impl FromSpecImpl<GroupOrder> for u8 {
    open spec fn obeys_from_spec() -> bool {
        true
    }

    open spec fn from_spec(value: GroupOrder) -> u8 {
        value.spec_value()
    }
}
/// Request error codes as used by control messages.
#[derive(Debug, Clone, Copy, PartialEq, Eq, Structural)]
pub enum RequestErrorCode {
    InternalError,
    Unauthorized,
    Timeout,
    NotSupported,
    MalformedAuthToken,
    ExpiredAuthToken,
    DoesNotExist,
    InvalidRange,
    MalformedTrack,
    DuplicateSubscription,
    Uninterested,
    PrefixOverlap,
    InvalidJoiningRequestId,
}

impl RequestErrorCode {
    /// The codepoint of this variant.
    pub open spec fn spec_value(self) -> u64 {
        match self {
            RequestErrorCode::InternalError => 0x0,
            RequestErrorCode::Unauthorized => 0x1,
            RequestErrorCode::Timeout => 0x2,
            RequestErrorCode::NotSupported => 0x3,
            RequestErrorCode::MalformedAuthToken => 0x4,
            RequestErrorCode::ExpiredAuthToken => 0x5,
            RequestErrorCode::DoesNotExist => 0x10,
            RequestErrorCode::InvalidRange => 0x11,
            RequestErrorCode::MalformedTrack => 0x12,
            RequestErrorCode::DuplicateSubscription => 0x19,
            RequestErrorCode::Uninterested => 0x20,
            RequestErrorCode::PrefixOverlap => 0x30,
            RequestErrorCode::InvalidJoiningRequestId => 0x32,
        }
    }

    /// The variant a codepoint names, if any.
    pub open spec fn spec_from_value(value: u64) -> Option<RequestErrorCode> {
        if value == 0x0 {
            Some(RequestErrorCode::InternalError)
        } else if value == 0x1 {
            Some(RequestErrorCode::Unauthorized)
        } else if value == 0x2 {
            Some(RequestErrorCode::Timeout)
        } else if value == 0x3 {
            Some(RequestErrorCode::NotSupported)
        } else if value == 0x4 {
            Some(RequestErrorCode::MalformedAuthToken)
        } else if value == 0x5 {
            Some(RequestErrorCode::ExpiredAuthToken)
        } else if value == 0x10 {
            Some(RequestErrorCode::DoesNotExist)
        } else if value == 0x11 {
            Some(RequestErrorCode::InvalidRange)
        } else if value == 0x12 {
            Some(RequestErrorCode::MalformedTrack)
        } else if value == 0x19 {
            Some(RequestErrorCode::DuplicateSubscription)
        } else if value == 0x20 {
            Some(RequestErrorCode::Uninterested)
        } else if value == 0x30 {
            Some(RequestErrorCode::PrefixOverlap)
        } else if value == 0x32 {
            Some(RequestErrorCode::InvalidJoiningRequestId)
        } else {
            None
        }
    }

    /// Codepoints and variants correspond one to one.
    pub proof fn lemma_codepoints(self, value: u64)
        ensures
            RequestErrorCode::spec_from_value(self.spec_value()) == Some(self),
            RequestErrorCode::spec_from_value(value) == Some(self) ==> self.spec_value() == value,
    {
    }

    /// The codepoint of this variant.
    pub fn value(self) -> (v: u64)
        ensures
            v == self.spec_value(),
    {
        match self {
            RequestErrorCode::InternalError => 0x0,
            RequestErrorCode::Unauthorized => 0x1,
            RequestErrorCode::Timeout => 0x2,
            RequestErrorCode::NotSupported => 0x3,
            RequestErrorCode::MalformedAuthToken => 0x4,
            RequestErrorCode::ExpiredAuthToken => 0x5,
            RequestErrorCode::DoesNotExist => 0x10,
            RequestErrorCode::InvalidRange => 0x11,
            RequestErrorCode::MalformedTrack => 0x12,
            RequestErrorCode::DuplicateSubscription => 0x19,
            RequestErrorCode::Uninterested => 0x20,
            RequestErrorCode::PrefixOverlap => 0x30,
            RequestErrorCode::InvalidJoiningRequestId => 0x32,
        }
    }
}

impl TryFrom<u64> for RequestErrorCode {
    type Error = ParseError;

    fn try_from(value: u64) -> (r: Result<Self, Self::Error>) {
        match value {
            0x0 => Ok(RequestErrorCode::InternalError),
            0x1 => Ok(RequestErrorCode::Unauthorized),
            0x2 => Ok(RequestErrorCode::Timeout),
            0x3 => Ok(RequestErrorCode::NotSupported),
            0x4 => Ok(RequestErrorCode::MalformedAuthToken),
            0x5 => Ok(RequestErrorCode::ExpiredAuthToken),
            0x10 => Ok(RequestErrorCode::DoesNotExist),
            0x11 => Ok(RequestErrorCode::InvalidRange),
            0x12 => Ok(RequestErrorCode::MalformedTrack),
            0x19 => Ok(RequestErrorCode::DuplicateSubscription),
            0x20 => Ok(RequestErrorCode::Uninterested),
            0x30 => Ok(RequestErrorCode::PrefixOverlap),
            0x32 => Ok(RequestErrorCode::InvalidJoiningRequestId),
            _ => Err(ParseError::InvalidType { context: "RequestErrorCode::try_from(u64)", value: value as u64 }),
        }
    }
}

impl TryFromSpecImpl<u64> for RequestErrorCode {
    open spec fn obeys_try_from_spec() -> bool {
        true
    }

    open spec fn try_from_spec(value: u64) -> Result<Self, ParseError> {
        match RequestErrorCode::spec_from_value(value) {
            Some(x) => Ok(x),
            None => Err(ParseError::InvalidType { context: "RequestErrorCode::try_from(u64)", value: value as u64 }),
        }
    }
}

impl From<RequestErrorCode> for u64 {
    fn from(value: RequestErrorCode) -> (v: u64) {
        value.value()
    }
}

impl FromSpecImpl<RequestErrorCode> for u64 {
    open spec fn obeys_from_spec() -> bool {
        true
    }

    open spec fn from_spec(value: RequestErrorCode) -> u64 {
        value.spec_value()
    }
}
/// Track status codes.
#[derive(Debug, Clone, Copy, PartialEq, Eq, Structural)]
pub enum TrackStatusCode {
    InProgress,
    DoesNotExist,
    NotYetBegun,
    Finished,
    RelayUnavailable,
}

impl TrackStatusCode {
    /// The codepoint of this variant.
    pub open spec fn spec_value(self) -> u64 {
        match self {
            TrackStatusCode::InProgress => 0x00,
            TrackStatusCode::DoesNotExist => 0x01,
            TrackStatusCode::NotYetBegun => 0x02,
            TrackStatusCode::Finished => 0x03,
            TrackStatusCode::RelayUnavailable => 0x04,
        }
    }

    /// The variant a codepoint names, if any.
    pub open spec fn spec_from_value(value: u64) -> Option<TrackStatusCode> {
        if value == 0x00 {
            Some(TrackStatusCode::InProgress)
        } else if value == 0x01 {
            Some(TrackStatusCode::DoesNotExist)
        } else if value == 0x02 {
            Some(TrackStatusCode::NotYetBegun)
        } else if value == 0x03 {
            Some(TrackStatusCode::Finished)
        } else if value == 0x04 {
            Some(TrackStatusCode::RelayUnavailable)
        } else {
            None
        }
    }

    /// Codepoints and variants correspond one to one.
    pub proof fn lemma_codepoints(self, value: u64)
        ensures
            TrackStatusCode::spec_from_value(self.spec_value()) == Some(self),
            TrackStatusCode::spec_from_value(value) == Some(self) ==> self.spec_value() == value,
    {
    }

    /// The codepoint of this variant.
    pub fn value(self) -> (v: u64)
        ensures
            v == self.spec_value(),
    {
        match self {
            TrackStatusCode::InProgress => 0x00,
            TrackStatusCode::DoesNotExist => 0x01,
            TrackStatusCode::NotYetBegun => 0x02,
            TrackStatusCode::Finished => 0x03,
            TrackStatusCode::RelayUnavailable => 0x04,
        }
    }
}

impl TryFrom<u64> for TrackStatusCode {
    type Error = ParseError;

    fn try_from(value: u64) -> (r: Result<Self, Self::Error>) {
        match value {
            0x00 => Ok(TrackStatusCode::InProgress),
            0x01 => Ok(TrackStatusCode::DoesNotExist),
            0x02 => Ok(TrackStatusCode::NotYetBegun),
            0x03 => Ok(TrackStatusCode::Finished),
            0x04 => Ok(TrackStatusCode::RelayUnavailable),
            _ => Err(ParseError::InvalidType { context: "TrackStatusCode::try_from(u64)", value: value as u64 }),
        }
    }
}

impl TryFromSpecImpl<u64> for TrackStatusCode {
    open spec fn obeys_try_from_spec() -> bool {
        true
    }

    open spec fn try_from_spec(value: u64) -> Result<Self, ParseError> {
        match TrackStatusCode::spec_from_value(value) {
            Some(x) => Ok(x),
            None => Err(ParseError::InvalidType { context: "TrackStatusCode::try_from(u64)", value: value as u64 }),
        }
    }
}

impl From<TrackStatusCode> for u64 {
    fn from(value: TrackStatusCode) -> (v: u64) {
        value.value()
    }
}

impl FromSpecImpl<TrackStatusCode> for u64 {
    open spec fn obeys_from_spec() -> bool {
        true
    }

    open spec fn from_spec(value: TrackStatusCode) -> u64 {
        value.spec_value()
    }
}
/// Subscribe-done status codes.
#[derive(Debug, Clone, Copy, PartialEq, Eq, Structural)]
pub enum SubscribeDoneStatusCode {
    InternalError,
    Unauthorized,
    TrackEnded,
    SubscriptionEnded,
    GoingAway,
    Expired,
    TooFarBehind,
}

impl SubscribeDoneStatusCode {
    /// The codepoint of this variant.
    pub open spec fn spec_value(self) -> u64 {
        match self {
            SubscribeDoneStatusCode::InternalError => 0x0,
            SubscribeDoneStatusCode::Unauthorized => 0x1,
            SubscribeDoneStatusCode::TrackEnded => 0x2,
            SubscribeDoneStatusCode::SubscriptionEnded => 0x3,
            SubscribeDoneStatusCode::GoingAway => 0x4,
            SubscribeDoneStatusCode::Expired => 0x5,
            SubscribeDoneStatusCode::TooFarBehind => 0x6,
        }
    }

    /// The variant a codepoint names, if any.
    pub open spec fn spec_from_value(value: u64) -> Option<SubscribeDoneStatusCode> {
        if value == 0x0 {
            Some(SubscribeDoneStatusCode::InternalError)
        } else if value == 0x1 {
            Some(SubscribeDoneStatusCode::Unauthorized)
        } else if value == 0x2 {
            Some(SubscribeDoneStatusCode::TrackEnded)
        } else if value == 0x3 {
            Some(SubscribeDoneStatusCode::SubscriptionEnded)
        } else if value == 0x4 {
            Some(SubscribeDoneStatusCode::GoingAway)
        } else if value == 0x5 {
            Some(SubscribeDoneStatusCode::Expired)
        } else if value == 0x6 {
            Some(SubscribeDoneStatusCode::TooFarBehind)
        } else {
            None
        }
    }

    /// Codepoints and variants correspond one to one.
    pub proof fn lemma_codepoints(self, value: u64)
        ensures
            SubscribeDoneStatusCode::spec_from_value(self.spec_value()) == Some(self),
            SubscribeDoneStatusCode::spec_from_value(value) == Some(self) ==> self.spec_value() == value,
    {
    }

    /// The codepoint of this variant.
    pub fn value(self) -> (v: u64)
        ensures
            v == self.spec_value(),
    {
        match self {
            SubscribeDoneStatusCode::InternalError => 0x0,
            SubscribeDoneStatusCode::Unauthorized => 0x1,
            SubscribeDoneStatusCode::TrackEnded => 0x2,
            SubscribeDoneStatusCode::SubscriptionEnded => 0x3,
            SubscribeDoneStatusCode::GoingAway => 0x4,
            SubscribeDoneStatusCode::Expired => 0x5,
            SubscribeDoneStatusCode::TooFarBehind => 0x6,
        }
    }
}

impl TryFrom<u64> for SubscribeDoneStatusCode {
    type Error = ParseError;

    fn try_from(value: u64) -> (r: Result<Self, Self::Error>) {
        match value {
            0x0 => Ok(SubscribeDoneStatusCode::InternalError),
            0x1 => Ok(SubscribeDoneStatusCode::Unauthorized),
            0x2 => Ok(SubscribeDoneStatusCode::TrackEnded),
            0x3 => Ok(SubscribeDoneStatusCode::SubscriptionEnded),
            0x4 => Ok(SubscribeDoneStatusCode::GoingAway),
            0x5 => Ok(SubscribeDoneStatusCode::Expired),
            0x6 => Ok(SubscribeDoneStatusCode::TooFarBehind),
            _ => Err(ParseError::InvalidType { context: "SubscribeDoneStatusCode::try_from(u64)", value: value as u64 }),
        }
    }
}

impl TryFromSpecImpl<u64> for SubscribeDoneStatusCode {
    open spec fn obeys_try_from_spec() -> bool {
        true
    }

    open spec fn try_from_spec(value: u64) -> Result<Self, ParseError> {
        match SubscribeDoneStatusCode::spec_from_value(value) {
            Some(x) => Ok(x),
            None => Err(ParseError::InvalidType { context: "SubscribeDoneStatusCode::try_from(u64)", value: value as u64 }),
        }
    }
}

impl From<SubscribeDoneStatusCode> for u64 {
    fn from(value: SubscribeDoneStatusCode) -> (v: u64) {
        value.value()
    }
}

impl FromSpecImpl<SubscribeDoneStatusCode> for u64 {
    open spec fn obeys_from_spec() -> bool {
        true
    }

    open spec fn from_spec(value: SubscribeDoneStatusCode) -> u64 {
        value.spec_value()
    }
}
/// Publish-done status codes.
#[derive(Debug, Clone, Copy, PartialEq, Eq, Structural)]
pub enum PublishDoneStatusCode {
    InternalError,
    Unauthorized,
    TrackEnded,
    SubscriptionEnded,
    GoingAway,
    Expired,
    TooFarBehind,
    UpdateFailed,
    MalformedTrack,
}

impl PublishDoneStatusCode {
    /// The codepoint of this variant.
    pub open spec fn spec_value(self) -> u64 {
        match self {
            PublishDoneStatusCode::InternalError => 0x0,
            PublishDoneStatusCode::Unauthorized => 0x1,
            PublishDoneStatusCode::TrackEnded => 0x2,
            PublishDoneStatusCode::SubscriptionEnded => 0x3,
            PublishDoneStatusCode::GoingAway => 0x4,
            PublishDoneStatusCode::Expired => 0x5,
            PublishDoneStatusCode::TooFarBehind => 0x6,
            PublishDoneStatusCode::UpdateFailed => 0x8,
            PublishDoneStatusCode::MalformedTrack => 0x12,
        }
    }

    /// The variant a codepoint names, if any.
    pub open spec fn spec_from_value(value: u64) -> Option<PublishDoneStatusCode> {
        if value == 0x0 {
            Some(PublishDoneStatusCode::InternalError)
        } else if value == 0x1 {
            Some(PublishDoneStatusCode::Unauthorized)
        } else if value == 0x2 {
            Some(PublishDoneStatusCode::TrackEnded)
        } else if value == 0x3 {
            Some(PublishDoneStatusCode::SubscriptionEnded)
        } else if value == 0x4 {
            Some(PublishDoneStatusCode::GoingAway)
        } else if value == 0x5 {
            Some(PublishDoneStatusCode::Expired)
        } else if value == 0x6 {
            Some(PublishDoneStatusCode::TooFarBehind)
        } else if value == 0x8 {
            Some(PublishDoneStatusCode::UpdateFailed)
        } else if value == 0x12 {
            Some(PublishDoneStatusCode::MalformedTrack)
        } else {
            None
        }
    }

    /// Codepoints and variants correspond one to one.
    pub proof fn lemma_codepoints(self, value: u64)
        ensures
            PublishDoneStatusCode::spec_from_value(self.spec_value()) == Some(self),
            PublishDoneStatusCode::spec_from_value(value) == Some(self) ==> self.spec_value() == value,
    {
    }

    /// The codepoint of this variant.
    pub fn value(self) -> (v: u64)
        ensures
            v == self.spec_value(),
    {
        match self {
            PublishDoneStatusCode::InternalError => 0x0,
            PublishDoneStatusCode::Unauthorized => 0x1,
            PublishDoneStatusCode::TrackEnded => 0x2,
            PublishDoneStatusCode::SubscriptionEnded => 0x3,
            PublishDoneStatusCode::GoingAway => 0x4,
            PublishDoneStatusCode::Expired => 0x5,
            PublishDoneStatusCode::TooFarBehind => 0x6,
            PublishDoneStatusCode::UpdateFailed => 0x8,
            PublishDoneStatusCode::MalformedTrack => 0x12,
        }
    }
}

impl TryFrom<u64> for PublishDoneStatusCode {
    type Error = ParseError;

    fn try_from(value: u64) -> (r: Result<Self, Self::Error>) {
        match value {
            0x0 => Ok(PublishDoneStatusCode::InternalError),
            0x1 => Ok(PublishDoneStatusCode::Unauthorized),
            0x2 => Ok(PublishDoneStatusCode::TrackEnded),
            0x3 => Ok(PublishDoneStatusCode::SubscriptionEnded),
            0x4 => Ok(PublishDoneStatusCode::GoingAway),
            0x5 => Ok(PublishDoneStatusCode::Expired),
            0x6 => Ok(PublishDoneStatusCode::TooFarBehind),
            0x8 => Ok(PublishDoneStatusCode::UpdateFailed),
            0x12 => Ok(PublishDoneStatusCode::MalformedTrack),
            _ => Err(ParseError::InvalidType { context: "PublishDoneStatusCode::try_from(u64)", value: value as u64 }),
        }
    }
}

impl TryFromSpecImpl<u64> for PublishDoneStatusCode {
    open spec fn obeys_try_from_spec() -> bool {
        true
    }

    open spec fn try_from_spec(value: u64) -> Result<Self, ParseError> {
        match PublishDoneStatusCode::spec_from_value(value) {
            Some(x) => Ok(x),
            None => Err(ParseError::InvalidType { context: "PublishDoneStatusCode::try_from(u64)", value: value as u64 }),
        }
    }
}

impl From<PublishDoneStatusCode> for u64 {
    fn from(value: PublishDoneStatusCode) -> (v: u64) {
        value.value()
    }
}

impl FromSpecImpl<PublishDoneStatusCode> for u64 {
    open spec fn obeys_from_spec() -> bool {
        true
    }

    open spec fn from_spec(value: PublishDoneStatusCode) -> u64 {
        value.spec_value()
    }
}
} // verus!
