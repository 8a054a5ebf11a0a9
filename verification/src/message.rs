//! SSH message types and their wire numbers (RFC 4250 section 4.1).

use vstd::prelude::*;

verus! {

/// The type of an SSH packet: the first byte of its payload.
#[derive(Clone, Copy, PartialEq, Eq, Structural, Debug)]
pub enum MessageType {
    Disconnect,
    Ignore,
    Unimplemented,
    Debug,
    ServiceRequest,
    ServiceAccept,
    KexInit,
    NewKeys,
    KeyExchange(u8),
    UserAuthRequest,
    UserAuthFailure,
    UserAuthSuccess,
    UserAuthBanner,
    UserAuth(u8),
    GlobalRequest,
    RequestSuccess,
    RequestFailure,
    ChannelOpen,
    ChannelOpenConfirmation,
    ChannelOpenFailure,
    ChannelWindowAdjust,
    ChannelData,
    ChannelExtendedData,
    ChannelEOF,
    ChannelClose,
    ChannelRequest,
    ChannelSuccess,
    ChannelFailure,
    Unknown,
}

impl MessageType {
    /// The message type a wire number denotes.
    pub open spec fn spec_from_u8(id: u8) -> MessageType {
        if id == 1 {
            MessageType::Disconnect
        } else if id == 2 {
            MessageType::Ignore
        } else if id == 3 {
            MessageType::Unimplemented
        } else if id == 4 {
            MessageType::Debug
        } else if id == 5 {
            MessageType::ServiceRequest
        } else if id == 6 {
            MessageType::ServiceAccept
        } else if id == 20 {
            MessageType::KexInit
        } else if id == 21 {
            MessageType::NewKeys
        } else if 30 <= id && id <= 49 {
            MessageType::KeyExchange(id)
        } else if id == 50 {
            MessageType::UserAuthRequest
        } else if id == 51 {
            MessageType::UserAuthFailure
        } else if id == 52 {
            MessageType::UserAuthSuccess
        } else if id == 53 {
            MessageType::UserAuthBanner
        } else if 60 <= id && id <= 79 {
            MessageType::UserAuth(id)
        } else if id == 80 {
            MessageType::GlobalRequest
        } else if id == 81 {
            MessageType::RequestSuccess
        } else if id == 82 {
            MessageType::RequestFailure
        } else if id == 90 {
            MessageType::ChannelOpen
        } else if id == 91 {
            MessageType::ChannelOpenConfirmation
        } else if id == 92 {
            MessageType::ChannelOpenFailure
        } else if id == 93 {
            MessageType::ChannelWindowAdjust
        } else if id == 94 {
            MessageType::ChannelData
        } else if id == 95 {
            MessageType::ChannelExtendedData
        } else if id == 96 {
            MessageType::ChannelEOF
        } else if id == 97 {
            MessageType::ChannelClose
        } else if id == 98 {
            MessageType::ChannelRequest
        } else if id == 99 {
            MessageType::ChannelSuccess
        } else if id == 100 {
            MessageType::ChannelFailure
        } else {
            MessageType::Unknown
        }
    }

    /// The wire number of a message type.
    pub open spec fn spec_to_u8(self) -> u8 {
        match self {
            MessageType::Disconnect => 1,
            MessageType::Ignore => 2,
            MessageType::Unimplemented => 3,
            MessageType::Debug => 4,
            MessageType::ServiceRequest => 5,
            MessageType::ServiceAccept => 6,
            MessageType::KexInit => 20,
            MessageType::NewKeys => 21,
            MessageType::KeyExchange(id) => id,
            MessageType::UserAuthRequest => 50,
            MessageType::UserAuthFailure => 51,
            MessageType::UserAuthSuccess => 52,
            MessageType::UserAuthBanner => 53,
            MessageType::UserAuth(id) => id,
            MessageType::GlobalRequest => 80,
            MessageType::RequestSuccess => 81,
            MessageType::RequestFailure => 82,
            MessageType::ChannelOpen => 90,
            MessageType::ChannelOpenConfirmation => 91,
            MessageType::ChannelOpenFailure => 92,
            MessageType::ChannelWindowAdjust => 93,
            MessageType::ChannelData => 94,
            MessageType::ChannelExtendedData => 95,
            MessageType::ChannelEOF => 96,
            MessageType::ChannelClose => 97,
            MessageType::ChannelRequest => 98,
            MessageType::ChannelSuccess => 99,
            MessageType::ChannelFailure => 100,
            MessageType::Unknown => 255,
        }
    }

    /// Well-formed: the ranged variants carry numbers of their range, and
    /// `Unknown` stands for no assigned number.
    pub open spec fn wf(self) -> bool {
        match self {
            MessageType::KeyExchange(id) => 30 <= id && id <= 49,
            MessageType::UserAuth(id) => 60 <= id && id <= 79,
            _ => true,
        }
    }

    /// The message type a wire number denotes.
    pub fn from_u8(id: u8) -> (r: MessageType)
        ensures
            r == MessageType::spec_from_u8(id),
            r.wf(),
    {
        if id == 1 {
            MessageType::Disconnect
        } else if id == 2 {
            MessageType::Ignore
        } else if id == 3 {
            MessageType::Unimplemented
        } else if id == 4 {
            MessageType::Debug
        } else if id == 5 {
            MessageType::ServiceRequest
        } else if id == 6 {
            MessageType::ServiceAccept
        } else if id == 20 {
            MessageType::KexInit
        } else if id == 21 {
            MessageType::NewKeys
        } else if 30 <= id && id <= 49 {
            MessageType::KeyExchange(id)
        } else if id == 50 {
            MessageType::UserAuthRequest
        } else if id == 51 {
            MessageType::UserAuthFailure
        } else if id == 52 {
            MessageType::UserAuthSuccess
        } else if id == 53 {
            MessageType::UserAuthBanner
        } else if 60 <= id && id <= 79 {
            MessageType::UserAuth(id)
        } else if id == 80 {
            MessageType::GlobalRequest
        } else if id == 81 {
            MessageType::RequestSuccess
        } else if id == 82 {
            MessageType::RequestFailure
        } else if id == 90 {
            MessageType::ChannelOpen
        } else if id == 91 {
            MessageType::ChannelOpenConfirmation
        } else if id == 92 {
            MessageType::ChannelOpenFailure
        } else if id == 93 {
            MessageType::ChannelWindowAdjust
        } else if id == 94 {
            MessageType::ChannelData
        } else if id == 95 {
            MessageType::ChannelExtendedData
        } else if id == 96 {
            MessageType::ChannelEOF
        } else if id == 97 {
            MessageType::ChannelClose
        } else if id == 98 {
            MessageType::ChannelRequest
        } else if id == 99 {
            MessageType::ChannelSuccess
        } else if id == 100 {
            MessageType::ChannelFailure
        } else {
            MessageType::Unknown
        }
    }

    /// The wire number of a message type.
    pub fn to_u8(self) -> (r: u8)
        ensures
            r == self.spec_to_u8(),
    {
        match self {
            MessageType::Disconnect => 1,
            MessageType::Ignore => 2,
            MessageType::Unimplemented => 3,
            MessageType::Debug => 4,
            MessageType::ServiceRequest => 5,
            MessageType::ServiceAccept => 6,
            MessageType::KexInit => 20,
            MessageType::NewKeys => 21,
            MessageType::KeyExchange(id) => id,
            MessageType::UserAuthRequest => 50,
            MessageType::UserAuthFailure => 51,
            MessageType::UserAuthSuccess => 52,
            MessageType::UserAuthBanner => 53,
            MessageType::UserAuth(id) => id,
            MessageType::GlobalRequest => 80,
            MessageType::RequestSuccess => 81,
            MessageType::RequestFailure => 82,
            MessageType::ChannelOpen => 90,
            MessageType::ChannelOpenConfirmation => 91,
            MessageType::ChannelOpenFailure => 92,
            MessageType::ChannelWindowAdjust => 93,
            MessageType::ChannelData => 94,
            MessageType::ChannelExtendedData => 95,
            MessageType::ChannelEOF => 96,
            MessageType::ChannelClose => 97,
            MessageType::ChannelRequest => 98,
            MessageType::ChannelSuccess => 99,
            MessageType::ChannelFailure => 100,
            MessageType::Unknown => 255,
        }
    }
}

/// A well-formed message type maps to its number and back to itself.
pub proof fn lemma_message_type_round_trip(m: MessageType)
    requires
        m.wf(),
    ensures
        MessageType::spec_from_u8(m.spec_to_u8()) == m,
{
}

} // verus!
