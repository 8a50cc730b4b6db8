//! The one-byte tag that precedes every message on the wire.

use vstd::prelude::*;
use vstd::std_specs::convert::{FromSpecImpl, TryFromSpecImpl};
use crate::error::ProtoError;

verus! {

/// Source type of a message that the controller originated.
pub const SOURCE_TYPE_CONTROLLER: u8 = 1;

/// Source type of a message that the controlled endpoint originated.
pub const SOURCE_TYPE_CONTROLLED: u8 = 2;

/// Whether `b` is one of the two assigned source types.
pub open spec fn is_source_type(b: u8) -> bool {
    b == SOURCE_TYPE_CONTROLLER || b == SOURCE_TYPE_CONTROLLED
}

/// Tells whether `b` names a source. The decoders carry the source type
/// through without looking at it; this is the test for a caller that must
/// know.
pub fn is_valid_source_type(b: u8) -> (ok: bool)
    ensures
        ok == is_source_type(b),
{
    b == SOURCE_TYPE_CONTROLLER || b == SOURCE_TYPE_CONTROLLED
}

/// Kind of a message, selected by the first byte of its frame.
#[derive(Debug, Clone, Copy, PartialEq, Eq, Structural)]
pub enum MessageType {
    /// Registration of an endpoint (tag 1).
    Handshake,
    /// Acknowledgment of a handshake (tag 2); carries no payload.
    HandshakeOK,
    /// Forwarded session data (tag 3).
    Data,
    /// Orderly end of a session (tag 4).
    Fin,
}

impl MessageType {
    /// The byte assigned to this tag.
    pub open spec fn byte(self) -> u8 {
        match self {
            MessageType::Handshake => 1,
            MessageType::HandshakeOK => 2,
            MessageType::Data => 3,
            MessageType::Fin => 4,
        }
    }

    /// The tag that `b` is assigned to, if any.
    pub open spec fn of_byte(b: u8) -> Result<MessageType, ProtoError> {
        if b == 1 {
            Ok(MessageType::Handshake)
        } else if b == 2 {
            Ok(MessageType::HandshakeOK)
        } else if b == 3 {
            Ok(MessageType::Data)
        } else if b == 4 {
            Ok(MessageType::Fin)
        } else {
            Err(ProtoError::UnknownMessageType(b))
        }
    }

    /// Encodes the tag. Total: every tag has its byte.
    pub fn to_byte(self) -> (b: u8)
        ensures
            b == self.byte(),
            1 <= b <= 4,
    {
        match self {
            MessageType::Handshake => 1,
            MessageType::HandshakeOK => 2,
            MessageType::Data => 3,
            MessageType::Fin => 4,
        }
    }

    /// Decodes a tag byte. Bytes outside `1..=4` are reported with the
    /// offending byte and never abort.
    pub fn from_byte(b: u8) -> (r: Result<MessageType, ProtoError>)
        ensures
            r == Self::of_byte(b),
            r is Ok <==> 1 <= b <= 4,
            r is Ok ==> r->Ok_0.byte() == b,
            r is Err ==> r->Err_0 == ProtoError::UnknownMessageType(b),
    {
        match b {
            1 => Ok(MessageType::Handshake),
            2 => Ok(MessageType::HandshakeOK),
            3 => Ok(MessageType::Data),
            4 => Ok(MessageType::Fin),
            _ => Err(ProtoError::UnknownMessageType(b)),
        }
    }

    /// Every tag is recovered from its byte.
    pub proof fn lemma_tag_round_trip(tag: MessageType)
        ensures
            Self::of_byte(tag.byte()) == Ok::<MessageType, ProtoError>(tag),
    {
    }

    /// A byte that decodes to a tag is the byte of that tag, and bytes
    /// outside `1..=4` decode to no tag.
    pub proof fn lemma_byte_round_trip(b: u8)
        ensures
            Self::of_byte(b) is Ok <==> 1 <= b <= 4,
            Self::of_byte(b) is Ok ==> Self::of_byte(b)->Ok_0.byte() == b,
            Self::of_byte(b) is Err ==> Self::of_byte(b) == Err::<MessageType, ProtoError>(
                ProtoError::UnknownMessageType(b),
            ),
    {
    }
}

impl From<MessageType> for u8 {
    fn from(value: MessageType) -> (b: u8) {
        value.to_byte()
    }
}

impl FromSpecImpl<MessageType> for u8 {
    open spec fn obeys_from_spec() -> bool {
        true
    }

    open spec fn from_spec(value: MessageType) -> u8 {
        value.byte()
    }
}

impl TryFrom<u8> for MessageType {
    type Error = ProtoError;

    fn try_from(value: u8) -> (r: Result<MessageType, ProtoError>) {
        MessageType::from_byte(value)
    }
}

impl TryFromSpecImpl<u8> for MessageType {
    open spec fn obeys_try_from_spec() -> bool {
        true
    }

    open spec fn try_from_spec(value: u8) -> Result<MessageType, ProtoError> {
        MessageType::of_byte(value)
    }
}

} // verus!
