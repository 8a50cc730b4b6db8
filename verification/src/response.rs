//! Builders of complete frames: the tag byte followed by the payload, ready
//! to be sent.
//!
//! A Data frame has two shapes on the wire. The headered shape carries the
//! routing fields and the length of the body; the raw shape carries the
//! forwarded bytes alone and relies on a session that both ends already
//! know. Both start with the Data tag and nothing in the frame tells them
//! apart, so the caller names the shape: [`DataFrame::Headered`] or
//! [`DataFrame::Raw`].

use vstd::prelude::*;
use crate::data::DataMessage;
use crate::fin::{FinMessage, FinView};
use crate::tag::MessageType;

verus! {

/// The frame that acknowledges a handshake: the tag alone.
pub fn create_handshake_ok_response() -> (frame: Vec<u8>)
    ensures
        frame@ == seq![MessageType::HandshakeOK.byte()],
{
    let mut frame: Vec<u8> = Vec::new();
    frame.push(MessageType::HandshakeOK.to_byte());
    assert(frame@ =~= seq![MessageType::HandshakeOK.byte()]);
    frame
}

/// A Data frame of the raw shape: the Data tag followed by `data` as it
/// is, with no header.
pub fn create_data_response(data: Vec<u8>) -> (frame: Vec<u8>)
    ensures
        frame@ == seq![MessageType::Data.byte()] + data@,
{
    let mut frame: Vec<u8> = Vec::new();
    frame.push(MessageType::Data.to_byte());
    frame.extend_from_slice(data.as_slice());
    assert(frame@ =~= seq![MessageType::Data.byte()] + data@);
    frame
}

/// The frame that ends a session: the Fin tag followed by the payload of
/// the Fin message with these fields.
pub fn create_fin_response(
    controlled_id: [u8; 10],
    controller_id: [u8; 10],
    session_id: [u8; 4],
    source_type: u8,
) -> (frame: Vec<u8>)
    ensures
        frame@ == seq![MessageType::Fin.byte()] + (FinView {
            controlled_id: controlled_id@,
            controller_id: controller_id@,
            session_id: session_id@,
            source_type,
        }).wire(),
{
    let message = FinMessage::new(controlled_id, controller_id, session_id, source_type);
    let mut frame: Vec<u8> = Vec::new();
    frame.push(MessageType::Fin.to_byte());
    message.write_to(&mut frame);
    assert(frame@ =~= seq![MessageType::Fin.byte()] + message@.wire());
    frame
}

/// The two shapes of a Data frame.
#[derive(Debug, PartialEq, Eq)]
pub enum DataFrame {
    /// Routing fields, length and body: opens or continues a tracked
    /// session.
    Headered(DataMessage),
    /// The forwarded bytes alone, within a session known by other means.
    Raw(Vec<u8>),
}

impl DataFrame {
    /// The frame can be encoded: a headered body fits the length field.
    pub open spec fn encodable(&self) -> bool {
        match self {
            DataFrame::Headered(message) => message.data@.len() <= u32::MAX,
            DataFrame::Raw(_) => true,
        }
    }

    /// The bytes of the frame, tag included.
    pub open spec fn wire(&self) -> Seq<u8> {
        match self {
            DataFrame::Headered(message) => seq![MessageType::Data.byte()] + message@.wire(),
            DataFrame::Raw(bytes) => seq![MessageType::Data.byte()] + bytes@,
        }
    }

    /// Encodes the frame in the shape that it names.
    pub fn encode(&self) -> (frame: Vec<u8>)
        requires
            self.encodable(),
        ensures
            frame@ == self.wire(),
    {
        let mut frame: Vec<u8> = Vec::new();
        frame.push(MessageType::Data.to_byte());
        match self {
            DataFrame::Headered(message) => {
                message.write_to(&mut frame);
            },
            DataFrame::Raw(bytes) => {
                frame.extend_from_slice(bytes.as_slice());
            },
        }
        assert(frame@ =~= self.wire());
        frame
    }
}

} // verus!
