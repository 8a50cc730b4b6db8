//! The Handshake message: an endpoint announces its identifier.

use vstd::prelude::*;
use crate::error::ProtoError;
use crate::layout::{HANDSHAKE_ID_OFFSET, HANDSHAKE_LEN, ID_LEN};
use crate::wire::{append, window};

verus! {

/// Registration of an endpoint. The identifier is an opaque token.
#[derive(Debug, PartialEq, Eq)]
pub struct HandshakeMessage {
    /// Identifier of the connecting endpoint.
    pub id: [u8; 10],
}

/// Mathematical value of a [`HandshakeMessage`].
pub struct HandshakeView {
    pub id: Seq<u8>,
}

impl HandshakeView {
    /// The identifier has its width.
    pub open spec fn wf(self) -> bool {
        self.id.len() == ID_LEN
    }

    /// The payload bytes of the message: the identifier as it is.
    pub open spec fn wire(self) -> Seq<u8> {
        self.id
    }
}

impl View for HandshakeMessage {
    type V = HandshakeView;

    open spec fn view(&self) -> HandshakeView {
        HandshakeView { id: self.id@ }
    }
}

/// The fields of the Handshake message that starts at the front of `bytes`.
pub open spec fn handshake_fields(bytes: Seq<u8>) -> HandshakeView
    recommends
        bytes.len() >= HANDSHAKE_LEN,
{
    HandshakeView { id: bytes.subrange(HANDSHAKE_ID_OFFSET as int, HANDSHAKE_ID_OFFSET + ID_LEN) }
}

/// Decoding of a buffered Handshake message. Bytes after the payload are
/// not looked at.
pub open spec fn decode_handshake(bytes: Seq<u8>) -> Result<HandshakeView, ProtoError> {
    if bytes.len() < HANDSHAKE_LEN {
        Err(ProtoError::TruncatedMessage)
    } else {
        Ok(handshake_fields(bytes))
    }
}

/// Reading of a Handshake message from the front of a stream that holds
/// `bytes`: the message and the bytes that stay in the stream.
pub open spec fn read_handshake(bytes: Seq<u8>) -> Result<(HandshakeView, Seq<u8>), ProtoError> {
    if bytes.len() < HANDSHAKE_LEN {
        Err(ProtoError::IoError)
    } else {
        Ok((handshake_fields(bytes), bytes.skip(HANDSHAKE_LEN as int)))
    }
}

/// Round trip of a buffered message: decoding the encoding of a message,
/// followed by anything, gives the message back.
pub proof fn lemma_handshake_round_trip(v: HandshakeView, rest: Seq<u8>)
    requires
        v.wf(),
    ensures
        v.wire().len() == HANDSHAKE_LEN,
        decode_handshake(v.wire()) == Ok::<HandshakeView, ProtoError>(v),
        decode_handshake(v.wire() + rest) == Ok::<HandshakeView, ProtoError>(v),
{
    assert(handshake_fields(v.wire()).id =~= v.id);
    assert(handshake_fields(v.wire() + rest).id =~= v.id);
}

/// Round trip through a stream: reading from a stream that starts with the
/// encoding of a message gives the message back and leaves exactly the
/// bytes that followed it.
pub proof fn lemma_handshake_stream_round_trip(v: HandshakeView, rest: Seq<u8>)
    requires
        v.wf(),
    ensures
        read_handshake(v.wire() + rest) == Ok::<(HandshakeView, Seq<u8>), ProtoError>((v, rest)),
{
    lemma_handshake_round_trip(v, rest);
    assert((v.wire() + rest).skip(HANDSHAKE_LEN as int) =~= rest);
}

/// Decoding loses nothing: a stream from which a message can be read is
/// the encoding of that message followed by the bytes that stay.
pub proof fn lemma_handshake_decoding_is_exact(bytes: Seq<u8>)
    ensures
        read_handshake(bytes) is Ok ==> read_handshake(bytes)->Ok_0.0.wf() && read_handshake(
            bytes,
        )->Ok_0.0.wire() + read_handshake(bytes)->Ok_0.1 == bytes,
        decode_handshake(bytes) is Ok ==> decode_handshake(bytes)->Ok_0.wire() == bytes.take(
            HANDSHAKE_LEN as int,
        ),
{
    if bytes.len() >= HANDSHAKE_LEN {
        let v = handshake_fields(bytes);
        assert(v.wire() + bytes.skip(HANDSHAKE_LEN as int) =~= bytes);
        assert(v.wire() =~= bytes.take(HANDSHAKE_LEN as int));
    }
}

/// Truncation of a buffered message: it is rejected, as truncated, exactly
/// when it holds fewer bytes than the identifier.
pub proof fn lemma_handshake_truncation(bytes: Seq<u8>)
    ensures
        bytes.len() < HANDSHAKE_LEN ==> decode_handshake(bytes) == Err::<
            HandshakeView,
            ProtoError,
        >(ProtoError::TruncatedMessage),
        bytes.len() >= HANDSHAKE_LEN ==> decode_handshake(bytes) == Ok::<
            HandshakeView,
            ProtoError,
        >(handshake_fields(bytes)) && handshake_fields(bytes).wf(),
{
}

impl HandshakeMessage {
    /// Builds a message from the identifier.
    pub fn new(id: [u8; 10]) -> (m: Self)
        ensures
            m.id == id,
    {
        HandshakeMessage { id }
    }

    /// Reads one message from the front of an in-memory stream and leaves
    /// the stream at the byte after it. When the stream ends before the
    /// identifier is complete, nothing is consumed.
    pub fn read_from(reader: &mut &[u8]) -> (r: Result<Self, ProtoError>)
        ensures
            match r {
                Ok(m) => read_handshake(old(reader)@) == Ok::<
                    (HandshakeView, Seq<u8>),
                    ProtoError,
                >((m@, final(reader)@)),
                Err(e) => read_handshake(old(reader)@) == Err::<
                    (HandshakeView, Seq<u8>),
                    ProtoError,
                >(e) && final(reader)@ == old(reader)@,
            },
    {
        let stream: &[u8] = *reader;
        if stream.len() < HANDSHAKE_LEN {
            return Err(ProtoError::IoError);
        }
        let m = HandshakeMessage::new(window(stream, HANDSHAKE_ID_OFFSET));
        *reader = &stream[HANDSHAKE_LEN..stream.len()];
        assert(reader@ =~= old(reader)@.skip(HANDSHAKE_LEN as int));
        Ok(m)
    }

    /// Appends the identifier to `writer`, with no tag byte.
    pub fn write_to(&self, writer: &mut Vec<u8>)
        ensures
            final(writer)@ == old(writer)@ + self@.wire(),
    {
        append(writer, &self.id);
    }
}

/// Decodes a buffered Handshake message from the front of `data`. It is
/// rejected exactly when `data` holds fewer bytes than the identifier.
pub fn handle_handshake_message(data: &[u8]) -> (r: Result<HandshakeMessage, ProtoError>)
    ensures
        match r {
            Ok(m) => decode_handshake(data@) == Ok::<HandshakeView, ProtoError>(m@),
            Err(e) => decode_handshake(data@) == Err::<HandshakeView, ProtoError>(e),
        },
{
    if data.len() < HANDSHAKE_LEN {
        Err(ProtoError::TruncatedMessage)
    } else {
        Ok(HandshakeMessage::new(window(data, HANDSHAKE_ID_OFFSET)))
    }
}

} // verus!
