//! The Fin message: the orderly end of one session.

use vstd::prelude::*;
use crate::error::ProtoError;
use crate::tag::{is_source_type, is_valid_source_type};
use crate::layout::{
    CONTROLLED_ID_OFFSET, CONTROLLER_ID_OFFSET, FIN_LEN, ID_LEN, SESSION_ID_LEN,
    SESSION_ID_OFFSET, SOURCE_TYPE_OFFSET,
};
use crate::wire::{append, window};

verus! {

/// Ends the session named by `controlled_id`, `controller_id` and
/// `session_id`. It has no body.
#[derive(Debug, PartialEq, Eq)]
pub struct FinMessage {
    /// Identifier of the controlled endpoint.
    pub controlled_id: [u8; 10],
    /// Identifier of the controller.
    pub controller_id: [u8; 10],
    /// Session within the pair of endpoints.
    pub session_id: [u8; 4],
    /// Which side originated the message.
    pub source_type: u8,
}

/// Mathematical value of a [`FinMessage`].
pub struct FinView {
    pub controlled_id: Seq<u8>,
    pub controller_id: Seq<u8>,
    pub session_id: Seq<u8>,
    pub source_type: u8,
}

impl FinView {
    /// The fields have their widths.
    pub open spec fn wf(self) -> bool {
        &&& self.controlled_id.len() == ID_LEN
        &&& self.controller_id.len() == ID_LEN
        &&& self.session_id.len() == SESSION_ID_LEN
    }

    /// The message is well formed and its source is one of the two
    /// assigned values.
    pub open spec fn valid(self) -> bool {
        &&& self.wf()
        &&& is_source_type(self.source_type)
    }

    /// The payload bytes of the message.
    pub open spec fn wire(self) -> Seq<u8> {
        self.controlled_id + self.controller_id + self.session_id + seq![self.source_type]
    }
}

impl View for FinMessage {
    type V = FinView;

    open spec fn view(&self) -> FinView {
        FinView {
            controlled_id: self.controlled_id@,
            controller_id: self.controller_id@,
            session_id: self.session_id@,
            source_type: self.source_type,
        }
    }
}

/// The fields of the Fin message that starts at the front of `bytes`.
pub open spec fn fin_fields(bytes: Seq<u8>) -> FinView
    recommends
        bytes.len() >= FIN_LEN,
{
    FinView {
        controlled_id: bytes.subrange(
            CONTROLLED_ID_OFFSET as int,
            CONTROLLED_ID_OFFSET + ID_LEN,
        ),
        controller_id: bytes.subrange(
            CONTROLLER_ID_OFFSET as int,
            CONTROLLER_ID_OFFSET + ID_LEN,
        ),
        session_id: bytes.subrange(SESSION_ID_OFFSET as int, SESSION_ID_OFFSET + SESSION_ID_LEN),
        source_type: bytes[SOURCE_TYPE_OFFSET as int],
    }
}

/// Decoding of a buffered Fin message. Bytes after the payload are not
/// looked at.
pub open spec fn decode_fin(bytes: Seq<u8>) -> Result<FinView, ProtoError> {
    if bytes.len() < FIN_LEN {
        Err(ProtoError::TruncatedMessage)
    } else {
        Ok(fin_fields(bytes))
    }
}

/// Reading of a Fin message from the front of a stream that holds `bytes`:
/// the message and the bytes that stay in the stream.
pub open spec fn read_fin(bytes: Seq<u8>) -> Result<(FinView, Seq<u8>), ProtoError> {
    if bytes.len() < FIN_LEN {
        Err(ProtoError::IoError)
    } else {
        Ok((fin_fields(bytes), bytes.skip(FIN_LEN as int)))
    }
}

/// Round trip of a buffered message: decoding the encoding of a message,
/// followed by anything, gives the message back, field by field.
pub proof fn lemma_fin_round_trip(v: FinView, rest: Seq<u8>)
    requires
        v.wf(),
    ensures
        v.wire().len() == FIN_LEN,
        decode_fin(v.wire()) == Ok::<FinView, ProtoError>(v),
        decode_fin(v.wire() + rest) == Ok::<FinView, ProtoError>(v),
{
    let got = fin_fields(v.wire());
    assert(got.controlled_id =~= v.controlled_id);
    assert(got.controller_id =~= v.controller_id);
    assert(got.session_id =~= v.session_id);
    let more = fin_fields(v.wire() + rest);
    assert(more.controlled_id =~= v.controlled_id);
    assert(more.controller_id =~= v.controller_id);
    assert(more.session_id =~= v.session_id);
}

/// Round trip through a stream: reading from a stream that starts with the
/// encoding of a message gives the message back and leaves exactly the
/// bytes that followed it.
pub proof fn lemma_fin_stream_round_trip(v: FinView, rest: Seq<u8>)
    requires
        v.wf(),
    ensures
        read_fin(v.wire() + rest) == Ok::<(FinView, Seq<u8>), ProtoError>((v, rest)),
{
    lemma_fin_round_trip(v, rest);
    assert((v.wire() + rest).skip(FIN_LEN as int) =~= rest);
}

/// Decoding loses nothing: a stream from which a message can be read is
/// the encoding of that message followed by the bytes that stay.
pub proof fn lemma_fin_decoding_is_exact(bytes: Seq<u8>)
    ensures
        read_fin(bytes) is Ok ==> read_fin(bytes)->Ok_0.0.wf() && read_fin(bytes)->Ok_0.0.wire()
            + read_fin(bytes)->Ok_0.1 == bytes,
        decode_fin(bytes) is Ok ==> decode_fin(bytes)->Ok_0.wire() == bytes.take(FIN_LEN as int),
{
    if bytes.len() >= FIN_LEN {
        let v = fin_fields(bytes);
        assert(v.wire() + bytes.skip(FIN_LEN as int) =~= bytes);
        assert(v.wire() =~= bytes.take(FIN_LEN as int));
    }
}

/// Truncation of a buffered message: it is rejected, as truncated, exactly
/// when it holds fewer bytes than the payload.
pub proof fn lemma_fin_truncation(bytes: Seq<u8>)
    ensures
        bytes.len() < FIN_LEN ==> decode_fin(bytes) == Err::<FinView, ProtoError>(
            ProtoError::TruncatedMessage,
        ),
        bytes.len() >= FIN_LEN ==> decode_fin(bytes) == Ok::<FinView, ProtoError>(
            fin_fields(bytes),
        ) && fin_fields(bytes).wf(),
{
}

/// Builds the message whose payload stands at the front of `frame`.
fn fin_from_frame(frame: &[u8]) -> (m: FinMessage)
    requires
        frame@.len() >= FIN_LEN,
    ensures
        m@ == fin_fields(frame@),
{
    FinMessage::new(
        window(frame, CONTROLLED_ID_OFFSET),
        window(frame, CONTROLLER_ID_OFFSET),
        window(frame, SESSION_ID_OFFSET),
        frame[SOURCE_TYPE_OFFSET],
    )
}

impl FinMessage {
    /// Builds a message from its fields.
    pub fn new(
        controlled_id: [u8; 10],
        controller_id: [u8; 10],
        session_id: [u8; 4],
        source_type: u8,
    ) -> (m: Self)
        ensures
            m.controlled_id == controlled_id,
            m.controller_id == controller_id,
            m.session_id == session_id,
            m.source_type == source_type,
    {
        FinMessage { controlled_id, controller_id, session_id, source_type }
    }

    /// Tells whether the message is valid: `source_type` is one of the two
    /// assigned values. A decoded message holds whatever the peer sent.
    pub fn is_valid(&self) -> (ok: bool)
        ensures
            ok == self@.valid(),
    {
        is_valid_source_type(self.source_type)
    }

    /// Reads one message from the front of an in-memory stream and leaves
    /// the stream at the byte after it. When the stream ends before the
    /// payload is complete, nothing is consumed.
    pub fn read_from(reader: &mut &[u8]) -> (r: Result<Self, ProtoError>)
        ensures
            match r {
                Ok(m) => read_fin(old(reader)@) == Ok::<(FinView, Seq<u8>), ProtoError>(
                    (m@, final(reader)@),
                ),
                Err(e) => read_fin(old(reader)@) == Err::<(FinView, Seq<u8>), ProtoError>(e)
                    && final(reader)@ == old(reader)@,
            },
    {
        let stream: &[u8] = *reader;
        if stream.len() < FIN_LEN {
            return Err(ProtoError::IoError);
        }
        let m = fin_from_frame(stream);
        *reader = &stream[FIN_LEN..stream.len()];
        assert(reader@ =~= old(reader)@.skip(FIN_LEN as int));
        Ok(m)
    }

    /// Appends the payload bytes of the message to `writer`, with no tag
    /// byte.
    pub fn write_to(&self, writer: &mut Vec<u8>)
        ensures
            final(writer)@ == old(writer)@ + self@.wire(),
    {
        append(writer, &self.controlled_id);
        append(writer, &self.controller_id);
        append(writer, &self.session_id);
        writer.push(self.source_type);
        assert(writer@ =~= old(writer)@ + self@.wire());
    }
}

/// Decodes a buffered Fin message from the front of `data`. It is rejected
/// exactly when `data` holds fewer bytes than the payload.
pub fn handle_fin_message(data: &[u8]) -> (r: Result<FinMessage, ProtoError>)
    ensures
        match r {
            Ok(m) => decode_fin(data@) == Ok::<FinView, ProtoError>(m@),
            Err(e) => decode_fin(data@) == Err::<FinView, ProtoError>(e),
        },
{
    if data.len() < FIN_LEN {
        Err(ProtoError::TruncatedMessage)
    } else {
        Ok(fin_from_frame(data))
    }
}

} // verus!
