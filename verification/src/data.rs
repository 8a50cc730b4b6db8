//! The headered Data message: routing fields, a declared body length, and
//! the body.

use vstd::prelude::*;
use vstd::slice::slice_to_vec;
use crate::error::ProtoError;
use crate::tag::{is_source_type, is_valid_source_type};
use crate::layout::{
    CONTROLLED_ID_OFFSET, CONTROLLER_ID_OFFSET, DATA_HEADER_LEN, DATA_LENGTH_OFFSET, ID_LEN,
    SESSION_ID_LEN, SESSION_ID_OFFSET, SOURCE_TYPE_OFFSET, TARGET_ADDR_LEN, TARGET_ADDR_OFFSET,
};
use crate::wire::{
    append, be32_bytes, be32_value, lemma_be32_bytes_of_value, lemma_be32_value_of_bytes,
    u32_from_be, u32_to_be, window,
};

verus! {

/// Forwarded bytes of one session, with the fields that route them.
#[derive(Debug, PartialEq, Eq)]
pub struct DataMessage {
    /// Identifier of the controlled endpoint.
    pub controlled_id: [u8; 10],
    /// Identifier of the controller.
    pub controller_id: [u8; 10],
    /// Session within the pair of endpoints.
    pub session_id: [u8; 4],
    /// Which side originated the message.
    pub source_type: u8,
    /// IPv4 address and big-endian port that a freshly opened session
    /// connects to.
    pub target_addr: [u8; 6],
    /// Length of `data`, as carried on the wire.
    pub data_length: u32,
    /// The forwarded bytes.
    pub data: Vec<u8>,
}

/// Mathematical value of a [`DataMessage`].
pub struct DataView {
    pub controlled_id: Seq<u8>,
    pub controller_id: Seq<u8>,
    pub session_id: Seq<u8>,
    pub source_type: u8,
    pub target_addr: Seq<u8>,
    pub data_length: u32,
    pub data: Seq<u8>,
}

impl DataView {
    /// The fixed-width fields have their widths and the body fits the
    /// four-byte length field.
    pub open spec fn encodable(self) -> bool {
        &&& self.controlled_id.len() == ID_LEN
        &&& self.controller_id.len() == ID_LEN
        &&& self.session_id.len() == SESSION_ID_LEN
        &&& self.target_addr.len() == TARGET_ADDR_LEN
        &&& self.data.len() <= u32::MAX
    }

    /// The message is encodable and `data_length` is the length of `data`.
    pub open spec fn wf(self) -> bool {
        &&& self.encodable()
        &&& self.data_length == self.data.len()
    }

    /// The message is well formed and its source is one of the two
    /// assigned values.
    pub open spec fn valid(self) -> bool {
        &&& self.wf()
        &&& is_source_type(self.source_type)
    }

    /// The same message with `data_length` set to the length of `data`.
    pub open spec fn with_actual_length(self) -> DataView {
        DataView { data_length: self.data.len() as u32, ..self }
    }

    /// The payload bytes of the message. The length field is taken from
    /// `data`, never from `data_length`.
    pub open spec fn wire(self) -> Seq<u8> {
        self.controlled_id + self.controller_id + self.session_id + seq![self.source_type]
            + self.target_addr + be32_bytes(self.data.len() as u32) + self.data
    }
}

impl View for DataMessage {
    type V = DataView;

    open spec fn view(&self) -> DataView {
        DataView {
            controlled_id: self.controlled_id@,
            controller_id: self.controller_id@,
            session_id: self.session_id@,
            source_type: self.source_type,
            target_addr: self.target_addr@,
            data_length: self.data_length,
            data: self.data@,
        }
    }
}

/// The body length that a Data header declares.
pub open spec fn declared_data_length(bytes: Seq<u8>) -> u32
    recommends
        bytes.len() >= DATA_HEADER_LEN,
{
    be32_value(bytes.subrange(DATA_LENGTH_OFFSET as int, DATA_HEADER_LEN as int))
}

/// The fields of the Data message that starts at the front of `bytes`.
pub open spec fn data_fields(bytes: Seq<u8>) -> DataView
    recommends
        bytes.len() >= DATA_HEADER_LEN + declared_data_length(bytes),
{
    DataView {
        controlled_id: bytes.subrange(
            CONTROLLED_ID_OFFSET as int,
            CONTROLLED_ID_OFFSET + ID_LEN,
        ),
        controller_id: bytes.subrange(
            CONTROLLER_ID_OFFSET as int,
            CONTROLLER_ID_OFFSET + ID_LEN,
        ),
        session_id: bytes.subrange(SESSION_ID_OFFSET as int, SESSION_ID_OFFSET + SESSION_ID_LEN),
        source_type: bytes[SOURCE_TYPE_OFFSET as int],
        target_addr: bytes.subrange(TARGET_ADDR_OFFSET as int, TARGET_ADDR_OFFSET + TARGET_ADDR_LEN),
        data_length: declared_data_length(bytes),
        data: bytes.subrange(
            DATA_HEADER_LEN as int,
            DATA_HEADER_LEN + declared_data_length(bytes),
        ),
    }
}

/// Decoding of a buffered Data message: `bytes` is the whole payload.
pub open spec fn decode_data(bytes: Seq<u8>) -> Result<DataView, ProtoError> {
    if bytes.len() < DATA_HEADER_LEN {
        Err(ProtoError::TruncatedMessage)
    } else if bytes.len() - DATA_HEADER_LEN < declared_data_length(bytes) {
        Err(ProtoError::TruncatedMessage)
    } else if bytes.len() - DATA_HEADER_LEN > declared_data_length(bytes) {
        Err(ProtoError::LengthMismatch)
    } else {
        Ok(data_fields(bytes))
    }
}

/// Reading of a Data message from the front of a stream that holds `bytes`:
/// the message and the bytes that stay in the stream.
pub open spec fn read_data(bytes: Seq<u8>) -> Result<(DataView, Seq<u8>), ProtoError> {
    if bytes.len() < DATA_HEADER_LEN || bytes.len() - DATA_HEADER_LEN < declared_data_length(
        bytes,
    ) {
        Err(ProtoError::IoError)
    } else {
        Ok((data_fields(bytes), bytes.skip(DATA_HEADER_LEN + declared_data_length(bytes))))
    }
}

/// The header of an encoded message, followed by anything, declares the
/// length of the message's body and holds its fields at their offsets.
proof fn lemma_fields_of_wire(v: DataView, rest: Seq<u8>)
    requires
        v.encodable(),
    ensures
        (v.wire() + rest).len() == DATA_HEADER_LEN + v.data.len() + rest.len(),
        declared_data_length(v.wire() + rest) == v.data.len(),
        data_fields(v.wire() + rest) == v.with_actual_length(),
        (v.wire() + rest).skip(DATA_HEADER_LEN + v.data.len()) == rest,
{
    let bytes = v.wire() + rest;
    let length = v.data.len() as u32;
    lemma_be32_value_of_bytes(length);
    assert(bytes.subrange(DATA_LENGTH_OFFSET as int, DATA_HEADER_LEN as int) =~= be32_bytes(
        length,
    ));
    let got = data_fields(bytes);
    assert(got.controlled_id =~= v.controlled_id);
    assert(got.controller_id =~= v.controller_id);
    assert(got.session_id =~= v.session_id);
    assert(got.target_addr =~= v.target_addr);
    assert(got.data =~= v.data);
    assert(bytes.skip(DATA_HEADER_LEN + v.data.len()) =~= rest);
}

/// Round trip of a buffered message: decoding the encoding of a
/// well-formed message gives the message back, field by field.
pub proof fn lemma_data_round_trip(v: DataView)
    requires
        v.wf(),
    ensures
        decode_data(v.wire()) == Ok::<DataView, ProtoError>(v),
{
    lemma_fields_of_wire(v, Seq::empty());
    assert(v.wire() + Seq::<u8>::empty() =~= v.wire());
}

/// Round trip through a stream: reading from a stream that starts with the
/// encoding of a well-formed message gives the message back and leaves
/// exactly the bytes that followed it.
pub proof fn lemma_data_stream_round_trip(v: DataView, rest: Seq<u8>)
    requires
        v.wf(),
    ensures
        read_data(v.wire() + rest) == Ok::<(DataView, Seq<u8>), ProtoError>((v, rest)),
{
    lemma_fields_of_wire(v, rest);
}

/// The length field of an encoding is the length of the body, whatever
/// `data_length` the encoded message held: both decoders give back the
/// message with `data_length` equal to the length of `data`.
pub proof fn lemma_encoded_length_is_actual(v: DataView, rest: Seq<u8>)
    requires
        v.encodable(),
    ensures
        decode_data(v.wire()) == Ok::<DataView, ProtoError>(v.with_actual_length()),
        read_data(v.wire() + rest) == Ok::<(DataView, Seq<u8>), ProtoError>(
            (v.with_actual_length(), rest),
        ),
        v.with_actual_length().data_length == v.data.len(),
        v.with_actual_length().data == v.data,
{
    lemma_fields_of_wire(v, Seq::empty());
    assert(v.wire() + Seq::<u8>::empty() =~= v.wire());
    lemma_fields_of_wire(v, rest);
}

/// Decoding loses nothing: a stream from which a message can be read is
/// the encoding of that message followed by the bytes that stay, and a
/// buffered payload that is accepted is the encoding of its message.
pub proof fn lemma_data_decoding_is_exact(bytes: Seq<u8>)
    ensures
        read_data(bytes) is Ok ==> read_data(bytes)->Ok_0.0.wf() && read_data(bytes)->Ok_0.0.wire()
            + read_data(bytes)->Ok_0.1 == bytes,
        decode_data(bytes) is Ok ==> decode_data(bytes)->Ok_0.wire() == bytes,
{
    if read_data(bytes) is Ok {
        let v = data_fields(bytes);
        let rest = bytes.skip(DATA_HEADER_LEN + declared_data_length(bytes));
        lemma_be32_bytes_of_value(
            bytes.subrange(DATA_LENGTH_OFFSET as int, DATA_HEADER_LEN as int),
        );
        assert(v.wire() + rest =~= bytes);
        if decode_data(bytes) is Ok {
            assert(rest =~= Seq::<u8>::empty());
            assert(v.wire() + rest =~= v.wire());
        }
    }
}

/// Truncation of a buffered message: fewer bytes than the header, or than
/// the header and the declared body, are rejected as truncated; a header
/// alone that declares an empty body is accepted.
pub proof fn lemma_data_truncation(bytes: Seq<u8>)
    ensures
        bytes.len() < DATA_HEADER_LEN ==> decode_data(bytes) == Err::<DataView, ProtoError>(
            ProtoError::TruncatedMessage,
        ),
        bytes.len() >= DATA_HEADER_LEN && bytes.len() < DATA_HEADER_LEN + declared_data_length(
            bytes,
        ) ==> decode_data(bytes) == Err::<DataView, ProtoError>(ProtoError::TruncatedMessage),
        bytes.len() == DATA_HEADER_LEN && declared_data_length(bytes) == 0 ==> decode_data(bytes)
            == Ok::<DataView, ProtoError>(data_fields(bytes)) && data_fields(bytes).data.len()
            == 0,
        decode_data(bytes) is Ok <==> bytes.len() == DATA_HEADER_LEN + declared_data_length(
            bytes,
        ),
        decode_data(bytes) is Ok ==> decode_data(bytes)->Ok_0.wf(),
{
}

/// Builds the message whose header and body stand at the front of `frame`.
fn data_from_frame(frame: &[u8], length: u32) -> (m: DataMessage)
    requires
        frame@.len() >= DATA_HEADER_LEN + length,
        length == declared_data_length(frame@),
    ensures
        m@ == data_fields(frame@),
        m.wf(),
{
    assert(frame@.len() == frame.len());
    let start: usize = DATA_HEADER_LEN;
    let end: usize = start + length as usize;
    let body = slice_to_vec(&frame[start..end]);
    let m = DataMessage::new(
        window(frame, CONTROLLED_ID_OFFSET),
        window(frame, CONTROLLER_ID_OFFSET),
        window(frame, SESSION_ID_OFFSET),
        frame[SOURCE_TYPE_OFFSET],
        window(frame, TARGET_ADDR_OFFSET),
        body,
    );
    m
}

impl DataMessage {
    /// `data_length` is the length of `data`.
    pub open spec fn wf(&self) -> bool {
        self@.wf()
    }

    /// Builds a message around `data`. Its `data_length` is always the
    /// length of `data`; there is no way to pass another.
    pub fn new(
        controlled_id: [u8; 10],
        controller_id: [u8; 10],
        session_id: [u8; 4],
        source_type: u8,
        target_addr: [u8; 6],
        data: Vec<u8>,
    ) -> (m: Self)
        requires
            data@.len() <= u32::MAX,
        ensures
            m.controlled_id == controlled_id,
            m.controller_id == controller_id,
            m.session_id == session_id,
            m.source_type == source_type,
            m.target_addr == target_addr,
            m.data == data,
            m.data_length == data@.len(),
            m.wf(),
    {
        let data_length: u32 = data.len() as u32;
        DataMessage {
            controlled_id,
            controller_id,
            session_id,
            source_type,
            target_addr,
            data_length,
            data,
        }
    }

    /// Tells whether the message is valid: `data_length` is the length of
    /// `data` and `source_type` is one of the two assigned values. A decoded
    /// message always has the first; its source type is whatever the peer
    /// sent.
    pub fn is_valid(&self) -> (ok: bool)
        ensures
            ok == self@.valid(),
    {
        self.data.len() == self.data_length as usize && is_valid_source_type(self.source_type)
    }

    /// The body length declared by the header at the front of `header`, for
    /// a caller that has read the header and must know how many bytes of
    /// body to read next.
    pub fn declared_length(header: &[u8]) -> (r: Result<u32, ProtoError>)
        ensures
            header@.len() >= DATA_HEADER_LEN ==> r == Ok::<u32, ProtoError>(
                declared_data_length(header@),
            ),
            header@.len() < DATA_HEADER_LEN ==> r == Err::<u32, ProtoError>(
                ProtoError::TruncatedMessage,
            ),
    {
        if header.len() < DATA_HEADER_LEN {
            Err(ProtoError::TruncatedMessage)
        } else {
            Ok(u32_from_be(header, DATA_LENGTH_OFFSET))
        }
    }

    /// Reads one message from the front of an in-memory stream and leaves
    /// the stream at the byte after it. When the stream ends before the
    /// header or the declared body is complete, nothing is consumed.
    pub fn read_from(reader: &mut &[u8]) -> (r: Result<Self, ProtoError>)
        ensures
            match r {
                Ok(m) => read_data(old(reader)@) == Ok::<(DataView, Seq<u8>), ProtoError>(
                    (m@, final(reader)@),
                ) && m.wf(),
                Err(e) => read_data(old(reader)@) == Err::<(DataView, Seq<u8>), ProtoError>(e)
                    && final(reader)@ == old(reader)@,
            },
    {
        let stream: &[u8] = *reader;
        if stream.len() < DATA_HEADER_LEN {
            return Err(ProtoError::IoError);
        }
        let length: u32 = u32_from_be(stream, DATA_LENGTH_OFFSET);
        if stream.len() - DATA_HEADER_LEN < length as usize {
            return Err(ProtoError::IoError);
        }
        let m = data_from_frame(stream, length);
        let end: usize = DATA_HEADER_LEN + length as usize;
        *reader = &stream[end..stream.len()];
        assert(reader@ =~= old(reader)@.skip(end as int));
        Ok(m)
    }

    /// Appends the payload bytes of the message to `writer`, with no tag
    /// byte. The length field is computed from `data`; a stale
    /// `data_length` is never written.
    pub fn write_to(&self, writer: &mut Vec<u8>)
        requires
            self.data@.len() <= u32::MAX,
        ensures
            final(writer)@ == old(writer)@ + self@.wire(),
    {
        let length: u32 = self.data.len() as u32;
        append(writer, &self.controlled_id);
        append(writer, &self.controller_id);
        append(writer, &self.session_id);
        writer.push(self.source_type);
        append(writer, &self.target_addr);
        append(writer, &u32_to_be(length));
        append(writer, self.data.as_slice());
        assert(writer@ =~= old(writer)@ + self@.wire());
    }
}

/// Decodes a buffered Data message. `data` is the whole payload: it is
/// rejected when it is shorter than the header or than the header and the
/// declared body, and when bytes follow the declared body.
pub fn handle_data_message(data: &[u8]) -> (r: Result<DataMessage, ProtoError>)
    ensures
        match r {
            Ok(m) => decode_data(data@) == Ok::<DataView, ProtoError>(m@) && m.wf(),
            Err(e) => decode_data(data@) == Err::<DataView, ProtoError>(e),
        },
{
    if data.len() < DATA_HEADER_LEN {
        return Err(ProtoError::TruncatedMessage);
    }
    let length: u32 = u32_from_be(data, DATA_LENGTH_OFFSET);
    let remaining: usize = data.len() - DATA_HEADER_LEN;
    if remaining < length as usize {
        Err(ProtoError::TruncatedMessage)
    } else if remaining > length as usize {
        Err(ProtoError::LengthMismatch)
    } else {
        Ok(data_from_frame(data, length))
    }
}

} // verus!
