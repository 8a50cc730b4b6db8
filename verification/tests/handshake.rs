use tunnel_proto::layout::HANDSHAKE_LEN;
use tunnel_proto::{handle_handshake_message, HandshakeMessage, ProtoError};

const ID: [u8; 10] = [0x61, 0x62, 0x63, 0, 0, 0, 0, 0, 0xFE, 0xFF];

#[test]
fn handshake_new_keeps_the_id() {
    assert_eq!(HandshakeMessage::new(ID).id, ID);
}

#[test]
fn handshake_payload_is_the_id_verbatim() {
    let mut out = Vec::new();
    HandshakeMessage::new(ID).write_to(&mut out);
    assert_eq!(out, ID.to_vec());
}

#[test]
fn handshake_write_appends_to_what_is_there() {
    let mut out = vec![1u8];
    HandshakeMessage::new(ID).write_to(&mut out);
    assert_eq!(out.len(), 1 + HANDSHAKE_LEN);
    assert_eq!(out[0], 1);
    assert_eq!(&out[1..], &ID[..]);
}

#[test]
fn handshake_round_trip_buffered() {
    let message = HandshakeMessage::new(ID);
    let mut bytes = Vec::new();
    message.write_to(&mut bytes);
    assert_eq!(handle_handshake_message(&bytes), Ok(message));
}

#[test]
fn handshake_round_trip_stream() {
    let message = HandshakeMessage::new(ID);
    let mut bytes = Vec::new();
    message.write_to(&mut bytes);
    bytes.extend_from_slice(&[7, 8, 9]);
    let mut reader: &[u8] = &bytes;
    assert_eq!(HandshakeMessage::read_from(&mut reader), Ok(message));
    assert_eq!(reader, &[7u8, 8, 9][..]);
}

#[test]
fn handshake_shorter_than_ten_bytes_is_truncated() {
    for len in 0..10 {
        assert_eq!(handle_handshake_message(&ID[..len]), Err(ProtoError::TruncatedMessage));
    }
}

#[test]
fn handshake_of_exactly_ten_bytes_is_accepted() {
    assert_eq!(handle_handshake_message(&ID).map(|m| m.id), Ok(ID));
}

#[test]
fn handshake_buffered_ignores_what_follows() {
    let mut bytes = ID.to_vec();
    bytes.push(0xAA);
    assert_eq!(handle_handshake_message(&bytes).map(|m| m.id), Ok(ID));
}

#[test]
fn handshake_stream_that_ends_early_is_an_io_error() {
    let bytes = &ID[..9];
    let mut reader: &[u8] = bytes;
    assert_eq!(HandshakeMessage::read_from(&mut reader), Err(ProtoError::IoError));
    assert_eq!(reader, bytes);
    let mut empty: &[u8] = &[];
    assert_eq!(HandshakeMessage::read_from(&mut empty), Err(ProtoError::IoError));
}
