use tunnel_proto::layout::DATA_HEADER_LEN;
use tunnel_proto::{handle_data_message, DataMessage, ProtoError};

const CONTROLLED: [u8; 10] = [1, 2, 3, 4, 5, 6, 7, 8, 9, 10];
const CONTROLLER: [u8; 10] = [11, 12, 13, 14, 15, 16, 17, 18, 19, 20];
const SESSION: [u8; 4] = [0, 0, 0, 1];
const TARGET: [u8; 6] = [127, 0, 0, 1, 0x1F, 0x90];

fn ping() -> DataMessage {
    DataMessage::new(CONTROLLED, CONTROLLER, SESSION, 1, TARGET, b"ping".to_vec())
}

fn ping_bytes() -> Vec<u8> {
    vec![
        1, 2, 3, 4, 5, 6, 7, 8, 9, 10, 11, 12, 13, 14, 15, 16, 17, 18, 19, 20, 0, 0, 0, 1, 1, 127,
        0, 0, 1, 0x1F, 0x90, 0, 0, 0, 4, b'p', b'i', b'n', b'g',
    ]
}

fn header_declaring(length: u32) -> Vec<u8> {
    let mut bytes = ping_bytes();
    bytes.truncate(31);
    bytes.extend_from_slice(&length.to_be_bytes());
    bytes
}

#[test]
fn data_new_takes_the_length_from_the_data() {
    let m = ping();
    assert_eq!(m.data_length, 4);
    assert_eq!(m.data, b"ping".to_vec());
    let empty = DataMessage::new(CONTROLLED, CONTROLLER, SESSION, 2, TARGET, Vec::new());
    assert_eq!(empty.data_length, 0);
    let long = DataMessage::new(CONTROLLED, CONTROLLER, SESSION, 2, TARGET, vec![0xAB; 70_000]);
    assert_eq!(long.data_length, 70_000);
}

#[test]
fn data_payload_is_the_fields_in_order() {
    let mut out = Vec::new();
    ping().write_to(&mut out);
    assert_eq!(out.len(), DATA_HEADER_LEN + 4);
    assert_eq!(out, ping_bytes());
}

#[test]
fn data_length_field_is_big_endian() {
    let m = DataMessage::new(CONTROLLED, CONTROLLER, SESSION, 2, TARGET, vec![0x5A; 0x01_02_03]);
    let mut out = Vec::new();
    m.write_to(&mut out);
    assert_eq!(&out[31..35], &[0x00u8, 0x01, 0x02, 0x03][..]);
    assert_eq!(out.len(), 35 + 0x01_02_03);
    assert_eq!(handle_data_message(&out), Ok(m));
}

#[test]
fn data_write_never_trusts_a_stale_length() {
    let mut m = ping();
    m.data_length = 999;
    let mut out = Vec::new();
    m.write_to(&mut out);
    assert_eq!(out, ping_bytes());
    let decoded = handle_data_message(&out).unwrap();
    assert_eq!(decoded.data_length, 4);
    assert_eq!(decoded.data.len(), 4);
}

#[test]
fn data_end_to_end_through_the_stream() {
    let mut bytes = Vec::new();
    ping().write_to(&mut bytes);
    let mut reader: &[u8] = &bytes;
    let decoded = DataMessage::read_from(&mut reader).unwrap();
    assert_eq!(decoded.controlled_id, [1, 2, 3, 4, 5, 6, 7, 8, 9, 10]);
    assert_eq!(decoded.controller_id, [11, 12, 13, 14, 15, 16, 17, 18, 19, 20]);
    assert_eq!(decoded.session_id, [0, 0, 0, 1]);
    assert_eq!(decoded.source_type, 1);
    assert_eq!(decoded.target_addr, [127, 0, 0, 1, 0x1F, 0x90]);
    assert_eq!(decoded.data_length, 4);
    assert_eq!(decoded.data, b"ping".to_vec());
    assert!(reader.is_empty());
}

#[test]
fn data_round_trip_buffered() {
    let mut bytes = Vec::new();
    ping().write_to(&mut bytes);
    assert_eq!(handle_data_message(&bytes), Ok(ping()));
}

#[test]
fn data_both_paths_agree() {
    let bytes = ping_bytes();
    let mut reader: &[u8] = &bytes;
    assert_eq!(DataMessage::read_from(&mut reader), handle_data_message(&bytes));
}

#[test]
fn data_stream_holds_messages_back_to_back() {
    let second = DataMessage::new(CONTROLLER, CONTROLLED, [9, 9, 9, 9], 2, TARGET, vec![]);
    let mut bytes = Vec::new();
    ping().write_to(&mut bytes);
    second.write_to(&mut bytes);
    bytes.push(0x04);
    let mut reader: &[u8] = &bytes;
    assert_eq!(DataMessage::read_from(&mut reader), Ok(ping()));
    assert_eq!(DataMessage::read_from(&mut reader), Ok(second));
    assert_eq!(reader, &[0x04u8][..]);
    assert_eq!(DataMessage::read_from(&mut reader), Err(ProtoError::IoError));
    assert_eq!(reader, &[0x04u8][..]);
}

#[test]
fn data_shorter_than_the_header_is_truncated() {
    let bytes = ping_bytes();
    for len in 0..35 {
        assert_eq!(handle_data_message(&bytes[..len]), Err(ProtoError::TruncatedMessage));
    }
}

#[test]
fn data_header_alone_with_empty_body_is_accepted() {
    let bytes = header_declaring(0);
    assert_eq!(bytes.len(), 35);
    let m = handle_data_message(&bytes).unwrap();
    assert_eq!(m.data_length, 0);
    assert!(m.data.is_empty());
    assert_eq!(m.controlled_id, CONTROLLED);
    assert_eq!(m.target_addr, TARGET);
}

#[test]
fn data_with_less_body_than_declared_is_truncated() {
    let bytes = ping_bytes();
    for len in 35..39 {
        assert_eq!(handle_data_message(&bytes[..len]), Err(ProtoError::TruncatedMessage));
    }
    assert_eq!(handle_data_message(&header_declaring(u32::MAX)), Err(ProtoError::TruncatedMessage));
}

#[test]
fn data_with_more_body_than_declared_is_a_length_mismatch() {
    let mut bytes = ping_bytes();
    bytes.push(b'!');
    assert_eq!(handle_data_message(&bytes), Err(ProtoError::LengthMismatch));
    let mut empty_body = header_declaring(0);
    empty_body.push(0);
    assert_eq!(handle_data_message(&empty_body), Err(ProtoError::LengthMismatch));
}

#[test]
fn data_stream_that_ends_early_is_an_io_error() {
    let bytes = ping_bytes();
    for len in 0..39 {
        let mut reader: &[u8] = &bytes[..len];
        assert_eq!(DataMessage::read_from(&mut reader), Err(ProtoError::IoError));
        assert_eq!(reader.len(), len);
    }
}

#[test]
fn data_declared_length_reads_the_header() {
    assert_eq!(DataMessage::declared_length(&ping_bytes()), Ok(4));
    assert_eq!(DataMessage::declared_length(&header_declaring(0x0A0B0C0D)), Ok(0x0A0B0C0D));
    assert_eq!(DataMessage::declared_length(&header_declaring(u32::MAX)), Ok(u32::MAX));
    assert_eq!(
        DataMessage::declared_length(&ping_bytes()[..34]),
        Err(ProtoError::TruncatedMessage)
    );
}

#[test]
fn data_source_type_is_not_interpreted() {
    let mut bytes = ping_bytes();
    bytes[24] = 0;
    assert_eq!(handle_data_message(&bytes).map(|m| m.source_type), Ok(0));
}

#[test]
fn data_validity_is_length_and_source() {
    assert!(ping().is_valid());
    let mut stale = ping();
    stale.data_length = 5;
    assert!(!stale.is_valid());
    let mut unknown_source = ping();
    unknown_source.source_type = 3;
    assert!(!unknown_source.is_valid());
    let mut controlled = ping();
    controlled.source_type = 2;
    assert!(controlled.is_valid());
}
