use tunnel_proto::ident::trim_trailing_nul;
use tunnel_proto::{bytes_to_string, generate_session_id, string_to_fixed_bytes};

#[test]
fn composite_session_id_of_256() {
    let id = generate_session_id(&[0x01; 10], 256);
    assert_eq!(id.len(), 14);
    assert_eq!(&id[..10], &[0x01u8; 10][..]);
    assert_eq!(&id[12..], &[0x01u8, 0x00][..]);
    assert_eq!(id, [1, 1, 1, 1, 1, 1, 1, 1, 1, 1, 0, 0, 1, 0]);
}

#[test]
fn composite_session_id_is_big_endian() {
    let id = generate_session_id(&[9, 8, 7, 6, 5, 4, 3, 2, 1, 0], 0xABCD);
    assert_eq!(id, [9, 8, 7, 6, 5, 4, 3, 2, 1, 0, 0, 0, 0xAB, 0xCD]);
    assert_eq!(generate_session_id(&[0; 10], 0), [0u8; 14]);
    assert_eq!(&generate_session_id(&[0; 10], u16::MAX)[10..], &[0u8, 0, 0xFF, 0xFF][..]);
}

#[test]
fn pad_short_text_with_zero_bytes() {
    assert_eq!(string_to_fixed_bytes("ab", 5), vec![0x61, 0x62, 0, 0, 0]);
}

#[test]
fn cut_long_text_silently() {
    assert_eq!(string_to_fixed_bytes("abcdef", 3), vec![0x61, 0x62, 0x63]);
}

#[test]
fn fixed_bytes_edge_lengths() {
    assert_eq!(string_to_fixed_bytes("abc", 3), vec![0x61, 0x62, 0x63]);
    assert_eq!(string_to_fixed_bytes("abc", 0), Vec::<u8>::new());
    assert_eq!(string_to_fixed_bytes("", 2), vec![0, 0]);
}

#[test]
fn fixed_bytes_may_split_a_character() {
    // U+00E9 is the two bytes C3 A9.
    assert_eq!(string_to_fixed_bytes("\u{e9}", 1), vec![0xC3]);
    assert_eq!(string_to_fixed_bytes("\u{e9}", 3), vec![0xC3, 0xA9, 0]);
}

#[test]
fn display_string_drops_the_padding() {
    assert_eq!(bytes_to_string(b"abc\0\0\0"), "abc");
    assert_eq!(bytes_to_string(b"abc"), "abc");
    assert_eq!(bytes_to_string(b""), "");
    assert_eq!(bytes_to_string(&[0u8; 10]), "");
}

#[test]
fn display_string_keeps_nul_that_is_not_at_the_end() {
    assert_eq!(bytes_to_string(b"\0ab\0c\0"), "\0ab\0c");
}

#[test]
fn display_string_replaces_invalid_sequences() {
    assert_eq!(bytes_to_string(&[0x61, 0xFF, 0x62, 0, 0]), "a\u{FFFD}b");
    assert_eq!(bytes_to_string(&[0xC3]), "\u{FFFD}");
    assert_eq!(bytes_to_string(&[0xC3, 0xA9, 0]), "\u{e9}");
}

#[test]
fn display_string_of_padded_text_round_trips() {
    let padded = string_to_fixed_bytes("node-7", 10);
    assert_eq!(padded.len(), 10);
    assert_eq!(bytes_to_string(&padded), "node-7");
}

#[test]
fn trim_removes_only_trailing_nul() {
    assert_eq!(trim_trailing_nul("a\0\0"), "a");
    assert_eq!(trim_trailing_nul("\0a"), "\0a");
    assert_eq!(trim_trailing_nul("\0\0"), "");
    assert_eq!(trim_trailing_nul("\u{e9}\0"), "\u{e9}");
}
