//! Helpers for identifiers: the composite session identifier, and the
//! conversion between fixed-width buffers and text.

use vstd::prelude::*;
use vstd::slice::slice_to_vec;
use vstd::string::{StrSliceExecFns, StringSliceAdditionalSpecFns};
use vstd::utf8::{decode_utf8, valid_utf8};
use crate::wire::{be16_bytes, u16_to_be};

verus! {

/// The composite session identifier of endpoint `id` and sequence number
/// `seq`: the identifier, then the sequence number as a four-byte
/// big-endian field, whose two leading bytes are zero.
pub open spec fn composite_session_id(id: Seq<u8>, seq: u16) -> Seq<u8> {
    id + seq![0u8, 0u8] + be16_bytes(seq)
}

/// Mints the session identifier of `seq` for endpoint `id`.
pub fn generate_session_id(id: &[u8; 10], seq: u16) -> (out: [u8; 14])
    ensures
        out@ == composite_session_id(id@, seq),
        out@.subrange(0, 10) == id@,
        out@[10] == 0 && out@[11] == 0,
        out@[12] == seq / 0x100 && out@[13] == seq % 0x100,
{
    let seq_bytes: [u8; 2] = u16_to_be(seq);
    let out: [u8; 14] = [
        id[0],
        id[1],
        id[2],
        id[3],
        id[4],
        id[5],
        id[6],
        id[7],
        id[8],
        id[9],
        0,
        0,
        seq_bytes[0],
        seq_bytes[1],
    ];
    assert(out@ =~= composite_session_id(id@, seq));
    assert(out@.subrange(0, 10) =~= id@);
    out
}

/// What lossy UTF-8 decoding makes of `bytes`: the text that they encode,
/// with every invalid sequence replaced by U+FFFD.
pub uninterp spec fn utf8_lossy(bytes: Seq<u8>) -> Seq<char>;

/// Calls `String::from_utf8_lossy` and takes ownership of what it returns.
/// The result is named `utf8_lossy`; for bytes that are valid UTF-8 it is
/// the text that they encode. Neither is proved here.
#[verifier::external_body]
fn decode_lossy(bytes: &[u8]) -> (text: String)
    ensures
        text@ == utf8_lossy(bytes@),
        valid_utf8(bytes@) ==> text@ == decode_utf8(bytes@),
{
    String::from_utf8_lossy(bytes).into_owned()
}

/// `text` without the NUL characters at its end.
pub open spec fn strip_trailing_nul(text: Seq<char>) -> Seq<char>
    decreases text.len(),
{
    if text.len() > 0 && text.last() == '\0' {
        strip_trailing_nul(text.drop_last())
    } else {
        text
    }
}

/// What stripping keeps: a prefix of the text that does not end in NUL,
/// followed in the text by NUL characters only.
pub proof fn lemma_strip_trailing_nul(text: Seq<char>)
    ensures
        strip_trailing_nul(text).len() <= text.len(),
        strip_trailing_nul(text) == text.take(strip_trailing_nul(text).len() as int),
        strip_trailing_nul(text).len() > 0 ==> strip_trailing_nul(text).last() != '\0',
        forall|i: int| strip_trailing_nul(text).len() <= i < text.len() ==> text[i] == '\0',
    decreases text.len(),
{
    if text.len() > 0 && text.last() == '\0' {
        let shorter = text.drop_last();
        lemma_strip_trailing_nul(shorter);
        let kept = strip_trailing_nul(shorter);
        assert(shorter.take(kept.len() as int) =~= text.take(kept.len() as int));
        assert forall|i: int| kept.len() <= i < text.len() implies text[i] == '\0' by {
            if i < shorter.len() {
                assert(shorter[i] == text[i]);
            }
        }
    } else {
        assert(text.take(text.len() as int) =~= text);
    }
}

/// Removes the NUL characters at the end of `text`.
pub fn trim_trailing_nul(text: &str) -> (kept: String)
    ensures
        kept@ == strip_trailing_nul(text@),
{
    let mut end: usize = text.unicode_len();
    assert(text@.take(end as int) =~= text@);
    while end > 0 && text.get_char(end - 1) == '\0'
        invariant
            end <= text@.len(),
            strip_trailing_nul(text@) == strip_trailing_nul(text@.take(end as int)),
        decreases end,
    {
        assert(text@.take(end as int).drop_last() =~= text@.take(end - 1));
        end -= 1;
    }
    text.substring_char(0, end).to_owned()
}

/// Text of a fixed-width buffer, for display: the bytes decoded as UTF-8,
/// invalid sequences replaced, and the NUL padding at the end removed.
/// Never fails.
pub fn bytes_to_string(bytes: &[u8]) -> (text: String)
    ensures
        text@ == strip_trailing_nul(utf8_lossy(bytes@)),
        valid_utf8(bytes@) ==> text@ == strip_trailing_nul(decode_utf8(bytes@)),
{
    let decoded = decode_lossy(bytes);
    trim_trailing_nul(decoded.as_str())
}

/// `bytes` cut or padded with zero bytes to exactly `length` bytes.
pub open spec fn fit_to_length(bytes: Seq<u8>, length: nat) -> Seq<u8> {
    Seq::new(
        length,
        |i: int|
            if i < bytes.len() {
                bytes[i]
            } else {
                0u8
            },
    )
}

/// The UTF-8 bytes of `s` in a buffer of exactly `length` bytes: padded
/// with zero bytes when shorter, cut when longer. Cutting is silent and may
/// split a character.
pub fn string_to_fixed_bytes(s: &str, length: usize) -> (out: Vec<u8>)
    ensures
        out@ == fit_to_length(s.spec_bytes(), length as nat),
        out@.len() == length,
{
    let mut out: Vec<u8> = slice_to_vec(s.as_bytes());
    out.resize(length, 0);
    assert(out@ =~= fit_to_length(s.spec_bytes(), length as nat));
    out
}

} // verus!
