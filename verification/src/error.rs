//! Failures reported by the decoders.

use vstd::prelude::*;

verus! {

/// Why a sequence of bytes was not accepted as a message.
#[derive(Debug, Clone, Copy, PartialEq, Eq, Structural)]
pub enum ProtoError {
    /// A buffered message holds fewer bytes than its fixed-width fields, or
    /// than the body length it declares, require.
    TruncatedMessage,
    /// A stream ended before the message read from it was complete.
    IoError,
    /// A tag byte outside the four assigned values; the byte is carried along.
    UnknownMessageType(u8),
    /// A buffered Data message declares a body length different from the
    /// number of bytes that follow its header.
    LengthMismatch,
}

} // verus!
