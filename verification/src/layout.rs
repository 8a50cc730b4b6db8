//! The offset table of the wire format. Every decoder and encoder, for
//! buffered messages and for streams alike, takes its offsets and widths
//! from here.
//!
//! ```text
//! Handshake  [10 id]
//! Fin        [10 controlled_id][10 controller_id][4 session_id][1 source_type]
//! Data       [10 controlled_id][10 controller_id][4 session_id][1 source_type]
//!            [6 target_addr][4 data_length, big-endian][data_length bytes]
//! ```

use vstd::prelude::*;

verus! {

/// Width of an endpoint identifier.
pub const ID_LEN: usize = 10;

/// Width of a session identifier.
pub const SESSION_ID_LEN: usize = 4;

/// Width of a target address: an IPv4 address and a big-endian port.
pub const TARGET_ADDR_LEN: usize = 6;

/// Offset of `id` in a Handshake payload.
pub const HANDSHAKE_ID_OFFSET: usize = 0;

/// Offset of `controlled_id` in a Data or Fin payload.
pub const CONTROLLED_ID_OFFSET: usize = 0;

/// Offset of `controller_id` in a Data or Fin payload.
pub const CONTROLLER_ID_OFFSET: usize = 10;

/// Offset of `session_id` in a Data or Fin payload.
pub const SESSION_ID_OFFSET: usize = 20;

/// Offset of `source_type` in a Data or Fin payload.
pub const SOURCE_TYPE_OFFSET: usize = 24;

/// Offset of `target_addr` in a Data payload.
pub const TARGET_ADDR_OFFSET: usize = 25;

/// Offset of the big-endian `data_length` in a Data payload.
pub const DATA_LENGTH_OFFSET: usize = 31;

/// Size of a Handshake payload.
pub const HANDSHAKE_LEN: usize = 10;

/// Size of a Fin payload.
pub const FIN_LEN: usize = 25;

/// Size of the fixed header of a Data payload; the body starts here.
pub const DATA_HEADER_LEN: usize = 35;

} // verus!
