//! Wire codec for a multiplexed tunnel between a controller and a controlled
//! endpoint.
//!
//! Every frame on the link is a tag byte followed by a payload. The payload
//! decoders come in two forms that share one offset table: `read_from`
//! takes a message from the front of an in-memory stream, and the
//! `handle_*_message` functions decode a payload that was buffered whole.
//! `write_to` appends a payload to a buffer without its tag; the
//! `create_*_response` functions build whole frames.

pub mod data;
pub mod error;
pub mod fin;
pub mod handshake;
pub mod ident;
pub mod layout;
pub mod response;
pub mod tag;
pub mod wire;

pub use data::{handle_data_message, DataMessage};
pub use error::ProtoError;
pub use fin::{handle_fin_message, FinMessage};
pub use handshake::{handle_handshake_message, HandshakeMessage};
pub use ident::{bytes_to_string, generate_session_id, string_to_fixed_bytes};
pub use response::{
    create_data_response, create_fin_response, create_handshake_ok_response, DataFrame,
};
pub use tag::{
    is_valid_source_type, MessageType, SOURCE_TYPE_CONTROLLED, SOURCE_TYPE_CONTROLLER,
};
