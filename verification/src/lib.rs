//! Core frame types of the rapace RPC transport layer: the hot message
//! descriptor, frames and send frames with their payload storage, the byte
//! layout of a frame on a message-oriented connection, and the connection
//! state machine that a WebSocket transport drives.

mod desc;
mod error;
mod frame;
mod handle;
mod link;
mod wire;

pub use desc::{MsgDescHot, INLINE_PAYLOAD_SIZE, INLINE_PAYLOAD_SLOT, NO_DEADLINE};
pub use error::{IoDetail, IoErrorKind, TransportError};
pub use frame::{Frame, Payload};
pub use handle::{
    MemTransportStub, Prioritized, QoSClass, SendFrame, ShmTransportStub, StreamTransportStub,
    Transport, WebSocketTransportStub,
};
pub use link::{Inbound, LinkState, RecvStep};
pub use wire::{bytes_to_desc, decode_frame, desc_to_bytes, encode_frame, DESC_SIZE};
