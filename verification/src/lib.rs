//! Core of a controller/agent communication stack: a transport capability
//! model, a connection state machine, a binary message-framing engine with
//! partial-read reassembly, and a structured request/response envelope.

pub mod buffers;
pub mod error;
pub mod message_channel;
pub mod protocol;
pub mod transport;
pub mod wire;
