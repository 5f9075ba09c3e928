//! The error kinds the core surfaces to its immediate caller.
//!
//! All failures are typed results; the core performs no automatic retry.
//! Retry and reconnect policy belong to the external connection manager.

use vstd::prelude::*;

verus! {

/// Which envelope direction an encode or decode failure concerns.
#[derive(Debug, Clone, Copy, PartialEq, Eq, Structural)]
pub enum Direction {
    /// A request being sent or received.
    Request,
    /// A response being sent or received.
    Response,
}

/// Failures of the message framing engine and the envelope layer.
#[derive(Debug, Clone, PartialEq, Eq)]
pub enum ChannelError {
    /// An attempted send exceeds the 65535-byte frame payload limit; nothing
    /// was written.
    BufferOverflow {
        /// Length of the rejected payload.
        size: usize,
    },
    /// The peer closed the stream while a header or payload was still
    /// outstanding; terminal for the channel.
    ChannelClosed,
    /// A structured encode or decode failed; an already-consumed frame is
    /// not recoverable.
    Serialization {
        /// Whether a request or a response was being handled.
        direction: Direction,
        /// What went wrong.
        reason: String,
    },
}

/// Failures of transport configuration.
#[derive(Debug, Clone, PartialEq, Eq)]
pub enum TransportError {
    /// A transport kind string that names none of the supported kinds.
    ConfigurationError {
        /// Names the offending string.
        reason: String,
    },
}

} // verus!
