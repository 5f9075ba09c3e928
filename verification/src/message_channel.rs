//! The message framing engine: turns an arbitrary byte stream into discrete,
//! length-delimited messages.
//!
//! The engine owns the read-side reassembly buffer and makes every framing
//! decision; the I/O loop around it only moves bytes. On the send side,
//! [`encode_frame`] builds the exact bytes one frame occupies on the wire —
//! the caller writes them and flushes. On the receive side, the caller
//! appends whatever the stream yielded with [`MessageChannel::push_chunk`]
//! and asks [`MessageChannel::take_frame`] for a complete payload; a frame is
//! handed out only when every one of its bytes has arrived.

use crate::buffers::bytes_contents;
use crate::buffers::bytes_mut_advance;
use crate::buffers::bytes_mut_contents;
use crate::buffers::bytes_mut_freeze;
use crate::buffers::bytes_mut_get;
use crate::buffers::bytes_mut_len;
use crate::buffers::bytes_mut_split_to;
use crate::buffers::bytes_mut_extend;
use crate::buffers::bytes_mut_with_capacity;
use crate::buffers::bytes_len;
use crate::buffers::bytes_to_vec;
use crate::error::ChannelError;
use crate::wire::be16_value;
use crate::wire::spec_extract;
use crate::wire::spec_frame;
use crate::wire::MAX_PAYLOAD_LEN;
use bytes::Bytes;
use bytes::BytesMut;
use vstd::prelude::*;

verus! {

/// A message for direct client/remote communication: one decoded frame's
/// opaque payload.
pub struct Message {
    /// The message payload.
    pub payload: Bytes,
}

/// Build the wire form of one frame: the 2-byte big-endian payload length
/// followed by the payload. Fails with `BufferOverflow`, and describes no
/// bytes to write, exactly when the payload exceeds the 16-bit length field.
pub fn encode_frame(payload: &Bytes) -> (r: Result<Vec<u8>, ChannelError>)
    ensures
        ({
            let p = bytes_contents(*payload);
            match r {
                Ok(frame) => p.len() <= MAX_PAYLOAD_LEN && frame@ == spec_frame(p),
                Err(e) => p.len() > MAX_PAYLOAD_LEN && (e matches ChannelError::BufferOverflow {
                    size,
                } && size == p.len()),
            }
        }),
{
    let n = bytes_len(payload);
    if n > MAX_PAYLOAD_LEN {
        return Err(ChannelError::BufferOverflow { size: n });
    }
    let mut frame: Vec<u8> = Vec::new();
    frame.push((n / 256) as u8);
    frame.push((n % 256) as u8);
    let mut body = bytes_to_vec(payload);
    frame.append(&mut body);
    proof {
        assert(frame@ =~= spec_frame(bytes_contents(*payload)));
    }
    Ok(frame)
}

/// The read half of a message channel: the growable buffer where bytes
/// already read from the stream wait until a frame is complete.
pub struct MessageChannel {
    read_buffer: BytesMut,
}

impl MessageChannel {
    /// The bytes read from the stream but not yet handed out as a payload.
    pub closed spec fn buffered(&self) -> Seq<u8> {
        bytes_mut_contents(self.read_buffer)
    }

    /// A fresh channel buffers nothing.
    pub fn new() -> (r: Self)
        ensures
            r.buffered() == Seq::<u8>::empty(),
    {
        MessageChannel { read_buffer: bytes_mut_with_capacity(4096) }
    }

    /// Append bytes the stream yielded to the reassembly buffer.
    pub fn push_chunk(&mut self, chunk: &Vec<u8>)
        ensures
            final(self).buffered() == old(self).buffered() + chunk@,
    {
        bytes_mut_extend(&mut self.read_buffer, chunk);
    }

    /// Take one complete frame's payload out of the buffer, if every byte of
    /// it has arrived; any further buffered bytes remain for the next call.
    /// A partial frame is left untouched — it is never handed out.
    pub fn take_frame(&mut self) -> (r: Option<Bytes>)
        ensures
            ({
                let pre = old(self).buffered();
                match spec_extract(pre) {
                    Some(pr) => r matches Some(p) && bytes_contents(p) == pr.0
                        && final(self).buffered() == pr.1,
                    None => r is None && final(self).buffered() == pre,
                }
            }),
    {
        let ghost pre = self.buffered();
        let len = bytes_mut_len(&self.read_buffer);
        if len >= 2 {
            let b0 = bytes_mut_get(&self.read_buffer, 0);
            let b1 = bytes_mut_get(&self.read_buffer, 1);
            let l: usize = (b0 as usize) * 256 + (b1 as usize);
            proof {
                assert(l == be16_value(b0, b1));
            }
            if len - 2 >= l {
                bytes_mut_advance(&mut self.read_buffer, 2);
                let head = bytes_mut_split_to(&mut self.read_buffer, l);
                let payload = bytes_mut_freeze(head);
                proof {
                    assert(bytes_contents(payload) =~= pre.subrange(2, 2 + l as int));
                    assert(self.buffered() =~= pre.skip(2 + l as int));
                }
                return Some(payload);
            }
        }
        None
    }
}

} // verus!
