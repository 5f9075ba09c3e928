//! The mathematical model of the wire format.
//!
//! A frame is a 16-bit big-endian length followed by exactly that many
//! payload bytes; the frame boundary is the sole unit of atomicity. This
//! module states the format as spec functions over byte sequences and proves
//! the properties the framing engine is held to: a frame round-trips, the
//! result is invariant under arbitrary fragmentation of the byte stream, and
//! a partial frame never yields a payload.

use vstd::arithmetic::div_mod::lemma_fundamental_div_mod;
use vstd::prelude::*;

verus! {

/// The largest payload one frame can carry: the length field is 16 bits.
pub const MAX_PAYLOAD_LEN: usize = 65535;

/// The two big-endian bytes of a 16-bit length.
pub open spec fn be16_bytes(n: nat) -> Seq<u8>
    recommends
        n <= MAX_PAYLOAD_LEN,
{
    seq![(n / 256) as u8, (n % 256) as u8]
}

/// The value a big-endian 16-bit length field denotes.
pub open spec fn be16_value(b0: u8, b1: u8) -> nat {
    (b0 as nat) * 256 + (b1 as nat)
}

/// A byte string preceded by its 16-bit big-endian length.
pub open spec fn len_prefixed(b: Seq<u8>) -> Seq<u8>
    recommends
        b.len() <= MAX_PAYLOAD_LEN,
{
    be16_bytes(b.len()) + b
}

/// The wire form of one frame carrying the given payload.
pub open spec fn spec_frame(payload: Seq<u8>) -> Seq<u8>
    recommends
        payload.len() <= MAX_PAYLOAD_LEN,
{
    len_prefixed(payload)
}

/// What a receiver can take from a reassembly buffer: `Some((payload, rest))`
/// when the buffer begins with a complete frame, `None` when it does not yet.
pub open spec fn spec_extract(buf: Seq<u8>) -> Option<(Seq<u8>, Seq<u8>)> {
    if buf.len() < 2 {
        None
    } else {
        let l = be16_value(buf[0], buf[1]) as int;
        if buf.len() >= 2 + l {
            Some((buf.subrange(2, 2 + l), buf.skip(2 + l)))
        } else {
            None
        }
    }
}

/// Encoding a 16-bit length and reading it back is the identity.
pub proof fn lemma_be16_round_trip(n: nat)
    requires
        n <= MAX_PAYLOAD_LEN,
    ensures
        be16_value(be16_bytes(n)[0], be16_bytes(n)[1]) == n,
{
    lemma_fundamental_div_mod(n as int, 256);
    assert(n / 256 <= 255) by (nonlinear_arith)
        requires
            n <= 65535,
    ;
}

/// Round trip of the framing layer: a buffer that begins with the frame of a
/// payload yields exactly that payload, and exactly the following bytes
/// remain buffered for the next call.
pub proof fn lemma_frame_round_trip(payload: Seq<u8>, rest: Seq<u8>)
    requires
        payload.len() <= MAX_PAYLOAD_LEN,
    ensures
        spec_extract(spec_frame(payload) + rest) == Some((payload, rest)),
{
    let buf = spec_frame(payload) + rest;
    lemma_be16_round_trip(payload.len());
    assert(be16_value(buf[0], buf[1]) == payload.len());
    assert(buf.subrange(2, 2 + payload.len() as int) =~= payload);
    assert(buf.skip(2 + payload.len() as int) =~= rest);
}

/// Fragmentation invariance: however the bytes of one valid frame are split
/// across underlying reads, the buffer the reads build up is their
/// concatenation, and extraction returns the exact original payload with
/// nothing left over.
pub proof fn lemma_fragmentation_invariance(chunks: Seq<Seq<u8>>, payload: Seq<u8>)
    requires
        payload.len() <= MAX_PAYLOAD_LEN,
        chunks.flatten() == spec_frame(payload),
    ensures
        spec_extract(chunks.flatten()) == Some((payload, Seq::<u8>::empty())),
{
    assert(spec_frame(payload) + Seq::<u8>::empty() =~= spec_frame(payload));
    lemma_frame_round_trip(payload, Seq::<u8>::empty());
}

/// A strict prefix of a frame never yields a payload: a receiver that has
/// seen only part of a header or part of a payload cannot return a truncated
/// success.
pub proof fn lemma_partial_frame_yields_nothing(payload: Seq<u8>, k: int)
    requires
        payload.len() <= MAX_PAYLOAD_LEN,
        0 <= k < spec_frame(payload).len(),
    ensures
        spec_extract(spec_frame(payload).take(k)) is None,
{
    let frame = spec_frame(payload);
    let part = frame.take(k);
    if k >= 2 {
        lemma_be16_round_trip(payload.len());
        assert(part[0] == frame[0]);
        assert(part[1] == frame[1]);
        assert(be16_value(part[0], part[1]) == payload.len());
        assert(part.len() < 2 + payload.len());
    }
}

} // verus!
