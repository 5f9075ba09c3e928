//! Trusted contracts for the byte buffers of the `bytes` crate.
//!
//! The framing engine keeps its read-reassembly buffer in a `bytes::BytesMut`
//! and hands payloads out as `bytes::Bytes`. Verus does not read the `bytes`
//! crate, so the two types are declared here and each method the engine calls
//! is wrapped with the contract the crate's documentation gives it, stated
//! over the abstract contents of the buffer.

use bytes::Buf;
use bytes::Bytes;
use bytes::BytesMut;
use vstd::prelude::*;

verus! {

#[verifier::external_type_specification]
#[verifier::external_body]
pub struct ExBytes(Bytes);

#[verifier::external_type_specification]
#[verifier::external_body]
pub struct ExBytesMut(BytesMut);

/// The bytes a `Bytes` value holds, in order.
pub uninterp spec fn bytes_contents(b: Bytes) -> Seq<u8>;

/// The bytes a `BytesMut` buffer holds, in order.
pub uninterp spec fn bytes_mut_contents(b: BytesMut) -> Seq<u8>;

/// Relies on `Bytes::len`: how many bytes the value holds.
#[verifier::external_body]
pub(crate) fn bytes_len(b: &Bytes) -> (r: usize)
    ensures
        r == bytes_contents(*b).len(),
{
    b.len()
}

/// Relies on `Bytes`'s deref to a slice of its contents, copied out with
/// `<[u8]>::to_vec`.
#[verifier::external_body]
pub(crate) fn bytes_to_vec(b: &Bytes) -> (r: Vec<u8>)
    ensures
        r@ == bytes_contents(*b),
{
    b.to_vec()
}

/// Relies on `BytesMut::with_capacity`: a fresh buffer holds no bytes.
#[verifier::external_body]
pub(crate) fn bytes_mut_with_capacity(capacity: usize) -> (r: BytesMut)
    ensures
        bytes_mut_contents(r) == Seq::<u8>::empty(),
{
    BytesMut::with_capacity(capacity)
}

/// Relies on `BytesMut::len`: how many bytes the buffer holds.
#[verifier::external_body]
pub(crate) fn bytes_mut_len(b: &BytesMut) -> (r: usize)
    ensures
        r == bytes_mut_contents(*b).len(),
{
    b.len()
}

/// Relies on `BytesMut`'s deref to a slice of its contents: the byte at a
/// valid index.
#[verifier::external_body]
pub(crate) fn bytes_mut_get(b: &BytesMut, i: usize) -> (r: u8)
    requires
        i < bytes_mut_contents(*b).len(),
    ensures
        r == bytes_mut_contents(*b)[i as int],
{
    b[i]
}

/// Relies on `BytesMut::extend_from_slice`: appends the given bytes.
#[verifier::external_body]
pub(crate) fn bytes_mut_extend(b: &mut BytesMut, chunk: &Vec<u8>)
    ensures
        bytes_mut_contents(*final(b)) == bytes_mut_contents(*old(b)) + chunk@,
{
    b.extend_from_slice(chunk.as_slice())
}

/// Relies on `Buf::advance` on `BytesMut`: discards the first `n` bytes. The
/// crate panics when `n` exceeds the remaining length, so that is excluded.
#[verifier::external_body]
pub(crate) fn bytes_mut_advance(b: &mut BytesMut, n: usize)
    requires
        n <= bytes_mut_contents(*old(b)).len(),
    ensures
        bytes_mut_contents(*final(b)) == bytes_mut_contents(*old(b)).skip(n as int),
{
    b.advance(n)
}

/// Relies on `BytesMut::split_to`: the result takes the first `n` bytes and
/// the buffer keeps the rest. The crate panics when `n` exceeds the length,
/// so that is excluded.
#[verifier::external_body]
pub(crate) fn bytes_mut_split_to(b: &mut BytesMut, n: usize) -> (r: BytesMut)
    requires
        n <= bytes_mut_contents(*old(b)).len(),
    ensures
        bytes_mut_contents(r) == bytes_mut_contents(*old(b)).take(n as int),
        bytes_mut_contents(*final(b)) == bytes_mut_contents(*old(b)).skip(n as int),
{
    b.split_to(n)
}

/// Relies on `BytesMut::freeze`: the contents carry over unchanged.
#[verifier::external_body]
pub(crate) fn bytes_mut_freeze(b: BytesMut) -> (r: Bytes)
    ensures
        bytes_contents(r) == bytes_mut_contents(b),
{
    b.freeze()
}

} // verus!
