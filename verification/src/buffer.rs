//! Trusted declarations for the byte buffers of the `bytes` crate.
//!
//! Message identifiers, message bodies and the outbound reply buffer are held
//! in `bytes::BytesMut` values, as the broker connection hands them out. The
//! buffer is opaque to the verifier; [`bytes_view`] names the byte sequence it
//! holds, and each wrapper below states what one `BytesMut` method does to
//! that sequence, exactly as the crate's source shows.

use vstd::prelude::*;

use bytes::BufMut;
use bytes::BytesMut;

verus! {

/// Declares `bytes::BytesMut` for use in signatures and fields.
#[verifier::external_type_specification]
#[verifier::external_body]
pub struct ExBytesMut(BytesMut);

/// The sequence of bytes a `BytesMut` holds (its length, not its capacity).
pub uninterp spec fn bytes_view(b: BytesMut) -> Seq<u8>;

/// Relies on `BytesMut::new`: the new buffer has length 0.
#[verifier::external_body]
pub fn bytes_new() -> (b: BytesMut)
    ensures
        bytes_view(b) == Seq::<u8>::empty(),
{
    BytesMut::new()
}

/// Relies on `From<&[u8]> for BytesMut`: the buffer holds a copy of the slice.
#[verifier::external_body]
pub fn bytes_from_slice(src: &[u8]) -> (b: BytesMut)
    ensures
        bytes_view(b) == src@,
{
    BytesMut::from(src)
}

/// Relies on `AsRef<[u8]> for BytesMut`: a view of exactly the held bytes.
#[verifier::external_body]
pub fn bytes_as_slice(b: &BytesMut) -> (s: &[u8])
    ensures
        s@ == bytes_view(*b),
{
    b.as_ref()
}

/// Relies on `Clone for BytesMut`, which copies the held bytes.
#[verifier::external_body]
pub fn bytes_clone(b: &BytesMut) -> (c: BytesMut)
    ensures
        bytes_view(c) == bytes_view(*b),
{
    b.clone()
}

/// Relies on `BytesMut::extend_from_slice`: appends the slice, growing the
/// buffer as needed. The new capacity must not overflow `usize`.
#[verifier::external_body]
pub fn bytes_extend(dst: &mut BytesMut, src: &[u8])
    requires
        bytes_view(*old(dst)).len() + src@.len() <= usize::MAX,
    ensures
        bytes_view(*final(dst)) == bytes_view(*old(dst)) + src@,
{
    dst.extend_from_slice(src);
}

/// Relies on `BytesMut::extend_from_slice` (through `AsRef`): appends the
/// bytes of another buffer.
#[verifier::external_body]
pub fn bytes_extend_bytes(dst: &mut BytesMut, src: &BytesMut)
    requires
        bytes_view(*old(dst)).len() + bytes_view(*src).len() <= usize::MAX,
    ensures
        bytes_view(*final(dst)) == bytes_view(*old(dst)) + bytes_view(*src),
{
    dst.extend_from_slice(src.as_ref());
}

/// Relies on `BufMut::remaining_mut for BytesMut`: the writable headroom,
/// `capacity - len`. The capacity is the allocator's business, so nothing is
/// promised of the result.
#[verifier::external_body]
pub fn bytes_remaining_mut(b: &BytesMut) -> usize {
    b.remaining_mut()
}

/// Relies on `BytesMut::reserve`: makes room for at least `additional` more
/// bytes and keeps the held bytes unchanged. The new capacity must not
/// overflow `usize`.
#[verifier::external_body]
pub fn bytes_reserve(b: &mut BytesMut, additional: usize)
    requires
        bytes_view(*old(b)).len() + additional <= usize::MAX,
    ensures
        bytes_view(*final(b)) == bytes_view(*old(b)),
{
    b.reserve(additional);
}

} // verus!
