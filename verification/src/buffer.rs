//! The byte buffer of the `bytes` crate that the codec reads frames from and
//! writes requests into.
use vstd::prelude::*;
use bytes::BytesMut;

verus! {

#[verifier::external_type_specification]
#[verifier::external_body]
pub struct ExBytesMut(bytes::BytesMut);

/// The bytes that a `bytes::BytesMut` holds, in order.
pub uninterp spec fn buffer_contents(buf: BytesMut) -> Seq<u8>;

/// Views the buffer as a slice (`BytesMut` dereferences to `[u8]`); the
/// slice holds the buffer's bytes in order. Like every slice of bytes, it
/// holds at most `isize::MAX` of them.
#[verifier::external_body]
pub(crate) fn buffer_bytes(buf: &BytesMut) -> (s: &[u8])
    ensures
        s@ == buffer_contents(*buf),
        s@.len() <= isize::MAX,
{
    &buf[..]
}

/// Calls `BytesMut::split_to`, which panics when `at` exceeds the length;
/// afterwards the buffer holds the bytes from `at` on, and the returned buffer
/// the first `at` bytes.
#[verifier::external_body]
pub(crate) fn buffer_split_to(buf: &mut BytesMut, at: usize) -> (front: BytesMut)
    requires
        at <= buffer_contents(*old(buf)).len(),
    ensures
        buffer_contents(*final(buf)) == buffer_contents(*old(buf)).skip(at as int),
        buffer_contents(front) == buffer_contents(*old(buf)).take(at as int),
{
    buf.split_to(at)
}

/// Calls `BytesMut::extend_from_slice`, which appends the bytes to the
/// buffer. The growth of the buffer's allocation can fail when the total
/// length comes near `isize::MAX`; inputs beyond that are left out, and
/// nothing is said of the buffer's capacity.
#[verifier::external_body]
pub(crate) fn buffer_extend(buf: &mut BytesMut, bytes: &[u8])
    requires
        buffer_contents(*old(buf)).len() + bytes@.len() <= isize::MAX,
    ensures
        buffer_contents(*final(buf)) == buffer_contents(*old(buf)) + bytes@,
{
    buf.extend_from_slice(bytes)
}

} // verus!
