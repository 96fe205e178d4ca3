//! The byte buffer that the wire codec reads frames from and writes frames to.
//!
//! The buffer is `bytes::BytesMut`.  Verus sees it only through the contents
//! that `buffer_contents` names and through the wrappers below, one for each
//! method that the codec calls.

use vstd::prelude::*;
use bytes::BytesMut;

verus! {

/// `bytes::BytesMut`, carried through verified code as an opaque value.
#[verifier::external_type_specification]
#[verifier::external_body]
pub struct ExBytesMut(bytes::BytesMut);

/// The bytes that a `BytesMut` currently holds, front first.
pub uninterp spec fn buffer_contents(b: BytesMut) -> Seq<u8>;

/// The four bytes of `n` in big-endian order.
pub open spec fn be_u32_bytes(n: u32) -> Seq<u8> {
    seq![
        (n / 0x100_0000) as u8,
        ((n / 0x1_0000) % 0x100) as u8,
        ((n / 0x100) % 0x100) as u8,
        (n % 0x100) as u8,
    ]
}

/// Whether the target is 64-bit.
///
/// Growing a `BytesMut` asks std's `Vec` for more than the bytes held plus
/// the bytes added: the bytes already handed out stay in front of the
/// allocation, and a shared buffer asks for up to twice its capacity.  `Vec`
/// panics with "capacity overflow" once a request passes `isize::MAX`.  On a
/// 32-bit target a buffer of a little over 1 GiB can get there; on a 64-bit
/// target that would take an allocation of 2^62 bytes, far beyond any
/// address space, where the allocator fails (and aborts) first.  So the
/// operations that grow a buffer are claimed to return only on 64-bit
/// targets.
pub open spec fn is_64_bit_target() -> bool {
    usize::BITS == 64
}

/// `BytesMut::len`: the number of bytes held.
#[verifier::external_body]
pub(crate) fn buf_len(b: &BytesMut) -> (n: usize)
    ensures
        n == buffer_contents(*b).len(),
{
    b.len()
}

/// Indexing through `BytesMut`'s `Deref<Target = [u8]>`: the byte at `i`.
#[verifier::external_body]
pub(crate) fn buf_byte(b: &BytesMut, i: usize) -> (x: u8)
    requires
        i < buffer_contents(*b).len(),
    ensures
        x == buffer_contents(*b)[i as int],
{
    b[i]
}

/// `Buf::advance` on `BytesMut`: drops the first `n` bytes.
/// The source asserts `n <= len`, so that is required.
#[verifier::external_body]
pub(crate) fn buf_advance(b: &mut BytesMut, n: usize)
    requires
        n <= buffer_contents(*old(b)).len(),
    ensures
        buffer_contents(*final(b)) == buffer_contents(*old(b)).skip(n as int),
{
    bytes::Buf::advance(b, n)
}

/// `BytesMut::split_to`: hands out the first `at` bytes and keeps the rest.
/// The source asserts `at <= len`, so that is required.
#[verifier::external_body]
pub(crate) fn buf_split_to(b: &mut BytesMut, at: usize) -> (head: BytesMut)
    requires
        at <= buffer_contents(*old(b)).len(),
    ensures
        buffer_contents(head) == buffer_contents(*old(b)).take(at as int),
        buffer_contents(*final(b)) == buffer_contents(*old(b)).skip(at as int),
{
    b.split_to(at)
}

/// `BytesMut::reserve`: makes room for `additional` more bytes and leaves the
/// contents as they are.  It panics when the capacity it asks for passes
/// `isize::MAX`, which a 64-bit target cannot reach (see
/// `is_64_bit_target`); the bytes held and added stay within that bound.
/// Not stated: the capacity reached.
#[verifier::external_body]
pub(crate) fn buf_reserve(b: &mut BytesMut, additional: usize)
    requires
        is_64_bit_target(),
        buffer_contents(*old(b)).len() + additional <= isize::MAX,
    ensures
        buffer_contents(*final(b)) == buffer_contents(*old(b)),
{
    b.reserve(additional)
}

/// `BufMut::put_u32` on `BytesMut`: appends `n` in big-endian byte order.
/// It grows the buffer as `reserve` does, so the same bounds hold.
#[verifier::external_body]
pub(crate) fn buf_put_u32(b: &mut BytesMut, n: u32)
    requires
        is_64_bit_target(),
        buffer_contents(*old(b)).len() + 4 <= isize::MAX,
    ensures
        buffer_contents(*final(b)) == buffer_contents(*old(b)) + be_u32_bytes(n),
{
    bytes::BufMut::put_u32(b, n)
}

/// `BytesMut::extend_from_slice`: appends `data`.  It grows the buffer as
/// `reserve` does, so the same bounds hold.
#[verifier::external_body]
pub(crate) fn buf_extend_from_slice(b: &mut BytesMut, data: &[u8])
    requires
        is_64_bit_target(),
        buffer_contents(*old(b)).len() + data@.len() <= isize::MAX,
    ensures
        buffer_contents(*final(b)) == buffer_contents(*old(b)) + data@,
{
    b.extend_from_slice(data)
}

/// The number of bytes a buffer holds, for callers that must show that a
/// frame still fits in it.
pub fn buffer_len(b: &BytesMut) -> (n: usize)
    ensures
        n == buffer_contents(*b).len(),
{
    buf_len(b)
}

} // verus!
