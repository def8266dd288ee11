//! The byte buffer of the `bytes` crate, as the library sees it.
//!
//! A `BytesMut` is known by the bytes it holds. Each contract here says what
//! a call does to those bytes, as the crate's source shows it. A call that
//! makes the buffer grow is taken to return: as with `Vec` in vstd, running
//! out of memory is not described.

use crate::packet::wire::long_bytes;
use bytes::{Buf, BufMut, BytesMut};
use vstd::prelude::*;

verus! {

/// `bytes::BytesMut`, a growable buffer of bytes. Nothing of its fields is
/// known; what it holds is `buffer_bytes`.
#[verifier::external_type_specification]
#[verifier::external_body]
pub struct ExBytesMut(BytesMut);

/// The bytes that a buffer holds, first to last.
pub uninterp spec fn buffer_bytes(buf: &BytesMut) -> Seq<u8>;

/// `BytesMut::new`: a buffer that holds no bytes.
pub assume_specification[ BytesMut::new ]() -> (buf: BytesMut)
    ensures
        buffer_bytes(&buf) == Seq::<u8>::empty(),
;

/// `BytesMut::len`: the number of bytes held.
pub assume_specification[ BytesMut::len ](buf: &BytesMut) -> (n: usize)
    ensures
        n == buffer_bytes(buf).len(),
;

/// `BytesMut::is_empty`: whether no byte is held.
pub assume_specification[ BytesMut::is_empty ](buf: &BytesMut) -> (b: bool)
    ensures
        b == (buffer_bytes(buf).len() == 0),
;

/// `BytesMut::extend_from_slice`: the bytes of `extend` are added at the end, in order.
pub assume_specification[ BytesMut::extend_from_slice ](buf: &mut BytesMut, extend: &[u8])
    ensures
        buffer_bytes(final(buf)) == buffer_bytes(old(buf)) + extend@,
;

/// `BufMut::put_u8` on a `BytesMut`: one byte is added at the end.
#[verifier::external_body]
pub(crate) fn put_u8(buf: &mut BytesMut, byte: u8)
    ensures
        buffer_bytes(final(buf)) == buffer_bytes(old(buf)).push(byte),
{
    buf.put_u8(byte)
}

/// `BufMut::put_i64` on a `BytesMut`: the eight bytes of `value` are added at
/// the end, the highest first.
#[verifier::external_body]
pub(crate) fn put_i64(buf: &mut BytesMut, value: i64)
    ensures
        buffer_bytes(final(buf)) == buffer_bytes(old(buf)) + long_bytes(value),
{
    buf.put_i64(value)
}

/// `Buf::advance` on a `BytesMut`: the first `count` bytes are dropped. The
/// call panics where the buffer holds fewer bytes, so that is ruled out.
#[verifier::external_body]
pub(crate) fn advance(buf: &mut BytesMut, count: usize)
    requires
        count <= buffer_bytes(old(buf)).len(),
    ensures
        buffer_bytes(final(buf)) == buffer_bytes(old(buf)).skip(count as int),
{
    buf.advance(count)
}

/// The `Deref` of a `BytesMut`: the bytes it holds, as a slice.
#[verifier::external_body]
pub(crate) fn as_slice(buf: &BytesMut) -> (bytes: &[u8])
    ensures
        bytes@ == buffer_bytes(buf),
{
    &buf[..]
}

} // verus!
