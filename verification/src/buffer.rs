//! A byte buffer of the `bytes` crate, seen as the sequence of bytes it holds.
use bytes::{Buf, BufMut, BytesMut};
use vstd::prelude::*;

verus! {

#[verifier::external_type_specification]
#[verifier::external_body]
pub struct ExBytesMut(BytesMut);

/// The bytes that a `BytesMut` holds, front to back.
pub uninterp spec fn buf_view(b: BytesMut) -> Seq<u8>;

/// Big-endian value of the first two bytes of `s`.
pub open spec fn be16(s: Seq<u8>) -> int {
    s[0] * 0x100 + s[1]
}

/// Little-endian value of the first two bytes of `s`.
pub open spec fn le16(s: Seq<u8>) -> int {
    s[0] + s[1] * 0x100
}

/// Big-endian value of the first four bytes of `s`.
pub open spec fn be32(s: Seq<u8>) -> int {
    be16(s) * 0x10000 + be16(s.skip(2))
}

/// Big-endian value of the first eight bytes of `s`.
pub open spec fn be64(s: Seq<u8>) -> int {
    be32(s) * 0x1_0000_0000 + be32(s.skip(4))
}

/// The two's complement reading of a 32-bit pattern.
pub open spec fn signed32(v: int) -> int {
    if v < 0x8000_0000 { v } else { v - 0x1_0000_0000 }
}

/// The two's complement reading of a 64-bit pattern.
pub open spec fn signed64(v: int) -> int {
    if v < 0x8000_0000_0000_0000 { v } else { v - 0x1_0000_0000_0000_0000 }
}

/// `BytesMut::new`: an empty buffer.
#[verifier::external_body]
pub(crate) fn buf_new() -> (b: BytesMut)
    ensures
        buf_view(b) == Seq::<u8>::empty(),
{
    BytesMut::new()
}

/// `BytesMut::len`: the number of bytes held.
#[verifier::external_body]
pub(crate) fn buf_len(b: &BytesMut) -> (n: usize)
    ensures
        n == buf_view(*b).len(),
{
    b.len()
}

/// `Deref` of `BytesMut`: the held bytes as a slice.
#[verifier::external_body]
pub(crate) fn buf_as_slice(b: &BytesMut) -> (s: &[u8])
    ensures
        s@ == buf_view(*b),
{
    b
}

/// `Buf::get_u8`: takes the front byte off the buffer (it panics on an empty buffer).
#[verifier::external_body]
pub(crate) fn buf_get_u8(b: &mut BytesMut) -> (v: u8)
    requires
        buf_view(*old(b)).len() >= 1,
    ensures
        v == buf_view(*old(b))[0],
        buf_view(*final(b)) == buf_view(*old(b)).skip(1),
{
    b.get_u8()
}

/// `Buf::get_u16`: takes two bytes off the front and reads them big-endian.
#[verifier::external_body]
pub(crate) fn buf_get_u16(b: &mut BytesMut) -> (v: u16)
    requires
        buf_view(*old(b)).len() >= 2,
    ensures
        v == be16(buf_view(*old(b))),
        buf_view(*final(b)) == buf_view(*old(b)).skip(2),
{
    b.get_u16()
}

/// `Buf::get_u16_le`: takes two bytes off the front and reads them little-endian.
#[verifier::external_body]
pub(crate) fn buf_get_u16_le(b: &mut BytesMut) -> (v: u16)
    requires
        buf_view(*old(b)).len() >= 2,
    ensures
        v == le16(buf_view(*old(b))),
        buf_view(*final(b)) == buf_view(*old(b)).skip(2),
{
    b.get_u16_le()
}

/// `Buf::get_u32`: takes four bytes off the front and reads them big-endian.
#[verifier::external_body]
pub(crate) fn buf_get_u32(b: &mut BytesMut) -> (v: u32)
    requires
        buf_view(*old(b)).len() >= 4,
    ensures
        v == be32(buf_view(*old(b))),
        buf_view(*final(b)) == buf_view(*old(b)).skip(4),
{
    b.get_u32()
}

/// `Buf::get_i32`: takes four bytes off the front and reads them as a big-endian
/// two's complement integer.
#[verifier::external_body]
pub(crate) fn buf_get_i32(b: &mut BytesMut) -> (v: i32)
    requires
        buf_view(*old(b)).len() >= 4,
    ensures
        v == signed32(be32(buf_view(*old(b)))),
        buf_view(*final(b)) == buf_view(*old(b)).skip(4),
{
    b.get_i32()
}

/// `Buf::get_i64`: takes eight bytes off the front and reads them as a big-endian
/// two's complement integer.
#[verifier::external_body]
pub(crate) fn buf_get_i64(b: &mut BytesMut) -> (v: i64)
    requires
        buf_view(*old(b)).len() >= 8,
    ensures
        v == signed64(be64(buf_view(*old(b)))),
        buf_view(*final(b)) == buf_view(*old(b)).skip(8),
{
    b.get_i64()
}

/// `BufMut::put_slice`: appends the bytes of `s` (it panics past `isize::MAX` bytes).
#[verifier::external_body]
pub(crate) fn buf_put_slice(b: &mut BytesMut, s: &[u8])
    requires
        buf_view(*old(b)).len() + s@.len() <= isize::MAX,
    ensures
        buf_view(*final(b)) == buf_view(*old(b)) + s@,
{
    b.put_slice(s)
}

/// `BufMut::put_u8`: appends one byte (it panics past `isize::MAX` bytes).
#[verifier::external_body]
pub(crate) fn buf_put_u8(b: &mut BytesMut, v: u8)
    requires
        buf_view(*old(b)).len() + 1 <= isize::MAX,
    ensures
        buf_view(*final(b)) == buf_view(*old(b)).push(v),
{
    b.put_u8(v)
}

/// `BufMut::put`: appends all bytes of another buffer (it panics past `isize::MAX` bytes).
#[verifier::external_body]
pub(crate) fn buf_put(b: &mut BytesMut, src: BytesMut)
    requires
        buf_view(*old(b)).len() + buf_view(src).len() <= isize::MAX,
    ensures
        buf_view(*final(b)) == buf_view(*old(b)) + buf_view(src),
{
    b.put(src)
}

/// `BytesMut::split_to`: takes the first `at` bytes off into a buffer of their own
/// (it panics when fewer are held).
#[verifier::external_body]
pub(crate) fn buf_split_to(b: &mut BytesMut, at: usize) -> (front: BytesMut)
    requires
        at <= buf_view(*old(b)).len(),
    ensures
        buf_view(front) == buf_view(*old(b)).take(at as int),
        buf_view(*final(b)) == buf_view(*old(b)).skip(at as int),
{
    b.split_to(at)
}

/// `BufMut::put_u16` on a byte vector: appends `v` big-endian (it panics past
/// `isize::MAX` bytes).
#[verifier::external_body]
pub(crate) fn vec_put_u16(v: &mut Vec<u8>, n: u16)
    requires
        old(v)@.len() + 2 <= isize::MAX,
    ensures
        final(v)@ == old(v)@ + seq![(n / 0x100) as u8, (n % 0x100) as u8],
{
    v.put_u16(n)
}

/// `BytesMut::clear`: drops every byte held.
#[verifier::external_body]
pub(crate) fn buf_clear(b: &mut BytesMut)
    ensures
        buf_view(*final(b)) == Seq::<u8>::empty(),
{
    b.clear()
}

} // verus!
