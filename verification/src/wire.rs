//! Big-endian integer encodings, as used by every field of the protocol.
use vstd::prelude::*;

use crate::utils::ErrorCode;

verus! {

/// The two bytes of `v`, most significant first.
pub open spec fn be16(v: u16) -> Seq<u8> {
    seq![((v >> 8u16) & 0xffu16) as u8, (v & 0xffu16) as u8]
}

/// The value of two big-endian bytes.
pub open spec fn from_be16(b0: u8, b1: u8) -> u16 {
    ((b0 as u16) << 8u16) | (b1 as u16)
}

/// The four bytes of `v`, most significant first.
pub open spec fn be32(v: u32) -> Seq<u8> {
    seq![
        ((v >> 24u32) & 0xffu32) as u8,
        ((v >> 16u32) & 0xffu32) as u8,
        ((v >> 8u32) & 0xffu32) as u8,
        (v & 0xffu32) as u8,
    ]
}

/// The value of four big-endian bytes.
pub open spec fn from_be32(s: Seq<u8>) -> u32 {
    ((s[0] as u32) << 24u32) | ((s[1] as u32) << 16u32) | ((s[2] as u32) << 8u32) | (s[3] as u32)
}

/// The eight bytes of `v`, most significant first.
pub open spec fn be64(v: u64) -> Seq<u8> {
    seq![
        ((v >> 56u64) & 0xffu64) as u8,
        ((v >> 48u64) & 0xffu64) as u8,
        ((v >> 40u64) & 0xffu64) as u8,
        ((v >> 32u64) & 0xffu64) as u8,
        ((v >> 24u64) & 0xffu64) as u8,
        ((v >> 16u64) & 0xffu64) as u8,
        ((v >> 8u64) & 0xffu64) as u8,
        (v & 0xffu64) as u8,
    ]
}

/// The value of eight big-endian bytes.
pub open spec fn from_be64(s: Seq<u8>) -> u64 {
    ((s[0] as u64) << 56u64) | ((s[1] as u64) << 48u64) | ((s[2] as u64) << 40u64) | ((s[3] as u64)
        << 32u64) | ((s[4] as u64) << 24u64) | ((s[5] as u64) << 16u64) | ((s[6] as u64) << 8u64)
        | (s[7] as u64)
}

/// Decoding the encoding of a `u16` gives it back.
pub proof fn lemma_be16_roundtrip(v: u16)
    ensures
        be16(v).len() == 2,
        from_be16(be16(v)[0], be16(v)[1]) == v,
{
    assert((((((v >> 8u16) & 0xffu16) as u8) as u16) << 8u16) | (((v & 0xffu16) as u8) as u16)
        == v) by (bit_vector);
}

/// Encoding the value of two bytes gives them back.
pub proof fn lemma_from_be16_roundtrip(b0: u8, b1: u8)
    ensures
        be16(from_be16(b0, b1)) == seq![b0, b1],
{
    let v = from_be16(b0, b1);
    assert(((((((b0 as u16) << 8u16) | (b1 as u16)) >> 8u16) & 0xffu16) as u8) == b0
        && (((((b0 as u16) << 8u16) | (b1 as u16)) & 0xffu16) as u8) == b1) by (bit_vector);
    assert(be16(v) =~= seq![b0, b1]);
}

/// Decoding the encoding of a `u32` gives it back.
pub proof fn lemma_be32_roundtrip(v: u32)
    ensures
        be32(v).len() == 4,
        from_be32(be32(v)) == v,
{
    let s = be32(v);
    assert(((((((v >> 24u32) & 0xffu32) as u8) as u32) << 24u32) | (((((v >> 16u32) & 0xffu32)
        as u8) as u32) << 16u32) | (((((v >> 8u32) & 0xffu32) as u8) as u32) << 8u32) | (((v
        & 0xffu32) as u8) as u32)) == v) by (bit_vector);
}

/// Encoding the value of four bytes gives them back.
pub proof fn lemma_from_be32_roundtrip(s: Seq<u8>)
    requires
        s.len() == 4,
    ensures
        be32(from_be32(s)) == s,
{
    let (b0, b1, b2, b3) = (s[0], s[1], s[2], s[3]);
    let v = from_be32(s);
    assert(v == ((b0 as u32) << 24u32) | ((b1 as u32) << 16u32) | ((b2 as u32) << 8u32) | (
    b3 as u32));
    assert({
        let w = ((b0 as u32) << 24u32) | ((b1 as u32) << 16u32) | ((b2 as u32) << 8u32) | (
        b3 as u32);
        &&& (((w >> 24u32) & 0xffu32) as u8) == b0
        &&& (((w >> 16u32) & 0xffu32) as u8) == b1
        &&& (((w >> 8u32) & 0xffu32) as u8) == b2
        &&& ((w & 0xffu32) as u8) == b3
    }) by (bit_vector);
    assert(be32(v) =~= s);
}

/// Decoding the encoding of a `u64` gives it back.
pub proof fn lemma_be64_roundtrip(v: u64)
    ensures
        be64(v).len() == 8,
        from_be64(be64(v)) == v,
{
    assert(((((((v >> 56u64) & 0xffu64) as u8) as u64) << 56u64) | (((((v >> 48u64) & 0xffu64)
        as u8) as u64) << 48u64) | (((((v >> 40u64) & 0xffu64) as u8) as u64) << 40u64) | (((((v
        >> 32u64) & 0xffu64) as u8) as u64) << 32u64) | (((((v >> 24u64) & 0xffu64) as u8) as u64)
        << 24u64) | (((((v >> 16u64) & 0xffu64) as u8) as u64) << 16u64) | (((((v >> 8u64)
        & 0xffu64) as u8) as u64) << 8u64) | (((v & 0xffu64) as u8) as u64)) == v) by (bit_vector);
}

/// Encoding the value of eight bytes gives them back.
pub proof fn lemma_from_be64_roundtrip(s: Seq<u8>)
    requires
        s.len() == 8,
    ensures
        be64(from_be64(s)) == s,
{
    let (b0, b1, b2, b3, b4, b5, b6, b7) = (s[0], s[1], s[2], s[3], s[4], s[5], s[6], s[7]);
    let v = from_be64(s);
    assert({
        let w = ((b0 as u64) << 56u64) | ((b1 as u64) << 48u64) | ((b2 as u64) << 40u64) | ((
        b3 as u64) << 32u64) | ((b4 as u64) << 24u64) | ((b5 as u64) << 16u64) | ((b6 as u64)
            << 8u64) | (b7 as u64);
        &&& (((w >> 56u64) & 0xffu64) as u8) == b0
        &&& (((w >> 48u64) & 0xffu64) as u8) == b1
        &&& (((w >> 40u64) & 0xffu64) as u8) == b2
        &&& (((w >> 32u64) & 0xffu64) as u8) == b3
        &&& (((w >> 24u64) & 0xffu64) as u8) == b4
        &&& (((w >> 16u64) & 0xffu64) as u8) == b5
        &&& (((w >> 8u64) & 0xffu64) as u8) == b6
        &&& ((w & 0xffu64) as u8) == b7
    }) by (bit_vector);
    assert(be64(v) =~= s);
}

/// Appends the big-endian bytes of `v` to `buf`.
pub fn push_be16(buf: &mut Vec<u8>, v: u16)
    ensures
        final(buf)@ == old(buf)@ + be16(v),
{
    buf.push(((v >> 8u16) & 0xffu16) as u8);
    buf.push((v & 0xffu16) as u8);
    assert(buf@ =~= old(buf)@ + be16(v));
}

/// Appends the big-endian bytes of `v` to `buf`.
pub fn push_be32(buf: &mut Vec<u8>, v: u32)
    ensures
        final(buf)@ == old(buf)@ + be32(v),
{
    buf.push(((v >> 24u32) & 0xffu32) as u8);
    buf.push(((v >> 16u32) & 0xffu32) as u8);
    buf.push(((v >> 8u32) & 0xffu32) as u8);
    buf.push((v & 0xffu32) as u8);
    assert(buf@ =~= old(buf)@ + be32(v));
}

/// Appends the big-endian bytes of `v` to `buf`.
pub fn push_be64(buf: &mut Vec<u8>, v: u64)
    ensures
        final(buf)@ == old(buf)@ + be64(v),
{
    buf.push(((v >> 56u64) & 0xffu64) as u8);
    buf.push(((v >> 48u64) & 0xffu64) as u8);
    buf.push(((v >> 40u64) & 0xffu64) as u8);
    buf.push(((v >> 32u64) & 0xffu64) as u8);
    buf.push(((v >> 24u64) & 0xffu64) as u8);
    buf.push(((v >> 16u64) & 0xffu64) as u8);
    buf.push(((v >> 8u64) & 0xffu64) as u8);
    buf.push((v & 0xffu64) as u8);
    assert(buf@ =~= old(buf)@ + be64(v));
}

/// Appends every byte of `src` to `buf`.
pub fn push_bytes(buf: &mut Vec<u8>, src: &[u8])
    ensures
        final(buf)@ == old(buf)@ + src@,
{
    buf.extend_from_slice(src);
}

/// The `u16` stored big-endian at `s[at..at + 2]`.
pub fn read_be16(s: &[u8], at: usize) -> (r: u16)
    requires
        at + 2 <= s@.len(),
    ensures
        r == from_be16(s@[at as int], s@[at + 1]),
{
    ((s[at] as u16) << 8u16) | (s[at + 1] as u16)
}

/// The `u32` stored big-endian at `s[at..at + 4]`.
pub fn read_be32(s: &[u8], at: usize) -> (r: u32)
    requires
        at + 4 <= s@.len(),
    ensures
        r == from_be32(s@.subrange(at as int, at + 4)),
{
    ((s[at] as u32) << 24u32) | ((s[at + 1] as u32) << 16u32) | ((s[at + 2] as u32) << 8u32) | (
    s[at + 3] as u32)
}

/// The `u64` stored big-endian at `s[at..at + 8]`.
pub fn read_be64(s: &[u8], at: usize) -> (r: u64)
    requires
        at + 8 <= s@.len(),
    ensures
        r == from_be64(s@.subrange(at as int, at + 8)),
{
    ((s[at] as u64) << 56u64) | ((s[at + 1] as u64) << 48u64) | ((s[at + 2] as u64) << 40u64) | ((
    s[at + 3] as u64) << 32u64) | ((s[at + 4] as u64) << 24u64) | ((s[at + 5] as u64) << 16u64)
        | ((s[at + 6] as u64) << 8u64) | (s[at + 7] as u64)
}

/// What an encoding gave, with the bytes taken by their view.
pub open spec fn bytes_result(r: Result<Vec<u8>, ErrorCode>) -> Result<Seq<u8>, ErrorCode> {
    match r {
        Ok(v) => Ok(v@),
        Err(e) => Err(e),
    }
}

/// A message part that can be turned into its wire bytes. `Err(Empty)` means
/// that the part contributes no bytes; any other error means that it is
/// inconsistent and cannot be sent.
pub trait Encode: Sized {
    /// The bytes of this part, or why there are none.
    spec fn encoded(&self) -> Result<Seq<u8>, ErrorCode>;

    /// Turns this part into its bytes.
    fn encode(self) -> (r: Result<Vec<u8>, ErrorCode>)
        ensures
            bytes_result(r) == self.encoded(),
    ;
}

/// A whole message: the header's bytes followed by the body's. A body that is
/// `Empty` adds nothing; any other failure of the body fails the message with
/// `fail`.
pub open spec fn framed(header: Seq<u8>, body: Result<Seq<u8>, ErrorCode>, fail: ErrorCode) -> Result<
    Seq<u8>,
    ErrorCode,
> {
    match body {
        Ok(b) => Ok(header + b),
        Err(ErrorCode::Empty) => Ok(header),
        Err(_) => Err(fail),
    }
}

} // verus!
