//! Little-endian field encoding.
use vstd::prelude::*;

verus! {

/// The two bytes of `x`, least significant first.
pub open spec fn le16(x: u16) -> Seq<u8> {
    seq![x as u8, (x >> 8u16) as u8]
}

/// The four bytes of `x`, least significant first.
pub open spec fn le32(x: u32) -> Seq<u8> {
    seq![x as u8, (x >> 8u32) as u8, (x >> 16u32) as u8, (x >> 24u32) as u8]
}

/// The eight bytes of `x`, least significant first.
pub open spec fn le64(x: u64) -> Seq<u8> {
    le32(x as u32) + le32((x >> 32u64) as u32)
}

/// A fresh buffer holding the four bytes of `x`.
pub fn u32_bytes(x: u32) -> (r: Vec<u8>)
    ensures
        r@ == le32(x),
{
    let mut r: Vec<u8> = Vec::new();
    push_u32(&mut r, x);
    assert(r@ =~= le32(x));
    r
}

/// A value clamped to what a 32-bit field can hold.
pub open spec fn clamp32(x: u64) -> u32 {
    if x > 0xFFFF_FFFF {
        0xFFFF_FFFFu32
    } else {
        x as u32
    }
}

pub fn clamp_u32(x: u64) -> (r: u32)
    ensures
        r == clamp32(x),
{
    if x > 0xFFFF_FFFF {
        0xFFFF_FFFFu32
    } else {
        x as u32
    }
}

pub fn push_u16(buf: &mut Vec<u8>, x: u16)
    ensures
        final(buf)@ == old(buf)@ + le16(x),
{
    buf.push(x as u8);
    buf.push((x >> 8u16) as u8);
    assert(buf@ =~= old(buf)@ + le16(x));
}

pub fn push_u32(buf: &mut Vec<u8>, x: u32)
    ensures
        final(buf)@ == old(buf)@ + le32(x),
{
    buf.push(x as u8);
    buf.push((x >> 8u32) as u8);
    buf.push((x >> 16u32) as u8);
    buf.push((x >> 24u32) as u8);
    assert(buf@ =~= old(buf)@ + le32(x));
}

pub fn push_u64(buf: &mut Vec<u8>, x: u64)
    ensures
        final(buf)@ == old(buf)@ + le64(x),
{
    let ghost start = buf@;
    push_u32(buf, x as u32);
    push_u32(buf, (x >> 32u64) as u32);
    assert(buf@ =~= start + le64(x));
}

/// Appends every byte of `bytes`.
pub fn push_bytes(buf: &mut Vec<u8>, bytes: &[u8])
    ensures
        final(buf)@ == old(buf)@ + bytes@,
{
    let ghost start = buf@;
    let mut i: usize = 0;
    while i < bytes.len()
        invariant
            0 <= i <= bytes@.len(),
            buf@ == start + bytes@.subrange(0, i as int),
        decreases bytes@.len() - i,
    {
        buf.push(bytes[i]);
        i = i + 1;
        assert(buf@ =~= start + bytes@.subrange(0, i as int));
    }
    assert(bytes@.subrange(0, i as int) =~= bytes@);
}

/// A slice never holds more than `usize::MAX` elements.
pub proof fn lemma_slice_len_bound(s: &[u8])
    ensures
        s@.len() <= usize::MAX,
{
    broadcast use vstd::slice::axiom_spec_len;

    assert(s@.len() == vstd::slice::spec_slice_len(s));
}

} // verus!
