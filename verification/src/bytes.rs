//! Little-endian byte helpers shared by the wire-format modules.

use vstd::prelude::*;

verus! {

/// Low byte of a 16-bit value.
pub open spec fn le_lo(x: u16) -> u8 {
    (x % 256) as u8
}

/// High byte of a 16-bit value.
pub open spec fn le_hi(x: u16) -> u8 {
    (x / 256) as u8
}

/// The 16-bit value whose little-endian bytes are `b0, b1`.
pub open spec fn le16(b0: u8, b1: u8) -> u16 {
    (b0 as int + 256 * (b1 as int)) as u16
}

/// The 32-bit value whose little-endian bytes are `b0..b3`.
pub open spec fn le32(b0: u8, b1: u8, b2: u8, b3: u8) -> u32 {
    (b0 as int + 256 * (b1 as int) + 65536 * (b2 as int) + 16777216 * (b3 as int)) as u32
}

/// The two little-endian bytes of a 16-bit value.
pub open spec fn le16_bytes(x: u16) -> Seq<u8> {
    seq![le_lo(x), le_hi(x)]
}

/// Splitting a value into bytes and joining them gives the value back.
pub proof fn lemma_le16_roundtrip(x: u16)
    ensures
        le16(le_lo(x), le_hi(x)) == x,
{
}

/// Joining bytes and splitting the value gives the bytes back.
pub proof fn lemma_le16_split(b0: u8, b1: u8)
    ensures
        le_lo(le16(b0, b1)) == b0,
        le_hi(le16(b0, b1)) == b1,
{
}

pub fn u16_from_le(b0: u8, b1: u8) -> (r: u16)
    ensures
        r == le16(b0, b1),
{
    (b0 as u16) + (b1 as u16) * 256
}

pub fn u32_from_le(b0: u8, b1: u8, b2: u8, b3: u8) -> (r: u32)
    ensures
        r == le32(b0, b1, b2, b3),
{
    (b0 as u32) + (b1 as u32) * 256 + (b2 as u32) * 65536 + (b3 as u32) * 16777216
}

pub fn low_byte(x: u16) -> (r: u8)
    ensures
        r == le_lo(x),
{
    (x % 256) as u8
}

pub fn high_byte(x: u16) -> (r: u8)
    ensures
        r == le_hi(x),
{
    (x / 256) as u8
}

/// Appends the little-endian bytes of `x`.
pub fn push_u16_le(v: &mut Vec<u8>, x: u16)
    ensures
        final(v)@ == old(v)@ + le16_bytes(x),
{
    v.push(low_byte(x));
    v.push(high_byte(x));
}

/// Appends every byte of `s`, in order.
pub fn append_bytes(v: &mut Vec<u8>, s: &[u8])
    ensures
        final(v)@ == old(v)@ + s@,
{
    let ghost start = v@;
    let mut i: usize = 0;
    while i < s.len()
        invariant
            i <= s@.len(),
            v@ == start + s@.subrange(0, i as int),
        decreases s@.len() - i,
    {
        v.push(s[i]);
        i = i + 1;
        proof {
            assert(s@.subrange(0, i as int) == s@.subrange(0, i - 1) + seq![s@[i - 1]]);
        }
    }
    proof {
        assert(s@.subrange(0, s@.len() as int) == s@);
    }
}

/// A fresh vector holding the bytes `s[start..end]`.
pub fn copy_range(s: &[u8], start: usize, end: usize) -> (r: Vec<u8>)
    requires
        start <= end <= s@.len(),
    ensures
        r@ == s@.subrange(start as int, end as int),
{
    let mut r: Vec<u8> = Vec::with_capacity(end - start);
    let mut i: usize = start;
    while i < end
        invariant
            start <= i <= end <= s@.len(),
            r@ == s@.subrange(start as int, i as int),
        decreases end - i,
    {
        r.push(s[i]);
        i = i + 1;
        proof {
            assert(s@.subrange(start as int, i as int) == s@.subrange(start as int, i - 1) + seq![
                s@[i - 1],
            ]);
        }
    }
    r
}

} // verus!
