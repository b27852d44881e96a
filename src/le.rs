//! Fixed-width little-endian integers.
use vstd::prelude::*;

verus! {

/// The value of the two bytes at `p`, least significant first.
pub open spec fn u16_at(b: Seq<u8>, p: int) -> u16 {
    (b[p] as u16) | ((b[p + 1] as u16) << 8u16)
}

/// The value of the four bytes at `p`, least significant first.
pub open spec fn u32_at(b: Seq<u8>, p: int) -> u32 {
    (b[p] as u32) | ((b[p + 1] as u32) << 8u32) | ((b[p + 2] as u32) << 16u32) | ((b[p + 3] as u32)
        << 24u32)
}

/// The value of the eight bytes at `p`, least significant first.
pub open spec fn u64_at(b: Seq<u8>, p: int) -> u64 {
    (b[p] as u64) | ((b[p + 1] as u64) << 8u64) | ((b[p + 2] as u64) << 16u64) | ((b[p + 3] as u64)
        << 24u64) | ((b[p + 4] as u64) << 32u64) | ((b[p + 5] as u64) << 40u64) | ((b[p + 6] as u64)
        << 48u64) | ((b[p + 7] as u64) << 56u64)
}

pub open spec fn byte_of16(x: u16, i: u16) -> u8 {
    ((x >> (8 * i)) & 0xff) as u8
}

pub open spec fn byte_of32(x: u32, i: u32) -> u8 {
    ((x >> (8 * i)) & 0xff) as u8
}

pub open spec fn byte_of64(x: u64, i: u64) -> u8 {
    ((x >> (8 * i)) & 0xff) as u8
}

/// Two bytes, least significant first.
pub open spec fn u16_le(x: u16) -> Seq<u8> {
    seq![byte_of16(x, 0), byte_of16(x, 1)]
}

/// Four bytes, least significant first.
pub open spec fn u32_le(x: u32) -> Seq<u8> {
    seq![byte_of32(x, 0), byte_of32(x, 1), byte_of32(x, 2), byte_of32(x, 3)]
}

/// Eight bytes, least significant first.
pub open spec fn u64_le(x: u64) -> Seq<u8> {
    seq![
        byte_of64(x, 0),
        byte_of64(x, 1),
        byte_of64(x, 2),
        byte_of64(x, 3),
        byte_of64(x, 4),
        byte_of64(x, 5),
        byte_of64(x, 6),
        byte_of64(x, 7),
    ]
}

pub proof fn lemma_u16_at(b: Seq<u8>, p: int, x: u16)
    requires
        0 <= p,
        p + 2 <= b.len(),
        b.subrange(p, p + 2) == u16_le(x),
    ensures
        u16_at(b, p) == x,
{
    assert(b[p] == b.subrange(p, p + 2)[0]);
    assert(b[p + 1] == b.subrange(p, p + 2)[1]);
    let b0 = b[p];
    let b1 = b[p + 1];
    assert(b0 == ((x >> 0u16) & 0xff) as u8 && b1 == ((x >> 8u16) & 0xff) as u8 ==> (b0 as u16) | (
    (b1 as u16) << 8u16) == x) by (bit_vector);
}

pub proof fn lemma_u32_at(b: Seq<u8>, p: int, x: u32)
    requires
        0 <= p,
        p + 4 <= b.len(),
        b.subrange(p, p + 4) == u32_le(x),
    ensures
        u32_at(b, p) == x,
{
    let s = b.subrange(p, p + 4);
    assert(b[p] == s[0] && b[p + 1] == s[1] && b[p + 2] == s[2] && b[p + 3] == s[3]);
    let b0 = b[p];
    let b1 = b[p + 1];
    let b2 = b[p + 2];
    let b3 = b[p + 3];
    assert(b0 == ((x >> 0u32) & 0xff) as u8 && b1 == ((x >> 8u32) & 0xff) as u8 && b2 == ((x
        >> 16u32) & 0xff) as u8 && b3 == ((x >> 24u32) & 0xff) as u8 ==> (b0 as u32) | ((b1 as u32)
        << 8u32) | ((b2 as u32) << 16u32) | ((b3 as u32) << 24u32) == x) by (bit_vector);
}

pub proof fn lemma_u64_at(b: Seq<u8>, p: int, x: u64)
    requires
        0 <= p,
        p + 8 <= b.len(),
        b.subrange(p, p + 8) == u64_le(x),
    ensures
        u64_at(b, p) == x,
{
    let s = b.subrange(p, p + 8);
    assert(b[p] == s[0] && b[p + 1] == s[1] && b[p + 2] == s[2] && b[p + 3] == s[3]);
    assert(b[p + 4] == s[4] && b[p + 5] == s[5] && b[p + 6] == s[6] && b[p + 7] == s[7]);
    let b0 = b[p];
    let b1 = b[p + 1];
    let b2 = b[p + 2];
    let b3 = b[p + 3];
    let b4 = b[p + 4];
    let b5 = b[p + 5];
    let b6 = b[p + 6];
    let b7 = b[p + 7];
    assert(b0 == ((x >> 0u64) & 0xff) as u8 && b1 == ((x >> 8u64) & 0xff) as u8 && b2 == ((x
        >> 16u64) & 0xff) as u8 && b3 == ((x >> 24u64) & 0xff) as u8 && b4 == ((x >> 32u64) & 0xff)
        as u8 && b5 == ((x >> 40u64) & 0xff) as u8 && b6 == ((x >> 48u64) & 0xff) as u8 && b7 == ((x
        >> 56u64) & 0xff) as u8 ==> (b0 as u64) | ((b1 as u64) << 8u64) | ((b2 as u64) << 16u64) | (
    (b3 as u64) << 24u64) | ((b4 as u64) << 32u64) | ((b5 as u64) << 40u64) | ((b6 as u64)
        << 48u64) | ((b7 as u64) << 56u64) == x) by (bit_vector);
}

pub fn read_u16(b: &[u8], p: usize) -> (r: u16)
    requires
        p + 2 <= b@.len(),
    ensures
        r == u16_at(b@, p as int),
{
    (b[p] as u16) | ((b[p + 1] as u16) << 8u16)
}

pub fn read_u32(b: &[u8], p: usize) -> (r: u32)
    requires
        p + 4 <= b@.len(),
    ensures
        r == u32_at(b@, p as int),
{
    (b[p] as u32) | ((b[p + 1] as u32) << 8u32) | ((b[p + 2] as u32) << 16u32) | ((b[p + 3] as u32)
        << 24u32)
}

pub fn read_u64(b: &[u8], p: usize) -> (r: u64)
    requires
        p + 8 <= b@.len(),
    ensures
        r == u64_at(b@, p as int),
{
    (b[p] as u64) | ((b[p + 1] as u64) << 8u64) | ((b[p + 2] as u64) << 16u64) | ((b[p + 3] as u64)
        << 24u64) | ((b[p + 4] as u64) << 32u64) | ((b[p + 5] as u64) << 40u64) | ((b[p + 6] as u64)
        << 48u64) | ((b[p + 7] as u64) << 56u64)
}

pub fn write_u16(out: &mut Vec<u8>, x: u16)
    ensures
        final(out)@ == old(out)@ + u16_le(x),
{
    let mut i: u16 = 0;
    while i < 2
        invariant
            i <= 2,
            out@ == old(out)@ + u16_le(x).take(i as int),
        decreases 2 - i,
    {
        out.push(((x >> (8 * i)) & 0xff) as u8);
        assert(u16_le(x).take(i + 1) == u16_le(x).take(i as int).push(byte_of16(x, i)));
        i = i + 1;
    }
    assert(u16_le(x).take(2) == u16_le(x));
}

pub fn write_u32(out: &mut Vec<u8>, x: u32)
    ensures
        final(out)@ == old(out)@ + u32_le(x),
{
    let mut i: u32 = 0;
    while i < 4
        invariant
            i <= 4,
            out@ == old(out)@ + u32_le(x).take(i as int),
        decreases 4 - i,
    {
        out.push(((x >> (8 * i)) & 0xff) as u8);
        assert(u32_le(x).take(i + 1) == u32_le(x).take(i as int).push(byte_of32(x, i)));
        i = i + 1;
    }
    assert(u32_le(x).take(4) == u32_le(x));
}

pub fn write_u64(out: &mut Vec<u8>, x: u64)
    ensures
        final(out)@ == old(out)@ + u64_le(x),
{
    let mut i: u64 = 0;
    while i < 8
        invariant
            i <= 8,
            out@ == old(out)@ + u64_le(x).take(i as int),
        decreases 8 - i,
    {
        out.push(((x >> (8 * i)) & 0xff) as u8);
        assert(u64_le(x).take(i + 1) == u64_le(x).take(i as int).push(byte_of64(x, i)));
        i = i + 1;
    }
    assert(u64_le(x).take(8) == u64_le(x));
}

} // verus!
