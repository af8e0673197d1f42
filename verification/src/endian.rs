//! Big-endian byte encodings of the fixed-width integers used on the wire.

use vstd::prelude::*;

verus! {

/// The two big-endian bytes of a 16-bit integer.
pub open spec fn be_u16(x: u16) -> Seq<u8> {
    seq![(x / 256) as u8, (x % 256) as u8]
}

/// The 16-bit integer read back from two big-endian bytes.
pub open spec fn u16_from_be(s: Seq<u8>) -> u16
    recommends
        s.len() == 2,
{
    (s[0] * 256 + s[1]) as u16
}

/// The four big-endian bytes of a 32-bit integer.
pub open spec fn be_u32(x: u32) -> Seq<u8> {
    seq![
        (x / 0x1000000) as u8,
        ((x / 0x10000) % 256) as u8,
        ((x / 256) % 256) as u8,
        (x % 256) as u8,
    ]
}

/// The 32-bit integer read back from four big-endian bytes.
pub open spec fn u32_from_be(s: Seq<u8>) -> u32
    recommends
        s.len() == 4,
{
    (s[0] * 0x1000000 + s[1] * 0x10000 + s[2] * 256 + s[3]) as u32
}

/// The eight big-endian bytes of a 64-bit integer: its upper half followed by
/// its lower half.
pub open spec fn be_u64(x: u64) -> Seq<u8> {
    be_u32((x / 0x100000000) as u32) + be_u32((x % 0x100000000) as u32)
}

/// The 64-bit integer read back from eight big-endian bytes.
pub open spec fn u64_from_be(s: Seq<u8>) -> u64
    recommends
        s.len() == 8,
{
    (u32_from_be(s.subrange(0, 4)) * 0x100000000 + u32_from_be(s.subrange(4, 8))) as u64
}

/// Decoding inverts encoding for 16-bit integers.
pub proof fn lemma_u16_round_trip(x: u16)
    ensures
        u16_from_be(be_u16(x)) == x,
{
}

/// Decoding inverts encoding for 32-bit integers.
pub proof fn lemma_u32_round_trip(x: u32)
    ensures
        u32_from_be(be_u32(x)) == x,
{
}

/// Decoding inverts encoding for 64-bit integers.
pub proof fn lemma_u64_round_trip(x: u64)
    ensures
        u64_from_be(be_u64(x)) == x,
{
    let hi = (x / 0x100000000) as u32;
    let lo = (x % 0x100000000) as u32;
    assert(be_u64(x).subrange(0, 4) =~= be_u32(hi));
    assert(be_u64(x).subrange(4, 8) =~= be_u32(lo));
    lemma_u32_round_trip(hi);
    lemma_u32_round_trip(lo);
}

/// Appends the two big-endian bytes of `x`.
pub fn put_u16(out: &mut Vec<u8>, x: u16)
    ensures
        final(out)@ == old(out)@ + be_u16(x),
{
    out.push((x / 256) as u8);
    out.push((x % 256) as u8);
    assert(out@ == old(out)@ + be_u16(x));
}

/// Appends the four big-endian bytes of `x`.
pub fn put_u32(out: &mut Vec<u8>, x: u32)
    ensures
        final(out)@ == old(out)@ + be_u32(x),
{
    out.push((x / 0x1000000) as u8);
    out.push(((x / 0x10000) % 256) as u8);
    out.push(((x / 256) % 256) as u8);
    out.push((x % 256) as u8);
    assert(out@ == old(out)@ + be_u32(x));
}

/// Appends the eight big-endian bytes of `x`.
pub fn put_u64(out: &mut Vec<u8>, x: u64)
    ensures
        final(out)@ == old(out)@ + be_u64(x),
{
    put_u32(out, (x / 0x100000000) as u32);
    put_u32(out, (x % 0x100000000) as u32);
    assert(out@ == old(out)@ + be_u64(x));
}

/// Reads a 16-bit big-endian integer at `pos`.
pub fn read_u16(buf: &Vec<u8>, pos: usize) -> (r: u16)
    requires
        pos + 2 <= buf@.len(),
    ensures
        r == u16_from_be(buf@.subrange(pos as int, pos as int + 2)),
{
    let n = buf.len();
    assert(pos + 2 <= n);
    let b0 = buf[pos];
    let b1 = buf[pos + 1];
    let r = (b0 as u16) * 256 + (b1 as u16);
    proof {
        let s = buf@.subrange(pos as int, pos as int + 2);
        assert(s[0] == b0 && s[1] == b1);
    }
    r
}

/// Reads a 32-bit big-endian integer at `pos`.
pub fn read_u32(buf: &Vec<u8>, pos: usize) -> (r: u32)
    requires
        pos + 4 <= buf@.len(),
    ensures
        r == u32_from_be(buf@.subrange(pos as int, pos as int + 4)),
{
    let n = buf.len();
    assert(pos + 4 <= n);
    let b0 = buf[pos];
    let b1 = buf[pos + 1];
    let b2 = buf[pos + 2];
    let b3 = buf[pos + 3];
    let r = (b0 as u32) * 0x1000000 + (b1 as u32) * 0x10000 + (b2 as u32) * 256 + (b3 as u32);
    proof {
        let s = buf@.subrange(pos as int, pos as int + 4);
        assert(s[0] == b0 && s[1] == b1 && s[2] == b2 && s[3] == b3);
    }
    r
}

/// Reads a 64-bit big-endian integer at `pos`.
pub fn read_u64(buf: &Vec<u8>, pos: usize) -> (r: u64)
    requires
        pos + 8 <= buf@.len(),
    ensures
        r == u64_from_be(buf@.subrange(pos as int, pos as int + 8)),
{
    let n = buf.len();
    assert(pos + 8 <= n);
    let hi = read_u32(buf, pos);
    let lo = read_u32(buf, pos + 4);
    let r = (hi as u64) * 0x100000000 + (lo as u64);
    proof {
        let s = buf@.subrange(pos as int, pos as int + 8);
        assert(s.subrange(0, 4) =~= buf@.subrange(pos as int, pos as int + 4));
        assert(s.subrange(4, 8) =~= buf@.subrange(pos as int + 4, pos as int + 8));
    }
    r
}

} // verus!
