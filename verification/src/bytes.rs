//! Little-endian and big-endian byte order for the integer widths that
//! appear on the wire and in flash.

use vstd::prelude::*;

verus! {

/// The two bytes of `v`, least significant first.
pub open spec fn u16_le(v: u16) -> Seq<u8> {
    seq![(v % 256) as u8, (v / 256) as u8]
}

/// The four bytes of `v`, least significant first.
pub open spec fn u32_le(v: u32) -> Seq<u8> {
    seq![
        (v % 0x100) as u8,
        (v / 0x100 % 0x100) as u8,
        (v / 0x1_0000 % 0x100) as u8,
        (v / 0x100_0000) as u8,
    ]
}

/// The four bytes of `v`, most significant first.
pub open spec fn u32_be(v: u32) -> Seq<u8> {
    u32_le(v).reverse()
}

/// The eight bytes of `v`, least significant first.
pub open spec fn u64_le(v: u64) -> Seq<u8> {
    u32_le((v % 0x1_0000_0000) as u32) + u32_le((v / 0x1_0000_0000) as u32)
}

/// The number whose little-endian bytes are `b0, b1`.
pub open spec fn le_u16(b0: u8, b1: u8) -> u16 {
    (b0 + 0x100 * b1) as u16
}

/// The number whose little-endian bytes are the first four of `s`.
pub open spec fn le_u32(s: Seq<u8>) -> u32 {
    (s[0] + 0x100 * s[1] + 0x1_0000 * s[2] + 0x100_0000 * s[3]) as u32
}

/// The number whose little-endian bytes are the first eight of `s`.
pub open spec fn le_u64(s: Seq<u8>) -> u64 {
    (le_u32(s) + 0x1_0000_0000 * le_u32(s.skip(4))) as u64
}

/// Reading back the bytes of a 16-bit number gives the number.
pub proof fn lemma_u16_le_round_trip(v: u16)
    ensures
        le_u16(u16_le(v)[0], u16_le(v)[1]) == v,
{
}

/// Reading back the bytes of a 32-bit number gives the number.
pub proof fn lemma_u32_le_round_trip(v: u32)
    ensures
        le_u32(u32_le(v)) == v,
{
}

/// Writing out a number read from four bytes gives the bytes.
pub proof fn lemma_le_u32_round_trip(s: Seq<u8>)
    requires
        s.len() == 4,
    ensures
        u32_le(le_u32(s)) == s,
{
    let v = le_u32(s);
    let (s0, s1, s2, s3) = (s[0] as int, s[1] as int, s[2] as int, s[3] as int);
    assert(v == s0 + 0x100 * (s1 + 0x100 * (s2 + 0x100 * s3)));
    assert(v % 0x100 == s0);
    assert(v / 0x100 == s1 + 0x100 * (s2 + 0x100 * s3));
    assert(v / 0x1_0000 == s2 + 0x100 * s3);
    assert(v / 0x100_0000 == s3);
    assert(u32_le(v) =~= s);
}

proof fn lemma_halves(lo: u32, hi: u32)
    ensures
        ((lo + 0x1_0000_0000 * hi) as u64) % 0x1_0000_0000 == lo,
        ((lo + 0x1_0000_0000 * hi) as u64) / 0x1_0000_0000 == hi,
{
}

/// Writing out a number read from eight bytes gives the bytes.
pub proof fn lemma_le_u64_round_trip(s: Seq<u8>)
    requires
        s.len() == 8,
    ensures
        u64_le(le_u64(s)) == s,
{
    let lo = le_u32(s.take(4));
    let hi = le_u32(s.skip(4));
    assert(lo == le_u32(s)) by {
        assert(s.take(4)[0] == s[0] && s.take(4)[1] == s[1]);
        assert(s.take(4)[2] == s[2] && s.take(4)[3] == s[3]);
    }
    lemma_le_u32_round_trip(s.take(4));
    lemma_le_u32_round_trip(s.skip(4));
    lemma_halves(lo, hi);
    assert(u64_le(le_u64(s)) == s.take(4) + s.skip(4));
    assert(s.take(4) + s.skip(4) =~= s);
}

pub fn u16_from_le(b0: u8, b1: u8) -> (v: u16)
    ensures
        v == le_u16(b0, b1),
{
    b0 as u16 + 0x100 * (b1 as u16)
}

pub fn u16_to_le(v: u16) -> (b: [u8; 2])
    ensures
        b@ == u16_le(v),
{
    [(v % 256) as u8, (v / 256) as u8]
}

pub fn u32_from_le(b: [u8; 4]) -> (v: u32)
    ensures
        v == le_u32(b@),
{
    b[0] as u32 + 0x100 * (b[1] as u32) + 0x1_0000 * (b[2] as u32) + 0x100_0000 * (b[3] as u32)
}

pub fn u32_to_le(v: u32) -> (b: [u8; 4])
    ensures
        b@ == u32_le(v),
{
    [
        (v % 0x100) as u8,
        (v / 0x100 % 0x100) as u8,
        (v / 0x1_0000 % 0x100) as u8,
        (v / 0x100_0000) as u8,
    ]
}

pub fn u32_to_be(v: u32) -> (b: [u8; 4])
    ensures
        b@ == u32_be(v),
{
    let le = u32_to_le(v);
    [le[3], le[2], le[1], le[0]]
}

pub fn u64_from_le(b: [u8; 8]) -> (v: u64)
    ensures
        v == le_u64(b@),
{
    let lo: u32 = u32_from_le([b[0], b[1], b[2], b[3]]);
    let hi: u32 = u32_from_le([b[4], b[5], b[6], b[7]]);
    lo as u64 + 0x1_0000_0000 * (hi as u64)
}

pub fn u64_to_le(v: u64) -> (b: [u8; 8])
    ensures
        b@ == u64_le(v),
{
    let lo = u32_to_le((v % 0x1_0000_0000) as u32);
    let hi = u32_to_le((v / 0x1_0000_0000) as u32);
    [lo[0], lo[1], lo[2], lo[3], hi[0], hi[1], hi[2], hi[3]]
}

/// What the bytes are worth: least significant first, each the next power of 256.
pub proof fn law_little_endian(h: u16, v: u32, w: u64)
    ensures
        u16_le(h).len() == 2,
        u16_le(h)[0] + 0x100 * u16_le(h)[1] == h,
        u32_le(v).len() == 4,
        u32_le(v)[0] + 0x100 * u32_le(v)[1] + 0x1_0000 * u32_le(v)[2] + 0x100_0000 * u32_le(v)[3]
            == v,
        u64_le(w).len() == 8,
        forall|i: int| 0 <= i < 4 ==> #[trigger] u64_le(w)[i] == u32_le((w % 0x1_0000_0000) as u32)[i],
        forall|i: int|
            4 <= i < 8 ==> #[trigger] u64_le(w)[i] == u32_le((w / 0x1_0000_0000) as u32)[i - 4],
{
}

/// Most significant first is the same bytes from the other end.
pub proof fn law_big_endian(v: u32)
    ensures
        u32_be(v) == seq![u32_le(v)[3], u32_le(v)[2], u32_le(v)[1], u32_le(v)[0]],
{
    assert(u32_be(v) =~= seq![u32_le(v)[3], u32_le(v)[2], u32_le(v)[1], u32_le(v)[0]]);
}

} // verus!
