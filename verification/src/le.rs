//! Little-endian integer encoding shared by every frame layout.

use vstd::prelude::*;

verus! {

/// `n` as a `usize`, saturating at `usize::MAX`.
pub open spec fn sat_usize(n: int) -> usize {
    if n > usize::MAX { usize::MAX } else { n as usize }
}

/// The two little-endian bytes of `v`.
pub open spec fn u16_le(v: u16) -> Seq<u8> {
    seq![(v & 0xff) as u8, (v >> 8) as u8]
}

/// The four little-endian bytes of `v`.
pub open spec fn u32_le(v: u32) -> Seq<u8> {
    seq![(v & 0xff) as u8, ((v >> 8) & 0xff) as u8, ((v >> 16) & 0xff) as u8, (v >> 24) as u8]
}

/// The eight little-endian bytes of `v`.
pub open spec fn u64_le(v: u64) -> Seq<u8> {
    u32_le((v & 0xffff_ffff) as u32) + u32_le((v >> 32) as u32)
}

/// The value of two little-endian bytes.
pub open spec fn le_u16(b0: u8, b1: u8) -> u16 {
    (b0 as u16) | ((b1 as u16) << 8)
}

/// The value of four little-endian bytes.
pub open spec fn le_u32(b0: u8, b1: u8, b2: u8, b3: u8) -> u32 {
    (b0 as u32) | ((b1 as u32) << 8) | ((b2 as u32) << 16) | ((b3 as u32) << 24)
}

/// The value of the first two bytes of `s`, little-endian.
pub open spec fn le16_at(s: Seq<u8>, i: int) -> u16 {
    le_u16(s[i], s[i + 1])
}

/// The value of four bytes of `s` starting at `i`, little-endian.
pub open spec fn le32_at(s: Seq<u8>, i: int) -> u32 {
    le_u32(s[i], s[i + 1], s[i + 2], s[i + 3])
}

/// The value of eight bytes of `s` starting at `i`, little-endian.
pub open spec fn le64_at(s: Seq<u8>, i: int) -> u64 {
    (le32_at(s, i) as u64) | ((le32_at(s, i + 4) as u64) << 32)
}

/// Little-endian order: byte `k` of an encoding is the value's `k`-th
/// base-256 digit, least significant first.
pub proof fn lemma_le_digits(a: u16, b: u32, c: u64)
    ensures
        u16_le(a) == seq![(a % 0x100) as u8, (a / 0x100) as u8],
        u32_le(b) == seq![
            (b % 0x100) as u8,
            ((b / 0x100) % 0x100) as u8,
            ((b / 0x1_0000) % 0x100) as u8,
            (b / 0x100_0000) as u8,
        ],
        u64_le(c).len() == 8,
        forall|k: int| 0 <= k < 4 ==> #[trigger] u64_le(c)[k] == u32_le((c % 0x1_0000_0000) as u32)[k],
        forall|k: int| 4 <= k < 8 ==> #[trigger] u64_le(c)[k] == u32_le((c / 0x1_0000_0000) as u32)[k - 4],
{
    assert((a & 0xff) as u8 == (a % 0x100) as u8 && (a >> 8) as u8 == (a / 0x100) as u8) by (bit_vector);
    assert((b & 0xff) as u8 == (b % 0x100) as u8 && ((b >> 8) & 0xff) as u8 == ((b / 0x100) % 0x100) as u8
        && ((b >> 16) & 0xff) as u8 == ((b / 0x1_0000) % 0x100) as u8 && (b >> 24) as u8 == (b / 0x100_0000) as u8)
        by (bit_vector);
    assert((c & 0xffff_ffff) as u32 == (c % 0x1_0000_0000) as u32 && (c >> 32) as u32 == (c / 0x1_0000_0000) as u32)
        by (bit_vector);
    assert(u16_le(a) =~= seq![(a % 0x100) as u8, (a / 0x100) as u8]);
}

pub proof fn lemma_u16_roundtrip(v: u16)
    ensures
        le_u16(u16_le(v)[0], u16_le(v)[1]) == v,
{
    assert(((v & 0xff) as u8 as u16) | (((v >> 8) as u8 as u16) << 8) == v) by (bit_vector);
}

pub proof fn lemma_u32_roundtrip(v: u32)
    ensures
        le_u32(u32_le(v)[0], u32_le(v)[1], u32_le(v)[2], u32_le(v)[3]) == v,
{
    assert(((v & 0xff) as u8 as u32) | ((((v >> 8) & 0xff) as u8 as u32) << 8) | ((((v >> 16)
        & 0xff) as u8 as u32) << 16) | (((v >> 24) as u8 as u32) << 24) == v) by (bit_vector);
}

pub proof fn lemma_u64_roundtrip(v: u64)
    ensures
        u64_le(v).len() == 8,
        le64_at(u64_le(v), 0) == v,
{
    let lo = (v & 0xffff_ffff) as u32;
    let hi = (v >> 32) as u32;
    lemma_u32_roundtrip(lo);
    lemma_u32_roundtrip(hi);
    let s = u64_le(v);
    assert(le32_at(s, 0) == lo);
    assert(le32_at(s, 4) == hi);
    assert((((v & 0xffff_ffff) as u32) as u64) | ((((v >> 32) as u32) as u64) << 32) == v)
        by (bit_vector);
}

/// Append the little-endian bytes of a `u16`.
pub fn put_u16_le(buf: &mut Vec<u8>, v: u16)
    ensures
        final(buf)@ == old(buf)@ + u16_le(v),
{
    buf.push((v & 0xff) as u8);
    buf.push((v >> 8) as u8);
}

/// Append the little-endian bytes of a `u32`.
pub fn put_u32_le(buf: &mut Vec<u8>, v: u32)
    ensures
        final(buf)@ == old(buf)@ + u32_le(v),
{
    buf.push((v & 0xff) as u8);
    buf.push(((v >> 8) & 0xff) as u8);
    buf.push(((v >> 16) & 0xff) as u8);
    buf.push((v >> 24) as u8);
}

/// Append the little-endian bytes of a `u64`.
pub fn put_u64_le(buf: &mut Vec<u8>, v: u64)
    ensures
        final(buf)@ == old(buf)@ + u64_le(v),
{
    put_u32_le(buf, (v & 0xffff_ffff) as u32);
    put_u32_le(buf, (v >> 32) as u32);
}

/// Append every byte of `src`.
pub fn put_slice(buf: &mut Vec<u8>, src: &[u8])
    ensures
        final(buf)@ == old(buf)@ + src@,
{
    let ghost start = buf@;
    let mut i: usize = 0;
    while i < src.len()
        invariant
            i <= src@.len(),
            buf@ == start + src@.subrange(0, i as int),
        decreases src@.len() - i,
    {
        buf.push(src[i]);
        i = i + 1;
        assert(buf@ == start + src@.subrange(0, i as int));
    }
    assert(src@.subrange(0, src@.len() as int) == src@);
}

/// A copy of `src[from..to]`.
pub fn slice_to_vec(src: &[u8], from: usize, to: usize) -> (v: Vec<u8>)
    requires
        from <= to <= src@.len(),
    ensures
        v@ == src@.subrange(from as int, to as int),
{
    let mut v: Vec<u8> = Vec::new();
    let mut i: usize = from;
    while i < to
        invariant
            from <= i <= to <= src@.len(),
            v@ == src@.subrange(from as int, i as int),
        decreases to - i,
    {
        v.push(src[i]);
        i = i + 1;
        assert(v@ == src@.subrange(from as int, i as int));
    }
    v
}

} // verus!
