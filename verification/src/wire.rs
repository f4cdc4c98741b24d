//! Fixed-width integers on the wire.
//!
//! Control and device messages are big-endian; gamepad reports are
//! little-endian.
use vstd::prelude::*;

verus! {

/// Big-endian bytes of a 16-bit value.
pub open spec fn be16(v: u16) -> Seq<u8> {
    seq![(v / 0x100) as u8, (v % 0x100) as u8]
}

/// Big-endian bytes of a 32-bit value.
pub open spec fn be32(v: u32) -> Seq<u8> {
    seq![
        (v / 0x100_0000) as u8,
        (v / 0x1_0000 % 0x100) as u8,
        (v / 0x100 % 0x100) as u8,
        (v % 0x100) as u8,
    ]
}

/// Big-endian bytes of a 64-bit value.
pub open spec fn be64(v: u64) -> Seq<u8> {
    be32((v / 0x1_0000_0000) as u32) + be32((v % 0x1_0000_0000) as u32)
}

/// Little-endian bytes of a 16-bit value.
pub open spec fn le16(v: u16) -> Seq<u8> {
    seq![(v % 0x100) as u8, (v / 0x100) as u8]
}

/// The 16-bit pattern of a signed value.
pub open spec fn bits16(v: i16) -> u16 {
    if v >= 0 {
        v as u16
    } else {
        (v + 0x1_0000) as u16
    }
}

/// The signed value of a 16-bit pattern.
pub open spec fn signed16(v: u16) -> i16 {
    if v < 0x8000 {
        v as i16
    } else {
        (v - 0x1_0000) as i16
    }
}

/// The big-endian 16-bit value at `i`.
pub open spec fn u16_at(s: Seq<u8>, i: int) -> u16 {
    (s[i] * 0x100 + s[i + 1]) as u16
}

/// The big-endian 32-bit value at `i`.
pub open spec fn u32_at(s: Seq<u8>, i: int) -> u32 {
    (s[i] * 0x100_0000 + s[i + 1] * 0x1_0000 + s[i + 2] * 0x100 + s[i + 3]) as u32
}

/// The big-endian 64-bit value at `i`.
pub open spec fn u64_at(s: Seq<u8>, i: int) -> u64 {
    (u32_at(s, i) * 0x1_0000_0000 + u32_at(s, i + 4)) as u64
}

/// Reading the two bytes written for `v` gives `v` back.
pub proof fn lemma_be16_round_trip(v: u16, s: Seq<u8>, i: int)
    requires
        0 <= i,
        i + 2 <= s.len(),
        s.subrange(i, i + 2) == be16(v),
    ensures
        u16_at(s, i) == v,
{
    let t = s.subrange(i, i + 2);
    assert(s[i] == t[0]);
    assert(s[i + 1] == t[1]);
}

/// Reading the four bytes written for `v` gives `v` back.
pub proof fn lemma_be32_round_trip(v: u32, s: Seq<u8>, i: int)
    requires
        0 <= i,
        i + 4 <= s.len(),
        s.subrange(i, i + 4) == be32(v),
    ensures
        u32_at(s, i) == v,
{
    let t = s.subrange(i, i + 4);
    assert(s[i] == t[0]);
    assert(s[i + 1] == t[1]);
    assert(s[i + 2] == t[2]);
    assert(s[i + 3] == t[3]);
}

/// Reading the eight bytes written for `v` gives `v` back.
pub proof fn lemma_be64_round_trip(v: u64, s: Seq<u8>, i: int)
    requires
        0 <= i,
        i + 8 <= s.len(),
        s.subrange(i, i + 8) == be64(v),
    ensures
        u64_at(s, i) == v,
{
    let hi = (v / 0x1_0000_0000) as u32;
    let lo = (v % 0x1_0000_0000) as u32;
    let t = s.subrange(i, i + 8);
    assert(s.subrange(i, i + 4) =~= t.subrange(0, 4));
    assert(t.subrange(0, 4) =~= be32(hi));
    assert(s.subrange(i + 4, i + 8) =~= t.subrange(4, 8));
    assert(t.subrange(4, 8) =~= be32(lo));
    lemma_be32_round_trip(hi, s, i);
    lemma_be32_round_trip(lo, s, i + 4);
}

/// The bit pattern of a signed value determines the value.
pub proof fn lemma_signed16_round_trip(v: i16)
    ensures
        signed16(bits16(v)) == v,
{
}

pub(crate) fn push_be16(buf: &mut Vec<u8>, v: u16)
    ensures
        final(buf)@ == old(buf)@ + be16(v),
{
    buf.push((v / 0x100) as u8);
    buf.push((v % 0x100) as u8);
}

pub(crate) fn push_be32(buf: &mut Vec<u8>, v: u32)
    ensures
        final(buf)@ == old(buf)@ + be32(v),
{
    buf.push((v / 0x100_0000) as u8);
    buf.push((v / 0x1_0000 % 0x100) as u8);
    buf.push((v / 0x100 % 0x100) as u8);
    buf.push((v % 0x100) as u8);
}

pub(crate) fn push_be64(buf: &mut Vec<u8>, v: u64)
    ensures
        final(buf)@ == old(buf)@ + be64(v),
{
    push_be32(buf, (v / 0x1_0000_0000) as u32);
    push_be32(buf, (v % 0x1_0000_0000) as u32);
}

pub(crate) fn push_le16(buf: &mut Vec<u8>, v: u16)
    ensures
        final(buf)@ == old(buf)@ + le16(v),
{
    buf.push((v % 0x100) as u8);
    buf.push((v / 0x100) as u8);
}

pub(crate) fn read_u16(data: &[u8], i: usize) -> (v: u16)
    requires
        i + 2 <= data@.len(),
    ensures
        v == u16_at(data@, i as int),
{
    data[i] as u16 * 0x100 + data[i + 1] as u16
}

pub(crate) fn read_u32(data: &[u8], i: usize) -> (v: u32)
    requires
        i + 4 <= data@.len(),
    ensures
        v == u32_at(data@, i as int),
{
    data[i] as u32 * 0x100_0000 + data[i + 1] as u32 * 0x1_0000 + data[i + 2] as u32 * 0x100
        + data[i + 3] as u32
}

pub(crate) fn read_u64(data: &[u8], i: usize) -> (v: u64)
    requires
        i + 8 <= data.len(),
    ensures
        v == u64_at(data@, i as int),
{
    read_u32(data, i) as u64 * 0x1_0000_0000 + read_u32(data, i + 4) as u64
}

pub(crate) fn to_bits16(v: i16) -> (b: u16)
    ensures
        b == bits16(v),
{
    if v >= 0 {
        v as u16
    } else {
        (v as i32 + 0x1_0000) as u16
    }
}

pub(crate) fn to_signed16(v: u16) -> (s: i16)
    ensures
        s == signed16(v),
{
    if v < 0x8000 {
        v as i16
    } else {
        (v as i32 - 0x1_0000) as i16
    }
}

/// Big-endian bytes weigh, first to last, as their places in the number do, and so
/// do little-endian bytes, last to first.
pub proof fn lemma_bytes_weigh_by_place(a: u16, b: u32, c: u64)
    ensures
        be16(a).len() == 2,
        be16(a)[0] * 256 + be16(a)[1] == a,
        le16(a).len() == 2,
        le16(a)[1] * 256 + le16(a)[0] == a,
        be32(b).len() == 4,
        ((be32(b)[0] * 256 + be32(b)[1]) * 256 + be32(b)[2]) * 256 + be32(b)[3] == b,
        be64(c).len() == 8,
        (((be64(c)[0] * 256 + be64(c)[1]) * 256 + be64(c)[2]) * 256 + be64(c)[3]) * 0x1_0000_0000
            + ((be64(c)[4] * 256 + be64(c)[5]) * 256 + be64(c)[6]) * 256 + be64(c)[7] == c,
{
    let hi = (c / 0x1_0000_0000) as u32;
    let lo = (c % 0x1_0000_0000) as u32;
    assert(((be32(hi)[0] * 256 + be32(hi)[1]) * 256 + be32(hi)[2]) * 256 + be32(hi)[3] == hi);
    assert(((be32(lo)[0] * 256 + be32(lo)[1]) * 256 + be32(lo)[2]) * 256 + be32(lo)[3] == lo);
}

/// A value read from a stream is the one whose bytes stand there.
pub proof fn lemma_read_values_weigh_by_place(s: Seq<u8>, i: int)
    requires
        0 <= i,
        i + 8 <= s.len(),
    ensures
        u16_at(s, i) == s[i] * 256 + s[i + 1],
        u32_at(s, i) == u16_at(s, i) * 65536 + u16_at(s, i + 2),
        u64_at(s, i) == u32_at(s, i) * 0x1_0000_0000 + u32_at(s, i + 4),
{
}

/// A signed value and its pattern are the same number but for a multiple of 65536,
/// and every pattern is the pattern of its signed value.
pub proof fn lemma_signed16_pattern(v: i16, p: u16)
    ensures
        bits16(v) == v || bits16(v) == v + 65536,
        bits16(signed16(p)) == p,
        signed16(p) < 0 <==> p >= 32768,
{
}

} // verus!
