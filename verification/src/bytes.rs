//! Little- and big-endian integer encodings used by the UBX and NTP wire
//! formats, with exact byte-level specifications.

use vstd::prelude::*;

verus! {

/// Little-endian image of a 16-bit value.
pub open spec fn spec_le16(x: u16) -> Seq<u8> {
    seq![(x % 256) as u8, ((x / 256) % 256) as u8]
}

/// Little-endian image of a 32-bit value.
pub open spec fn spec_le32(x: u32) -> Seq<u8> {
    seq![
        (x % 256) as u8,
        ((x / 256) % 256) as u8,
        ((x / 0x10000) % 256) as u8,
        ((x / 0x1000000) % 256) as u8,
    ]
}

/// Big-endian image of a 16-bit value.
pub open spec fn spec_be16(x: u16) -> Seq<u8> {
    seq![((x / 256) % 256) as u8, (x % 256) as u8]
}

/// Big-endian image of a 32-bit value.
pub open spec fn spec_be32(x: u32) -> Seq<u8> {
    seq![
        ((x / 0x1000000) % 256) as u8,
        ((x / 0x10000) % 256) as u8,
        ((x / 256) % 256) as u8,
        (x % 256) as u8,
    ]
}

/// The unsigned value of two little-endian bytes at `off`.
pub open spec fn spec_u16_le_at(s: Seq<u8>, off: int) -> int {
    s[off] + 256 * s[off + 1]
}

/// The unsigned value of four little-endian bytes at `off`.
pub open spec fn spec_u32_le_at(s: Seq<u8>, off: int) -> int {
    s[off] + 256 * s[off + 1] + 0x10000 * s[off + 2] + 0x1000000 * s[off + 3]
}

/// The unsigned value of four big-endian bytes at `off`.
pub open spec fn spec_u32_be_at(s: Seq<u8>, off: int) -> int {
    0x1000000 * s[off] + 0x10000 * s[off + 1] + 256 * s[off + 2] + s[off + 3]
}

/// The unsigned value of two big-endian bytes at `off`.
pub open spec fn spec_u16_be_at(s: Seq<u8>, off: int) -> int {
    256 * s[off] + s[off + 1]
}

/// Two's-complement reading of an unsigned 32-bit value.
pub open spec fn spec_as_i32(u: int) -> int {
    if u >= 0x80000000 {
        u - 0x100000000
    } else {
        u
    }
}

/// Two's-complement reading of an unsigned 16-bit value.
pub open spec fn spec_as_i16(u: int) -> int {
    if u >= 0x8000 {
        u - 0x10000
    } else {
        u
    }
}

/// Two's-complement reading of an unsigned 8-bit value.
pub open spec fn spec_as_i8(u: int) -> int {
    if u >= 0x80 {
        u - 0x100
    } else {
        u
    }
}

/// Appends the little-endian image of a 16-bit value.
pub fn push_le16(v: &mut Vec<u8>, x: u16)
    ensures
        final(v)@ == old(v)@ + spec_le16(x),
{
    v.push((x % 256) as u8);
    v.push(((x / 256) % 256) as u8);
    assert(final(v)@ =~= old(v)@ + spec_le16(x));
}

/// Appends the little-endian image of a 32-bit value.
pub fn push_le32(v: &mut Vec<u8>, x: u32)
    ensures
        final(v)@ == old(v)@ + spec_le32(x),
{
    v.push((x % 256) as u8);
    v.push(((x / 256) % 256) as u8);
    v.push(((x / 0x10000) % 256) as u8);
    v.push(((x / 0x1000000) % 256) as u8);
    assert(final(v)@ =~= old(v)@ + spec_le32(x));
}

/// Appends the big-endian image of a 16-bit value.
pub fn push_be16(v: &mut Vec<u8>, x: u16)
    ensures
        final(v)@ == old(v)@ + spec_be16(x),
{
    v.push(((x / 256) % 256) as u8);
    v.push((x % 256) as u8);
    assert(final(v)@ =~= old(v)@ + spec_be16(x));
}

/// Appends the big-endian image of a 32-bit value.
pub fn push_be32(v: &mut Vec<u8>, x: u32)
    ensures
        final(v)@ == old(v)@ + spec_be32(x),
{
    v.push(((x / 0x1000000) % 256) as u8);
    v.push(((x / 0x10000) % 256) as u8);
    v.push(((x / 256) % 256) as u8);
    v.push((x % 256) as u8);
    assert(final(v)@ =~= old(v)@ + spec_be32(x));
}

/// Reads two little-endian bytes at `off` as an unsigned value.
pub fn u16_le_at(buf: &[u8], off: usize) -> (r: u16)
    requires
        off + 2 <= buf@.len(),
    ensures
        r == spec_u16_le_at(buf@, off as int),
{
    buf[off] as u16 + 256 * (buf[off + 1] as u16)
}

/// Reads four little-endian bytes at `off` as an unsigned value.
pub fn u32_le_at(buf: &[u8], off: usize) -> (r: u32)
    requires
        off + 4 <= buf@.len(),
    ensures
        r == spec_u32_le_at(buf@, off as int),
{
    buf[off] as u32 + 256 * (buf[off + 1] as u32) + 0x10000 * (buf[off + 2] as u32) + 0x1000000
        * (buf[off + 3] as u32)
}

/// Reads two big-endian bytes at `off` as an unsigned value.
pub fn u16_be_at(buf: &[u8], off: usize) -> (r: u16)
    requires
        off + 2 <= buf@.len(),
    ensures
        r == spec_u16_be_at(buf@, off as int),
{
    256 * (buf[off] as u16) + buf[off + 1] as u16
}

/// Reads four big-endian bytes at `off` as an unsigned value.
pub fn u32_be_at(buf: &[u8], off: usize) -> (r: u32)
    requires
        off + 4 <= buf@.len(),
    ensures
        r == spec_u32_be_at(buf@, off as int),
{
    0x1000000 * (buf[off] as u32) + 0x10000 * (buf[off + 1] as u32) + 256 * (buf[off + 2] as u32)
        + buf[off + 3] as u32
}

/// Reads four little-endian bytes at `off` as a two's-complement value.
pub fn i32_le_at(buf: &[u8], off: usize) -> (r: i32)
    requires
        off + 4 <= buf@.len(),
    ensures
        r == spec_as_i32(spec_u32_le_at(buf@, off as int)),
{
    let u = u32_le_at(buf, off);
    let v: i64 = u as i64;
    if v >= 0x80000000 {
        (v - 0x100000000) as i32
    } else {
        v as i32
    }
}

/// Reads two little-endian bytes at `off` as a two's-complement value.
pub fn i16_le_at(buf: &[u8], off: usize) -> (r: i16)
    requires
        off + 2 <= buf@.len(),
    ensures
        r == spec_as_i16(spec_u16_le_at(buf@, off as int)),
{
    let u = u16_le_at(buf, off);
    let v: i32 = u as i32;
    if v >= 0x8000 {
        (v - 0x10000) as i16
    } else {
        v as i16
    }
}

/// Reads the byte at `off` as a two's-complement value.
pub fn i8_at(buf: &[u8], off: usize) -> (r: i8)
    requires
        off < buf@.len(),
    ensures
        r == spec_as_i8(buf@[off as int] as int),
{
    let v: i16 = buf[off] as i16;
    if v >= 0x80 {
        (v - 0x100) as i8
    } else {
        v as i8
    }
}

/// Re-encoding the value four big-endian bytes carry reproduces those
/// bytes exactly.
pub proof fn lemma_be32_decode_encode(s: Seq<u8>, off: int)
    requires
        0 <= off,
        off + 4 <= s.len(),
    ensures
        spec_be32(spec_u32_be_at(s, off) as u32) =~= s.subrange(off, off + 4),
{
    let a = s[off];
    let b = s[off + 1];
    let c = s[off + 2];
    let d = s[off + 3];
    let x = spec_u32_be_at(s, off) as u32;
    assert(x == (a as u32) * 0x1000000 + (b as u32) * 0x10000 + (c as u32) * 256 + (d as u32));
    assert((x / 0x1000000) % 256 == a as u32 && (x / 0x10000) % 256 == b as u32 && (x / 256)
        % 256 == c as u32 && x % 256 == d as u32) by (bit_vector)
        requires
            x == (a as u32) * 0x1000000 + (b as u32) * 0x10000 + (c as u32) * 256 + (d as u32),
    ;
}

} // verus!
