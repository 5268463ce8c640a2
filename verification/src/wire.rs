//! Little-endian integers as they appear on the lidar's wire format.

use vstd::prelude::*;

verus! {

/// Value of the little-endian `u16` stored at `off` in `s`.
pub open spec fn spec_le_u16(s: Seq<u8>, off: int) -> int {
    s[off] + 256 * s[off + 1]
}

/// Value of the little-endian `u32` stored at `off` in `s`.
pub open spec fn spec_le_u32(s: Seq<u8>, off: int) -> int {
    s[off] + 256 * s[off + 1] + 65536 * s[off + 2] + 16777216 * s[off + 3]
}

/// The two bytes of `x`, least significant first.
pub open spec fn spec_u16_le_bytes(x: u16) -> Seq<u8> {
    seq![(x % 256) as u8, (x / 256) as u8]
}

/// The four bytes of `x`, least significant first.
pub open spec fn spec_u32_le_bytes(x: u32) -> Seq<u8> {
    seq![
        (x % 256) as u8,
        ((x / 256) % 256) as u8,
        ((x / 65536) % 256) as u8,
        (x / 16777216) as u8,
    ]
}

/// Reads the little-endian `u16` at `offset`.
pub fn le_u16(buf: &[u8], offset: usize) -> (r: u16)
    requires
        offset + 2 <= buf@.len(),
    ensures
        r == spec_le_u16(buf@, offset as int),
{
    buf[offset] as u16 + (buf[offset + 1] as u16) * 256
}

/// Reads the little-endian `u32` at `offset`.
pub fn le_u32(buf: &[u8], offset: usize) -> (r: u32)
    requires
        offset + 4 <= buf@.len(),
    ensures
        r == spec_le_u32(buf@, offset as int),
{
    buf[offset] as u32 + (buf[offset + 1] as u32) * 256 + (buf[offset + 2] as u32) * 65536 + (
    buf[offset + 3] as u32) * 16777216
}

/// Reading back the bytes of a `u16` gives the `u16`.
pub proof fn lemma_le_u16_round_trip(x: u16)
    ensures
        spec_le_u16(spec_u16_le_bytes(x), 0) == x,
{
    assert(x == x % 256 + 256 * (x / 256)) by (nonlinear_arith);
}

/// Reading back the bytes of a `u32` gives the `u32`.
pub proof fn lemma_le_u32_round_trip(x: u32)
    ensures
        spec_le_u32(spec_u32_le_bytes(x), 0) == x,
{
    assert(x == x % 256 + 256 * ((x / 256) % 256) + 65536 * ((x / 65536) % 256) + 16777216 * (x
        / 16777216)) by (nonlinear_arith);
}

/// Appends the two bytes of `x`, least significant first.
pub fn push_le_u16(out: &mut Vec<u8>, x: u16)
    ensures
        final(out)@ == old(out)@ + spec_u16_le_bytes(x),
{
    out.push((x % 256) as u8);
    out.push((x / 256) as u8);
}

/// Appends the four bytes of `x`, least significant first.
pub fn push_le_u32(out: &mut Vec<u8>, x: u32)
    ensures
        final(out)@ == old(out)@ + spec_u32_le_bytes(x),
{
    out.push((x % 256) as u8);
    out.push(((x / 256) % 256) as u8);
    out.push(((x / 65536) % 256) as u8);
    out.push((x / 16777216) as u8);
}

/// Whether the four bytes at `off` in `s` are those of `x`, least
/// significant first.
pub open spec fn u32_written_at(s: Seq<u8>, off: int, x: u32) -> bool {
    0 <= off && off + 4 <= s.len() && s.subrange(off, off + 4) == spec_u32_le_bytes(x)
}

/// Whether the two bytes at `off` in `s` are those of `x`, least
/// significant first.
pub open spec fn u16_written_at(s: Seq<u8>, off: int, x: u16) -> bool {
    0 <= off && off + 2 <= s.len() && s.subrange(off, off + 2) == spec_u16_le_bytes(x)
}

/// A `u32` written at `off` reads back from `off`.
pub proof fn lemma_read_written_u32(s: Seq<u8>, off: int, x: u32)
    requires
        u32_written_at(s, off, x),
    ensures
        spec_le_u32(s, off) == x,
{
    lemma_le_u32_round_trip(x);
    assert(s[off] == s.subrange(off, off + 4)[0]);
    assert(s[off + 1] == s.subrange(off, off + 4)[1]);
    assert(s[off + 2] == s.subrange(off, off + 4)[2]);
    assert(s[off + 3] == s.subrange(off, off + 4)[3]);
}

/// A `u16` written at `off` reads back from `off`.
pub proof fn lemma_read_written_u16(s: Seq<u8>, off: int, x: u16)
    requires
        u16_written_at(s, off, x),
    ensures
        spec_le_u16(s, off) == x,
{
    lemma_le_u16_round_trip(x);
    assert(s[off] == s.subrange(off, off + 2)[0]);
    assert(s[off + 1] == s.subrange(off, off + 2)[1]);
}

} // verus!
