//! The CRC-32 (reflected polynomial `0xedb88320`) that guards command payloads.

use vstd::prelude::*;

use crate::wire::spec_u32_le_bytes;

verus! {

/// One bit step of the reflected CRC-32 register.
pub open spec fn crc_shift(c: u32) -> u32 {
    if c & 1 != 0 {
        (c >> 1u32) ^ 0xedb8_8320u32
    } else {
        c >> 1u32
    }
}

/// `n` bit steps of the register.
pub open spec fn crc_shift_n(c: u32, n: nat) -> u32
    decreases n,
{
    if n == 0 {
        c
    } else {
        crc_shift(crc_shift_n(c, (n - 1) as nat))
    }
}

/// The CRC register after all of `s` has been fed in, byte by byte,
/// starting from all ones.
pub open spec fn crc_register(s: Seq<u8>) -> u32
    decreases s.len(),
{
    if s.len() == 0 {
        0xffff_ffffu32
    } else {
        crc_shift_n(crc_register(s.drop_last()) ^ (s.last() as u32), 8)
    }
}

/// The CRC-32 of `s`: the final register, inverted.
pub open spec fn spec_crc32(s: Seq<u8>) -> u32 {
    !crc_register(s)
}

/// Computes the CRC-32 of `bytes`.
pub fn crc32(bytes: &[u8]) -> (r: u32)
    ensures
        r == spec_crc32(bytes@),
{
    let mut crc: u32 = 0xffff_ffff;
    let mut i: usize = 0;
    while i < bytes.len()
        invariant
            i <= bytes@.len(),
            crc == crc_register(bytes@.take(i as int)),
        decreases bytes@.len() - i,
    {
        let byte = bytes[i];
        crc = crc ^ (byte as u32);
        let ghost start = crc;
        let mut k: u32 = 0;
        while k < 8
            invariant
                k <= 8,
                crc == crc_shift_n(start, k as nat),
            decreases 8 - k,
        {
            if crc & 1 != 0 {
                crc = (crc >> 1) ^ 0xedb8_8320;
            } else {
                crc = crc >> 1;
            }
            k += 1;
        }
        assert(bytes@.take(i + 1).drop_last() =~= bytes@.take(i as int));
        i += 1;
    }
    assert(bytes@.take(i as int) =~= bytes@);
    !crc
}

/// The register after `s` and then the byte `b`.
proof fn lemma_crc_register_push(s: Seq<u8>, b: u8)
    ensures
        crc_register(s.push(b)) == crc_shift_n(crc_register(s) ^ (b as u32), 8),
{
    assert(s.push(b).drop_last() =~= s);
}

/// Eight bit steps, written out.
proof fn lemma_crc_shift_8(c: u32)
    ensures
        crc_shift_n(c, 8) == crc_shift(
            crc_shift(crc_shift(crc_shift(crc_shift(crc_shift(crc_shift(crc_shift(c))))))),
        ),
{
    reveal_with_fuel(crc_shift_n, 9);
}

/// The bytes of a `u32`, as the masks that the register takes them in.
proof fn lemma_le_bytes_as_masks(x: u32)
    ensures
        spec_u32_le_bytes(x)[0] as u32 == x & 0xffu32,
        spec_u32_le_bytes(x)[1] as u32 == (x >> 8u32) & 0xffu32,
        spec_u32_le_bytes(x)[2] as u32 == (x >> 16u32) & 0xffu32,
        spec_u32_le_bytes(x)[3] as u32 == x >> 24u32,
{
    assert(((x % 256) as u8) as u32 == x & 0xffu32) by (bit_vector);
    assert((((x / 256) % 256) as u8) as u32 == (x >> 8u32) & 0xffu32) by (bit_vector);
    assert((((x / 65536) % 256) as u8) as u32 == (x >> 16u32) & 0xffu32) by (bit_vector);
    assert(((x / 16777216) as u8) as u32 == x >> 24u32) by (bit_vector);
}

/// Feeding a register the complement of itself, low byte first, always
/// leaves `0xdebb20e3`: the 32 bit steps, one by one.
proof fn lemma_complement_feed(
    r: u32,
    a1: u32, a2: u32, a3: u32, a4: u32, a5: u32, a6: u32, a7: u32, a8: u32,
    b1: u32, b2: u32, b3: u32, b4: u32, b5: u32, b6: u32, b7: u32, b8: u32,
    c1: u32, c2: u32, c3: u32, c4: u32, c5: u32, c6: u32, c7: u32, c8: u32,
    d1: u32, d2: u32, d3: u32, d4: u32, d5: u32, d6: u32, d7: u32, d8: u32,
)
    by (bit_vector)
    requires
        a1 == crc_shift(r ^ (!r & 0xffu32)),
        a2 == crc_shift(a1),
        a3 == crc_shift(a2),
        a4 == crc_shift(a3),
        a5 == crc_shift(a4),
        a6 == crc_shift(a5),
        a7 == crc_shift(a6),
        a8 == crc_shift(a7),
        b1 == crc_shift(a8 ^ ((!r >> 8u32) & 0xffu32)),
        b2 == crc_shift(b1),
        b3 == crc_shift(b2),
        b4 == crc_shift(b3),
        b5 == crc_shift(b4),
        b6 == crc_shift(b5),
        b7 == crc_shift(b6),
        b8 == crc_shift(b7),
        c1 == crc_shift(b8 ^ ((!r >> 16u32) & 0xffu32)),
        c2 == crc_shift(c1),
        c3 == crc_shift(c2),
        c4 == crc_shift(c3),
        c5 == crc_shift(c4),
        c6 == crc_shift(c5),
        c7 == crc_shift(c6),
        c8 == crc_shift(c7),
        d1 == crc_shift(c8 ^ (!r >> 24u32)),
        d2 == crc_shift(d1),
        d3 == crc_shift(d2),
        d4 == crc_shift(d3),
        d5 == crc_shift(d4),
        d6 == crc_shift(d5),
        d7 == crc_shift(d6),
        d8 == crc_shift(d7),
    ensures
        d8 == 0xdebb_20e3u32,
{
}

/// The CRC-32 residue: a message followed by its own CRC-32, least
/// significant byte first, has CRC-32 `0x2144df1c`, whatever the message.
pub proof fn lemma_crc32_residue(m: Seq<u8>)
    ensures
        spec_crc32(m + spec_u32_le_bytes(spec_crc32(m))) == 0x2144_df1cu32,
{
    let r = crc_register(m);
    let c = spec_crc32(m);
    let bs = spec_u32_le_bytes(c);
    lemma_le_bytes_as_masks(c);
    assert(c == !r);
    let m1 = m.push(bs[0]);
    let m2 = m1.push(bs[1]);
    let m3 = m2.push(bs[2]);
    let m4 = m3.push(bs[3]);
    assert(m4 =~= m + bs);
    lemma_crc_register_push(m, bs[0]);
    lemma_crc_register_push(m1, bs[1]);
    lemma_crc_register_push(m2, bs[2]);
    lemma_crc_register_push(m3, bs[3]);
    let t0 = r ^ (bs[0] as u32);
    lemma_crc_shift_8(t0);
    let a1 = crc_shift(t0);
    let a2 = crc_shift(a1);
    let a3 = crc_shift(a2);
    let a4 = crc_shift(a3);
    let a5 = crc_shift(a4);
    let a6 = crc_shift(a5);
    let a7 = crc_shift(a6);
    let a8 = crc_shift(a7);
    assert(crc_register(m1) == a8);
    let t1 = a8 ^ (bs[1] as u32);
    lemma_crc_shift_8(t1);
    let b1 = crc_shift(t1);
    let b2 = crc_shift(b1);
    let b3 = crc_shift(b2);
    let b4 = crc_shift(b3);
    let b5 = crc_shift(b4);
    let b6 = crc_shift(b5);
    let b7 = crc_shift(b6);
    let b8 = crc_shift(b7);
    assert(crc_register(m2) == b8);
    let t2 = b8 ^ (bs[2] as u32);
    lemma_crc_shift_8(t2);
    let c1 = crc_shift(t2);
    let c2 = crc_shift(c1);
    let c3 = crc_shift(c2);
    let c4 = crc_shift(c3);
    let c5 = crc_shift(c4);
    let c6 = crc_shift(c5);
    let c7 = crc_shift(c6);
    let c8 = crc_shift(c7);
    assert(crc_register(m3) == c8);
    let t3 = c8 ^ (bs[3] as u32);
    lemma_crc_shift_8(t3);
    let d1 = crc_shift(t3);
    let d2 = crc_shift(d1);
    let d3 = crc_shift(d2);
    let d4 = crc_shift(d3);
    let d5 = crc_shift(d4);
    let d6 = crc_shift(d5);
    let d7 = crc_shift(d6);
    let d8 = crc_shift(d7);
    assert(crc_register(m4) == d8);
    lemma_complement_feed(
        r, a1, a2, a3, a4, a5, a6, a7, a8, b1, b2, b3, b4, b5, b6, b7, b8,
        c1, c2, c3, c4, c5, c6, c7, c8, d1, d2, d3, d4, d5, d6, d7, d8,
    );
    assert(!0xdebb_20e3u32 == 0x2144_df1cu32) by (bit_vector);
}

} // verus!
