//! Laws of numbers in bytes.

use super::{
    be16, be32, be64, bits16, bits32, bits64, bits8, signed16, signed32, signed64, signed8,
};
use vstd::prelude::*;

verus! {

/// The first byte of a number weighs most: the bytes of a number are its digits
/// to the base 256, the highest one in front.
pub proof fn first_byte_weighs_most(v: u64, w: u32, x: u16)
    ensures
        be64(v)[0] == v >> 56,
        be64(v)[7] == v & 0xff,
        be64(v) == be32((v >> 32) as u32) + be32((v & 0xffff_ffff) as u32),
        be32(w) == be16((w >> 16) as u16) + be16((w & 0xffff) as u16),
        be16(x) == seq![(x >> 8) as u8, (x & 0xff) as u8],
{
    let hi = (v / 0x1_0000_0000) as u32;
    let lo = (v % 0x1_0000_0000) as u32;
    assert(v / 0x1_0000_0000 == v >> 32 && v % 0x1_0000_0000 == v & 0xffff_ffff) by (bit_vector);
    assert(((v >> 32) as u32) / 0x100_0000 == v >> 56) by (bit_vector);
    assert(((v & 0xffff_ffff) as u32) % 0x100 == v & 0xff) by (bit_vector);
    let wh = (w >> 16) as u16;
    let wl = (w & 0xffff) as u16;
    assert(wh / 0x100 == w / 0x100_0000 && wh % 0x100 == (w / 0x1_0000) % 0x100 && wl / 0x100 == (w
        / 0x100) % 0x100 && wl % 0x100 == w % 0x100) by (bit_vector)
        requires
            wh == (w >> 16) as u16,
            wl == (w & 0xffff) as u16,
    ;
    assert(be32(w) =~= be16(wh) + be16(wl));
    assert(x / 0x100 == x >> 8 && x % 0x100 == x & 0xff) by (bit_vector);
    assert(be16(x) =~= seq![(x >> 8) as u8, (x & 0xff) as u8]);
    assert(be64(v)[0] == be32(hi)[0]);
    assert(be64(v)[7] == be32(lo)[3]);
}

/// Numbers with a sign and without that have the same bits differ by a multiple
/// of what their bits can count.
pub proof fn sign_is_twos_complement(a: i64, b: i32, c: i16, d: i8)
    ensures
        (bits64(a) - a) % 0x1_0000_0000_0000_0000 == 0,
        (bits32(b) - b) % 0x1_0000_0000 == 0,
        (bits16(c) - c) % 0x1_0000 == 0,
        (bits8(d) - d) % 0x100 == 0,
        signed64(bits64(a)) == a,
        signed32(bits32(b)) == b,
        signed16(bits16(c)) == c,
        signed8(bits8(d)) == d,
{
}

/// What is written over bytes stands where it was written, and all other bytes
/// stay.
pub proof fn overlay_leaves_the_rest(b: Seq<u8>, i: int, part: Seq<u8>, k: int)
    requires
        0 <= i,
        i + part.len() <= b.len(),
        0 <= k < b.len(),
    ensures
        super::overlay(b, i, part).len() == b.len(),
        super::overlay(b, i, part)[k] == (if i <= k < i + part.len() {
            part[k - i]
        } else {
            b[k]
        }),
{
}

} // verus!
