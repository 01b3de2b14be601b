//! Big-endian integers in byte sequences.

pub mod laws;

use vstd::prelude::*;

verus! {

/// The two bytes of `v`, most significant first.
pub open spec fn be16(v: u16) -> Seq<u8> {
    seq![(v / 0x100) as u8, (v % 0x100) as u8]
}

/// The four bytes of `v`, most significant first.
pub open spec fn be32(v: u32) -> Seq<u8> {
    seq![
        (v / 0x100_0000) as u8,
        ((v / 0x1_0000) % 0x100) as u8,
        ((v / 0x100) % 0x100) as u8,
        (v % 0x100) as u8,
    ]
}

/// The six low bytes of `v`, most significant first.
pub open spec fn be48(v: u64) -> Seq<u8> {
    be16(((v / 0x1_0000_0000) % 0x1_0000) as u16) + be32((v % 0x1_0000_0000) as u32)
}

/// The eight bytes of `v`, most significant first.
pub open spec fn be64(v: u64) -> Seq<u8> {
    be32((v / 0x1_0000_0000) as u32) + be32((v % 0x1_0000_0000) as u32)
}

/// The integer whose big-endian bytes stand at `i` and `i + 1`.
pub open spec fn u16_at(b: Seq<u8>, i: int) -> u16 {
    (b[i] * 0x100 + b[i + 1]) as u16
}

/// The integer whose four big-endian bytes start at `i`.
pub open spec fn u32_at(b: Seq<u8>, i: int) -> u32 {
    (b[i] * 0x100_0000 + b[i + 1] * 0x1_0000 + b[i + 2] * 0x100 + b[i + 3]) as u32
}

/// The integer whose six big-endian bytes start at `i`.
pub open spec fn u48_at(b: Seq<u8>, i: int) -> u64 {
    (u16_at(b, i) * 0x1_0000_0000 + u32_at(b, i + 2)) as u64
}

/// The integer whose eight big-endian bytes start at `i`.
pub open spec fn u64_at(b: Seq<u8>, i: int) -> u64 {
    (u32_at(b, i) * 0x1_0000_0000 + u32_at(b, i + 4)) as u64
}

/// Two's complement: the unsigned 64-bit integer with the bits of `v`.
pub open spec fn bits64(v: i64) -> u64 {
    if v < 0 {
        (v + 0x1_0000_0000_0000_0000) as u64
    } else {
        v as u64
    }
}

/// Two's complement: the signed 64-bit integer with the bits of `u`.
pub open spec fn signed64(u: u64) -> i64 {
    if u >= 0x8000_0000_0000_0000 {
        (u - 0x1_0000_0000_0000_0000) as i64
    } else {
        u as i64
    }
}

/// Two's complement: the unsigned 32-bit integer with the bits of `v`.
pub open spec fn bits32(v: i32) -> u32 {
    if v < 0 {
        (v + 0x1_0000_0000) as u32
    } else {
        v as u32
    }
}

/// Two's complement: the signed 32-bit integer with the bits of `u`.
pub open spec fn signed32(u: u32) -> i32 {
    if u >= 0x8000_0000 {
        (u - 0x1_0000_0000) as i32
    } else {
        u as i32
    }
}

/// Two's complement: the unsigned 16-bit integer with the bits of `v`.
pub open spec fn bits16(v: i16) -> u16 {
    if v < 0 {
        (v + 0x1_0000) as u16
    } else {
        v as u16
    }
}

/// Two's complement: the signed 16-bit integer with the bits of `u`.
pub open spec fn signed16(u: u16) -> i16 {
    if u >= 0x8000 {
        (u - 0x1_0000) as i16
    } else {
        u as i16
    }
}

/// Two's complement: the unsigned byte with the bits of `v`.
pub open spec fn bits8(v: i8) -> u8 {
    if v < 0 {
        (v + 0x100) as u8
    } else {
        v as u8
    }
}

/// Two's complement: the signed byte with the bits of `u`.
pub open spec fn signed8(u: u8) -> i8 {
    if u >= 0x80 {
        (u - 0x100) as i8
    } else {
        u as i8
    }
}

/// `b` with `part` written over it, starting at `i`.
pub open spec fn overlay(b: Seq<u8>, i: int, part: Seq<u8>) -> Seq<u8> {
    b.take(i) + part + b.skip(i + part.len())
}

/// Reads the big-endian `u16` at `i`.
pub fn get_u16(b: &[u8], i: usize) -> (v: u16)
    requires
        i + 2 <= b.len(),
    ensures
        v == u16_at(b@, i as int),
{
    b[i] as u16 * 0x100 + b[i + 1] as u16
}

/// Reads the big-endian `u32` at `i`.
pub fn get_u32(b: &[u8], i: usize) -> (v: u32)
    requires
        i + 4 <= b.len(),
    ensures
        v == u32_at(b@, i as int),
{
    b[i] as u32 * 0x100_0000 + b[i + 1] as u32 * 0x1_0000 + b[i + 2] as u32 * 0x100 + b[i
        + 3] as u32
}

/// Reads the big-endian 48-bit integer at `i`.
pub fn get_u48(b: &[u8], i: usize) -> (v: u64)
    requires
        i + 6 <= b.len(),
    ensures
        v == u48_at(b@, i as int),
        v < 0x1_0000_0000_0000,
{
    get_u16(b, i) as u64 * 0x1_0000_0000 + get_u32(b, i + 2) as u64
}

/// Reads the big-endian `u64` at `i`.
pub fn get_u64(b: &[u8], i: usize) -> (v: u64)
    requires
        i + 8 <= b.len(),
    ensures
        v == u64_at(b@, i as int),
{
    get_u32(b, i) as u64 * 0x1_0000_0000 + get_u32(b, i + 4) as u64
}

/// The signed integer with the bits of `u`.
pub fn to_signed64(u: u64) -> (v: i64)
    ensures
        v == signed64(u),
{
    if u >= 0x8000_0000_0000_0000 {
        (u - 0x8000_0000_0000_0000) as i64 + i64::MIN
    } else {
        u as i64
    }
}

/// The unsigned integer with the bits of `v`.
pub fn to_bits64(v: i64) -> (u: u64)
    ensures
        u == bits64(v),
{
    if v < 0 {
        (v - i64::MIN) as u64 + 0x8000_0000_0000_0000
    } else {
        v as u64
    }
}

/// The signed integer with the bits of `u`.
pub fn to_signed32(u: u32) -> (v: i32)
    ensures
        v == signed32(u),
{
    if u >= 0x8000_0000 {
        (u - 0x8000_0000) as i32 + i32::MIN
    } else {
        u as i32
    }
}

/// The unsigned integer with the bits of `v`.
pub fn to_bits32(v: i32) -> (u: u32)
    ensures
        u == bits32(v),
{
    if v < 0 {
        (v - i32::MIN) as u32 + 0x8000_0000
    } else {
        v as u32
    }
}

/// The signed integer with the bits of `u`.
pub fn to_signed16(u: u16) -> (v: i16)
    ensures
        v == signed16(u),
{
    if u >= 0x8000 {
        (u - 0x8000) as i16 + i16::MIN
    } else {
        u as i16
    }
}

/// The unsigned integer with the bits of `v`.
pub fn to_bits16(v: i16) -> (u: u16)
    ensures
        u == bits16(v),
{
    if v < 0 {
        (v - i16::MIN) as u16 + 0x8000
    } else {
        v as u16
    }
}

/// The signed byte with the bits of `u`.
pub fn to_signed8(u: u8) -> (v: i8)
    ensures
        v == signed8(u),
{
    if u >= 0x80 {
        (u - 0x80) as i8 + i8::MIN
    } else {
        u as i8
    }
}

/// The unsigned byte with the bits of `v`.
pub fn to_bits8(v: i8) -> (u: u8)
    ensures
        u == bits8(v),
{
    if v < 0 {
        (v - i8::MIN) as u8 + 0x80
    } else {
        v as u8
    }
}

/// Writes `v` big-endian at `i`; the other bytes stay.
pub fn set_u16(b: &mut [u8], i: usize, v: u16)
    requires
        i + 2 <= old(b).len(),
    ensures
        final(b)@ == overlay(old(b)@, i as int, be16(v)),
{
    b[i] = (v / 0x100) as u8;
    b[i + 1] = (v % 0x100) as u8;
    assert(b@ =~= overlay(old(b)@, i as int, be16(v)));
}

/// Writes `v` big-endian at `i`; the other bytes stay.
pub fn set_u32(b: &mut [u8], i: usize, v: u32)
    requires
        i + 4 <= old(b).len(),
    ensures
        final(b)@ == overlay(old(b)@, i as int, be32(v)),
{
    b[i] = (v / 0x100_0000) as u8;
    b[i + 1] = ((v / 0x1_0000) % 0x100) as u8;
    b[i + 2] = ((v / 0x100) % 0x100) as u8;
    b[i + 3] = (v % 0x100) as u8;
    assert(b@ =~= overlay(old(b)@, i as int, be32(v)));
}

/// Writes the low 48 bits of `v` big-endian at `i`; the other bytes stay.
pub fn set_u48(b: &mut [u8], i: usize, v: u64)
    requires
        i + 6 <= old(b).len(),
    ensures
        final(b)@ == overlay(old(b)@, i as int, be48(v)),
{
    set_u16(b, i, ((v / 0x1_0000_0000) % 0x1_0000) as u16);
    set_u32(b, i + 2, (v % 0x1_0000_0000) as u32);
    assert(b@ =~= overlay(old(b)@, i as int, be48(v)));
}

/// Copies `part` over the bytes that start at `i`; the other bytes stay.
pub fn set_bytes(b: &mut [u8], i: usize, part: &[u8])
    requires
        i + part@.len() <= old(b).len(),
    ensures
        final(b)@ == overlay(old(b)@, i as int, part@),
{
    let mut k: usize = 0;
    while k < part.len()
        invariant
            k <= part@.len(),
            i + part@.len() <= old(b).len(),
            b@ == overlay(old(b)@, i as int, part@.take(k as int)),
        decreases part@.len() - k,
    {
        b[i + k] = part[k];
        k = k + 1;
        assert(b@ =~= overlay(old(b)@, i as int, part@.take(k as int)));
    }
    assert(part@.take(part@.len() as int) =~= part@);
}

/// Appends all of `part` to `out`.
pub fn push_bytes(out: &mut Vec<u8>, part: &[u8])
    ensures
        final(out)@ == old(out)@ + part@,
{
    let mut k: usize = 0;
    while k < part.len()
        invariant
            k <= part@.len(),
            out@ == old(out)@ + part@.take(k as int),
        decreases part@.len() - k,
    {
        out.push(part[k]);
        k = k + 1;
        assert(out@ =~= old(out)@ + part@.take(k as int));
    }
    assert(part@.take(part@.len() as int) =~= part@);
}

/// Appends `v` big-endian.
pub fn push_u16(out: &mut Vec<u8>, v: u16)
    ensures
        final(out)@ == old(out)@ + be16(v),
{
    out.push((v / 0x100) as u8);
    out.push((v % 0x100) as u8);
    assert(out@ =~= old(out)@ + be16(v));
}

/// Appends `v` big-endian.
pub fn push_u32(out: &mut Vec<u8>, v: u32)
    ensures
        final(out)@ == old(out)@ + be32(v),
{
    out.push((v / 0x100_0000) as u8);
    out.push(((v / 0x1_0000) % 0x100) as u8);
    out.push(((v / 0x100) % 0x100) as u8);
    out.push((v % 0x100) as u8);
    assert(out@ =~= old(out)@ + be32(v));
}

/// Appends `v` big-endian.
pub fn push_u64(out: &mut Vec<u8>, v: u64)
    ensures
        final(out)@ == old(out)@ + be64(v),
{
    push_u32(out, (v / 0x1_0000_0000) as u32);
    push_u32(out, (v % 0x1_0000_0000) as u32);
    assert(out@ =~= old(out)@ + be64(v));
}

/// A copy of `part`.
pub fn copy_bytes(part: &[u8]) -> (out: Vec<u8>)
    ensures
        out@ == part@,
{
    let mut out: Vec<u8> = Vec::new();
    push_bytes(&mut out, part);
    assert(out@ =~= part@);
    out
}

/// Whether the two byte strings are the same.
pub fn same_bytes(a: &[u8], b: &[u8]) -> (r: bool)
    ensures
        r == (a@ == b@),
{
    if a.len() != b.len() {
        return false;
    }
    let mut k: usize = 0;
    while k < a.len()
        invariant
            k <= a@.len(),
            a@.len() == b@.len(),
            forall|j: int| 0 <= j < k ==> a@[j] == b@[j],
        decreases a@.len() - k,
    {
        if a[k] != b[k] {
            return false;
        }
        k = k + 1;
    }
    assert(a@ =~= b@);
    true
}

/// Reading back 16 bits that were written big-endian.
pub proof fn lemma_u16_roundtrip(b: Seq<u8>, i: int, v: u16)
    requires
        0 <= i,
        i + 2 <= b.len(),
        b.subrange(i, i + 2) == be16(v),
    ensures
        u16_at(b, i) == v,
{
    assert(b[i] == b.subrange(i, i + 2)[0]);
    assert(b[i + 1] == b.subrange(i, i + 2)[1]);
}

/// Reading back 32 bits that were written big-endian.
pub proof fn lemma_u32_roundtrip(b: Seq<u8>, i: int, v: u32)
    requires
        0 <= i,
        i + 4 <= b.len(),
        b.subrange(i, i + 4) == be32(v),
    ensures
        u32_at(b, i) == v,
{
    assert(b[i] == b.subrange(i, i + 4)[0]);
    assert(b[i + 1] == b.subrange(i, i + 4)[1]);
    assert(b[i + 2] == b.subrange(i, i + 4)[2]);
    assert(b[i + 3] == b.subrange(i, i + 4)[3]);
}

/// Two parts that stand one behind the other.
proof fn lemma_two_parts(b: Seq<u8>, i: int, x: Seq<u8>, y: Seq<u8>)
    requires
        0 <= i,
        i + x.len() + y.len() <= b.len(),
        b.subrange(i, i + x.len() + y.len()) == x + y,
    ensures
        b.subrange(i, i + x.len()) == x,
        b.subrange(i + x.len(), i + x.len() + y.len()) == y,
{
    let all = b.subrange(i, i + x.len() + y.len());
    assert forall|k: int| 0 <= k < x.len() implies b.subrange(i, i + x.len())[k] == x[k] by {
        assert(all[k] == x[k]);
    }
    assert forall|k: int| 0 <= k < y.len() implies b.subrange(
        i + x.len(),
        i + x.len() + y.len(),
    )[k] == y[k] by {
        assert(all[x.len() + k] == y[k]);
    }
    assert(b.subrange(i, i + x.len()) =~= x);
    assert(b.subrange(i + x.len(), i + x.len() + y.len()) =~= y);
}

/// The lower 48 bits of a number from their two parts.
proof fn lemma_parts_of_48(v: u64)
    ensures
        ((v / 0x1_0000_0000) % 0x1_0000) * 0x1_0000_0000 + v % 0x1_0000_0000 == v
            % 0x1_0000_0000_0000,
{
    assert(((v / 0x1_0000_0000) % 0x1_0000) * 0x1_0000_0000 + v % 0x1_0000_0000 == v
        % 0x1_0000_0000_0000) by (bit_vector);
}

/// Reading back 48 bits that were written big-endian.
pub proof fn lemma_u48_roundtrip(b: Seq<u8>, i: int, v: u64)
    requires
        0 <= i,
        i + 6 <= b.len(),
        b.subrange(i, i + 6) == be48(v),
    ensures
        u48_at(b, i) == v % 0x1_0000_0000_0000,
{
    let hi = ((v / 0x1_0000_0000) % 0x1_0000) as u16;
    let lo = (v % 0x1_0000_0000) as u32;
    lemma_two_parts(b, i, be16(hi), be32(lo));
    lemma_u16_roundtrip(b, i, hi);
    lemma_u32_roundtrip(b, i + 2, lo);
    lemma_parts_of_48(v);
}

/// Reading back 64 bits that were written big-endian.
pub proof fn lemma_u64_roundtrip(b: Seq<u8>, i: int, v: u64)
    requires
        0 <= i,
        i + 8 <= b.len(),
        b.subrange(i, i + 8) == be64(v),
    ensures
        u64_at(b, i) == v,
{
    let hi = (v / 0x1_0000_0000) as u32;
    let lo = (v % 0x1_0000_0000) as u32;
    lemma_two_parts(b, i, be32(hi), be32(lo));
    lemma_u32_roundtrip(b, i, hi);
    lemma_u32_roundtrip(b, i + 4, lo);
}

} // verus!
