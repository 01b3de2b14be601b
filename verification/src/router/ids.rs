//! Deterministic UUIDs (in the format of RFC 4122) from a seed text.
//!
//! NMOS resources need UUIDs that stay the same over restarts. They are derived
//! from the name of the node and the role of the resource.

use crate::bytes;
use crate::text;
use vstd::prelude::*;
use vstd::utf8::encode_utf8;

verus! {

/// FNV-1a with 64 bits, from a start value.
pub open spec fn fnv(b: Seq<u8>, start: u64) -> u64
    decreases b.len(),
{
    if b.len() == 0 {
        start
    } else {
        (fnv(b.drop_last(), start) ^ (b.last() as u64)).wrapping_mul(0x0000_0100_0000_01B3)
    }
}

/// FNV-1a with 64 bits, from a start value.
pub fn fnv64(b: &[u8], start: u64) -> (h: u64)
    ensures
        h == fnv(b@, start),
{
    let mut h: u64 = start;
    let mut i: usize = 0;
    assert(b@.take(0) =~= Seq::<u8>::empty());
    while i < b.len()
        invariant
            i <= b@.len(),
            h == fnv(b@.take(i as int), start),
        decreases b@.len() - i,
    {
        assert(b@.take(i + 1).drop_last() =~= b@.take(i as int));
        h = (h ^ (b[i] as u64)).wrapping_mul(0x0000_0100_0000_01B3);
        i = i + 1;
    }
    assert(b@.take(b@.len() as int) =~= b@);
    h
}

/// A hexadecimal digit, in small letters.
pub open spec fn hex_digit(n: nat) -> char {
    if n < 10 {
        (n + 48) as char
    } else {
        (n + 87) as char
    }
}

/// The two hexadecimal digits of a byte, in small letters.
pub open spec fn hex_byte(b: u8) -> Seq<char> {
    seq![hex_digit((b / 16) as nat), hex_digit((b % 16) as nat)]
}

/// The hexadecimal digits of bytes.
pub open spec fn hex(b: Seq<u8>) -> Seq<char>
    decreases b.len(),
{
    if b.len() == 0 {
        Seq::empty()
    } else {
        hex(b.drop_last()) + hex_byte(b.last())
    }
}

/// The 16 bytes of the UUID: two hashes of the seed, with the version 5
/// (name-based) and the variant of RFC 4122 set.
pub open spec fn uuid_bytes(seed: Seq<u8>) -> Seq<u8> {
    let b = bytes::be64(fnv(seed, 0xcbf2_9ce4_8422_2325)) + bytes::be64(
        fnv(seed, 0x8422_2325_cbf2_9ce4),
    );
    b.update(6, (b[6] % 16 + 0x50) as u8).update(8, (b[8] % 64 + 0x80) as u8)
}

/// The text of a UUID: groups of 8, 4, 4, 4 and 12 digits.
pub open spec fn uuid_text(b: Seq<u8>) -> Seq<char> {
    hex(b.subrange(0, 4)) + "-"@ + hex(b.subrange(4, 6)) + "-"@ + hex(b.subrange(6, 8)) + "-"@
        + hex(b.subrange(8, 10)) + "-"@ + hex(b.subrange(10, 16))
}

/// The UUID of a seed.
pub open spec fn uuid(seed: Seq<char>) -> Seq<char> {
    uuid_text(uuid_bytes(encode_utf8(seed)))
}

/// A hexadecimal digit.
fn digit_char(n: u8) -> (c: char)
    requires
        n < 16,
    ensures
        c == hex_digit(n as nat),
{
    if n < 10 {
        (n + 48) as char
    } else {
        (n + 87) as char
    }
}

/// Appends the hexadecimal digits of `b[from..to]`.
pub fn push_hex(out: &mut String, b: &[u8], from: usize, to: usize)
    requires
        from <= to <= b@.len(),
    ensures
        final(out)@ == old(out)@ + hex(b@.subrange(from as int, to as int)),
{
    let mut i: usize = from;
    assert(b@.subrange(from as int, from as int) =~= Seq::<u8>::empty());
    assert(out@ =~= old(out)@ + hex(b@.subrange(from as int, from as int)));
    while i < to
        invariant
            from <= i <= to <= b@.len(),
            out@ == old(out)@ + hex(b@.subrange(from as int, i as int)),
        decreases to - i,
    {
        let ghost part = b@.subrange(from as int, i + 1);
        assert(part.drop_last() =~= b@.subrange(from as int, i as int));
        assert(part.last() == b@[i as int]);
        out.push(digit_char(b[i] / 16));
        out.push(digit_char(b[i] % 16));
        i = i + 1;
        assert(out@ =~= old(out)@ + hex(part));
    }
}

/// A UUID in valid format (version 5, name-based) from `seed`.
pub fn uuid_from(seed: &str) -> (s: String)
    ensures
        s@ == uuid(seed@),
{
    let h1: u64 = fnv64(seed.as_bytes(), 0xcbf2_9ce4_8422_2325);
    let h2: u64 = fnv64(seed.as_bytes(), 0x8422_2325_cbf2_9ce4);
    let mut b: Vec<u8> = Vec::new();
    bytes::push_u64(&mut b, h1);
    bytes::push_u64(&mut b, h2);
    proof {
        assert(b@ =~= bytes::be64(h1) + bytes::be64(h2));
    }
    let version: u8 = b[6] % 16 + 0x50;
    let variant: u8 = b[8] % 64 + 0x80;
    b[6] = version;
    b[8] = variant;
    assert(b@ =~= uuid_bytes(encode_utf8(seed@)));
    let mut s: String = String::new();
    push_hex(&mut s, b.as_slice(), 0, 4);
    text::push_text(&mut s, "-");
    push_hex(&mut s, b.as_slice(), 4, 6);
    text::push_text(&mut s, "-");
    push_hex(&mut s, b.as_slice(), 6, 8);
    text::push_text(&mut s, "-");
    push_hex(&mut s, b.as_slice(), 8, 10);
    text::push_text(&mut s, "-");
    push_hex(&mut s, b.as_slice(), 10, 16);
    assert(s@ =~= uuid(seed@));
    s
}

/// Two digits for every byte.
proof fn lemma_hex(b: Seq<u8>)
    ensures
        hex(b).len() == 2 * b.len(),
        forall|i: int| 0 <= i < b.len() ==> #[trigger] hex(b)[2 * i] == hex_digit((b[i] / 16) as nat),
        forall|i: int|
            0 <= i < b.len() ==> #[trigger] hex(b)[2 * i + 1] == hex_digit((b[i] % 16) as nat),
    decreases b.len(),
{
    if b.len() > 0 {
        lemma_hex(b.drop_last());
        let h = hex(b);
        let init = hex(b.drop_last());
        assert forall|i: int| 0 <= i < b.len() implies #[trigger] h[2 * i] == hex_digit(
            (b[i] / 16) as nat,
        ) by {
            if i < b.len() - 1 {
                assert(init[2 * i] == hex_digit((b.drop_last()[i] / 16) as nat));
            }
        }
        assert forall|i: int| 0 <= i < b.len() implies #[trigger] h[2 * i + 1] == hex_digit(
            (b[i] % 16) as nat,
        ) by {
            if i < b.len() - 1 {
                assert(init[2 * i + 1] == hex_digit((b.drop_last()[i] % 16) as nat));
            }
        }
    }
}

/// Whether `c` is a hexadecimal digit in small letters.
pub open spec fn is_hex(c: char) -> bool {
    ('0' <= c && c <= '9') || ('a' <= c && c <= 'f')
}

/// Whether a hyphen stands at position `i` of a UUID.
pub open spec fn hyphen_at(i: int) -> bool {
    i == 8 || i == 13 || i == 18 || i == 23
}

/// Bytes are written in hexadecimal digits only.
proof fn lemma_hex_digits(b: Seq<u8>)
    ensures
        forall|i: int| 0 <= i < hex(b).len() ==> is_hex(#[trigger] hex(b)[i]),
    decreases b.len(),
{
    if b.len() > 0 {
        lemma_hex_digits(b.drop_last());
        let init = hex(b.drop_last());
        assert forall|i: int| 0 <= i < hex(b).len() implies is_hex(#[trigger] hex(b)[i]) by {
            if i < init.len() {
                assert(hex(b)[i] == init[i]);
            }
        }
    }
}

/// Every seed gives a UUID in valid format: 36 characters, hyphens between
/// groups of 8, 4, 4, 4 and 12 hexadecimal digits in small letters, with the
/// version 5 and the variant of RFC 4122.
pub proof fn uuid_is_well_formed(seed: Seq<char>)
    ensures
        ({
            let u = uuid(seed);
            &&& u.len() == 36
            &&& forall|i: int| 0 <= i < 36 && hyphen_at(i) ==> u[i] == '-'
            &&& forall|i: int| 0 <= i < 36 && !hyphen_at(i) ==> is_hex(#[trigger] u[i])
            &&& u[14] == '5'
            &&& u[19] == '8' || u[19] == '9' || u[19] == 'a' || u[19] == 'b'
        }),
{
    reveal_strlit("-");
    let b = uuid_bytes(encode_utf8(seed));
    assert(b.len() == 16);
    let g0 = b.subrange(0, 4);
    let g1 = b.subrange(4, 6);
    let g2 = b.subrange(6, 8);
    let g3 = b.subrange(8, 10);
    let g4 = b.subrange(10, 16);
    lemma_hex(g0);
    lemma_hex(g1);
    lemma_hex(g2);
    lemma_hex(g3);
    lemma_hex(g4);
    lemma_hex_digits(g0);
    lemma_hex_digits(g1);
    lemma_hex_digits(g2);
    lemma_hex_digits(g3);
    lemma_hex_digits(g4);
    let u = uuid(seed);
    assert(u.len() == 36);
    assert forall|i: int| 0 <= i < 36 && !hyphen_at(i) implies is_hex(#[trigger] u[i]) by {
        if i < 8 {
            assert(u[i] == hex(g0)[i]);
        } else if i < 13 {
            assert(u[i] == hex(g1)[i - 9]);
        } else if i < 18 {
            assert(u[i] == hex(g2)[i - 14]);
        } else if i < 23 {
            assert(u[i] == hex(g3)[i - 19]);
        } else {
            assert(u[i] == hex(g4)[i - 24]);
        }
    }
    assert(u[14] == hex(g2)[2 * 0int]);
    assert(u[19] == hex(g3)[2 * 0int]);
    assert(g2[0] == b[6]);
    assert(g3[0] == b[8]);
    assert(80 <= b[6] < 96);
    assert(128 <= b[8] < 192);
}

/// The last byte of the hash depends on the last byte that was hashed.
proof fn lemma_last_byte_counts(h: u64, a: u8, b: u8)
    requires
        a != b,
    ensures
        (h ^ (a as u64)).wrapping_mul(0x0000_0100_0000_01B3) % 0x100 != (h ^ (
        b as u64)).wrapping_mul(0x0000_0100_0000_01B3) % 0x100,
{
    let x = h ^ (a as u64);
    let y = h ^ (b as u64);
    assert((h ^ (a as u64)) % 0x100 != (h ^ (b as u64)) % 0x100) by (bit_vector)
        requires
            a != b,
    ;
    lemma_low_byte(x);
    lemma_low_byte(y);
    let p = (x % 0x100) as u8;
    let q = (y % 0x100) as u8;
    assert((p * 0xB3) % 0x100 != (q * 0xB3) % 0x100) by (bit_vector)
        requires
            p != q,
    ;
}

/// The last byte of a product with the prime of the hash.
proof fn lemma_low_byte(x: u64)
    ensures
        x.wrapping_mul(0x0000_0100_0000_01B3) % 0x100 == ((x % 0x100) * 0xB3) % 0x100,
{
    let prime = 0x0000_0100_0000_01B3int;
    let w = x * prime;
    let r = x.wrapping_mul(0x0000_0100_0000_01B3);
    assert(r == w % 0x1_0000_0000_0000_0000);
    assert(r as int % 0x100 == w % 0x100) by {
        vstd::arithmetic::div_mod::lemma_mod_mod(w, 0x100, 0x100_0000_0000_0000);
    }
    assert(w % 0x100 == ((x as int % 0x100) * 0xB3) % 0x100) by {
        vstd::arithmetic::div_mod::lemma_mul_mod_noop(x as int, prime, 0x100);
        assert(prime % 0x100 == 0xB3);
    }
}

/// The last byte of the first hash is the eighth byte of the UUID.
proof fn lemma_uuid_byte(seed: Seq<u8>)
    ensures
        uuid_bytes(seed)[7] == fnv(seed, 0xcbf2_9ce4_8422_2325) % 0x100,
{
    let h = fnv(seed, 0xcbf2_9ce4_8422_2325);
    let low = (h % 0x1_0000_0000) as u32;
    assert(low % 0x100 == h % 0x100) by {
        vstd::arithmetic::div_mod::lemma_mod_mod(h as int, 0x100, 0x100_0000);
    }
    lemma_last_byte(h);
}

/// The last byte of eight is that of their lower half.
proof fn lemma_last_byte(h: u64)
    ensures
        bytes::be64(h)[7] == ((h % 0x1_0000_0000) as u32) % 0x100,
{
    let low = (h % 0x1_0000_0000) as u32;
    assert(bytes::be32(low)[3] == low % 0x100);
}

/// The UTF-8 form of a text with a letter behind it.
proof fn lemma_encode_letter(s: Seq<char>, c: char)
    requires
        c <= '\x7f',
    ensures
        encode_utf8(s.push(c)) == encode_utf8(s).push(c as u8),
{
    let one = seq![c];
    assert(s.push(c) =~= s + one);
    crate::utf8::lemma_encode_concat(s, one);
    let v = c as u32;
    assert((v & 0x7F) == v) by (bit_vector)
        requires
            v <= 0x7F,
    ;
    assert(one.drop_first() =~= Seq::<char>::empty());
    assert(encode_utf8(one.drop_first()) =~= Seq::<u8>::empty());
    assert(encode_utf8(one) =~= seq![c as u8]);
    assert(encode_utf8(s) + seq![c as u8] =~= encode_utf8(s).push(c as u8));
}

/// Seeds that differ in their last letter alone give different UUIDs.
pub proof fn last_letter_tells_uuids_apart(seed: Seq<char>, c: char, d: char)
    requires
        c <= '\x7f',
        d <= '\x7f',
        c != d,
    ensures
        uuid(seed.push(c)) != uuid(seed.push(d)),
{
    lemma_encode_letter(seed, c);
    lemma_encode_letter(seed, d);
    let s = encode_utf8(seed.push(c));
    let t = encode_utf8(seed.push(d));
    let start = 0xcbf2_9ce4_8422_2325u64;
    assert(s.drop_last() =~= encode_utf8(seed));
    assert(t.drop_last() =~= encode_utf8(seed));
    lemma_last_byte_counts(fnv(encode_utf8(seed), start), c as u8, d as u8);
    let a = uuid_bytes(s);
    let b = uuid_bytes(t);
    lemma_uuid_byte(s);
    lemma_uuid_byte(t);
    assert(a[7] != b[7]);
    lemma_eighth_byte(seed.push(c));
    lemma_eighth_byte(seed.push(d));
}

/// Where the eighth byte stands in a UUID.
proof fn lemma_eighth_byte(seed: Seq<char>)
    ensures
        ({
            let b = uuid_bytes(encode_utf8(seed));
            &&& uuid(seed)[16] == hex_digit((b[7] / 16) as nat)
            &&& uuid(seed)[17] == hex_digit((b[7] % 16) as nat)
        }),
{
    reveal_strlit("-");
    let b = uuid_bytes(encode_utf8(seed));
    assert(b.len() == 16);
    let g2 = b.subrange(6, 8);
    lemma_hex(b.subrange(0, 4));
    lemma_hex(b.subrange(4, 6));
    lemma_hex(g2);
    let u = uuid(seed);
    assert(g2[1] == b[7]);
    assert(u[16] == hex(g2)[2 * 1int]);
    assert(u[17] == hex(g2)[2 * 1int + 1]);
}

/// The hash is FNV-1a: it takes in one byte after the other, first by an
/// exclusive or and then by a product with the prime, in 64 bits.
pub proof fn hash_takes_in_byte_after_byte(b: Seq<u8>, x: u8, start: u64)
    ensures
        fnv(Seq::empty(), start) == start,
        fnv(b.push(x), start) == ((fnv(b, start) ^ (x as u64)) * 0x100_0000_01b3)
            % 0x1_0000_0000_0000_0000,
{
    assert(b.push(x).drop_last() =~= b);
}

/// The bytes of a UUID are those of two hashes of its seed, from the basis of the
/// hash and from its halves swapped, but for the version and the variant.
pub proof fn uuid_is_made_of_two_hashes(seed: Seq<u8>)
    ensures
        ({
            let u = uuid_bytes(seed);
            let a = fnv(seed, 0xcbf2_9ce4_8422_2325);
            let b = fnv(seed, 0x8422_2325_cbf2_9ce4);
            &&& u.len() == 16
            &&& u.take(6) == bytes::be64(a).take(6)
            &&& u[6] == 0x50 + bytes::be64(a)[6] % 16
            &&& u[7] == bytes::be64(a)[7]
            &&& u[8] == 0x80 + bytes::be64(b)[0] % 64
            &&& u.skip(9) == bytes::be64(b).skip(1)
        }),
{
    let u = uuid_bytes(seed);
    let a = bytes::be64(fnv(seed, 0xcbf2_9ce4_8422_2325));
    let b = bytes::be64(fnv(seed, 0x8422_2325_cbf2_9ce4));
    assert(u.take(6) =~= a.take(6));
    assert(u.skip(9) =~= b.skip(1));
}

/// How many hyphens of a UUID stand before byte `i`.
pub open spec fn hyphens_before(i: int) -> int {
    if i < 4 {
        0
    } else if i < 6 {
        1
    } else if i < 8 {
        2
    } else if i < 10 {
        3
    } else {
        4
    }
}

/// Every byte of a UUID is written as its two hexadecimal digits, the upper one
/// first, with hyphens between the groups.
pub proof fn uuid_writes_byte_after_byte(seed: Seq<char>, i: int)
    requires
        0 <= i < 16,
    ensures
        ({
            let b = uuid_bytes(encode_utf8(seed));
            let at = 2 * i + hyphens_before(i);
            &&& uuid(seed)[at] == "0123456789abcdef"@[(b[i] / 16) as int]
            &&& uuid(seed)[at + 1] == "0123456789abcdef"@[(b[i] % 16) as int]
        }),
{
    let b = uuid_bytes(encode_utf8(seed));
    reveal_strlit("-");
    digits_have_their_letters(b[i] / 16);
    digits_have_their_letters(b[i] % 16);
    lemma_hex(b.subrange(0, 4));
    lemma_hex(b.subrange(4, 6));
    lemma_hex(b.subrange(6, 8));
    lemma_hex(b.subrange(8, 10));
    lemma_hex(b.subrange(10, 16));
    let k = if i < 4 {
        i
    } else if i < 6 {
        i - 4
    } else if i < 8 {
        i - 6
    } else if i < 10 {
        i - 8
    } else {
        i - 10
    };
    let part = if i < 4 {
        b.subrange(0, 4)
    } else if i < 6 {
        b.subrange(4, 6)
    } else if i < 8 {
        b.subrange(6, 8)
    } else if i < 10 {
        b.subrange(8, 10)
    } else {
        b.subrange(10, 16)
    };
    assert(part[k] == b[i]);
    assert(hex(part)[2 * k] == hex_digit((b[i] / 16) as nat));
    assert(hex(part)[2 * k + 1] == hex_digit((b[i] % 16) as nat));
}

/// The hexadecimal digits are the ten decimal ones and the letters from a to f.
pub proof fn digits_have_their_letters(n: u8)
    requires
        n < 16,
    ensures
        hex_digit(n as nat) == "0123456789abcdef"@[n as int],
{
    reveal_strlit("0123456789abcdef");
}

} // verus!
