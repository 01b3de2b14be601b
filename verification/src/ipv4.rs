//! IPv4 addresses as four bytes, and their dotted form.

use crate::text;
use vstd::prelude::*;

verus! {

/// The dotted form of an address, such as `239.69.83.67`.
pub open spec fn dotted(a: Seq<u8>) -> Seq<char> {
    text::decimal(a[0] as nat) + "."@ + text::decimal(a[1] as nat) + "."@ + text::decimal(
        a[2] as nat,
    ) + "."@ + text::decimal(a[3] as nat)
}

/// The byte that one part of a dotted address writes: one to three digits, no
/// zero in front, at most 255.
pub open spec fn octet(s: Seq<char>) -> Option<u8> {
    if 1 <= s.len() <= 3 && text::all_digits(s) && (s.len() > 1 ==> s[0] != '0')
        && text::digits_value(s) <= 255 {
        Some(text::digits_value(s) as u8)
    } else {
        None
    }
}

/// The address that the text writes.
pub open spec fn address(s: Seq<char>) -> Option<Seq<u8>> {
    let p = text::pieces(s, '.');
    if p.len() == 4 {
        match (octet(p[0]), octet(p[1]), octet(p[2]), octet(p[3])) {
            (Some(a), Some(b), Some(c), Some(d)) => Some(seq![a, b, c, d]),
            _ => None,
        }
    } else {
        None
    }
}

/// Appends the dotted form of the address.
pub fn push_dotted(out: &mut String, a: [u8; 4])
    ensures
        final(out)@ == old(out)@ + dotted(a@),
{
    text::push_decimal(out, a[0] as u64);
    text::push_text(out, ".");
    text::push_decimal(out, a[1] as u64);
    text::push_text(out, ".");
    text::push_decimal(out, a[2] as u64);
    text::push_text(out, ".");
    text::push_decimal(out, a[3] as u64);
    assert(out@ =~= old(out)@ + dotted(a@));
}

/// The dotted form of the address.
pub fn dotted_text(a: [u8; 4]) -> (s: String)
    ensures
        s@ == dotted(a@),
{
    let mut s: String = String::new();
    push_dotted(&mut s, a);
    assert(s@ =~= dotted(a@));
    s
}

/// Reads one part of a dotted address.
fn read_octet(s: Option<&[char]>) -> (r: Option<u8>)
    ensures
        r == (match s {
            Some(t) => octet(t@),
            None => None,
        }),
{
    match s {
        Some(t) => {
            if t.len() < 1 || t.len() > 3 {
                return None;
            }
            if t.len() > 1 && t[0] == '0' {
                return None;
            }
            if t[0] == '+' {
                assert(!text::is_digit(t@[0]));
                return None;
            }
            match text::parse_unsigned(t, 255) {
                Some(n) => Some(n as u8),
                None => None,
            }
        },
        None => None,
    }
}

/// Reads a dotted address.
pub fn parse_ipv4(s: &str) -> (r: Option<[u8; 4]>)
    ensures
        match address(s@) {
            Some(a) => r matches Some(b) && b@ == a,
            None => r is None,
        },
{
    let v: Vec<char> = text::chars_of(s);
    let ghost p = text::pieces(v@, '.');
    if text::piece(v.as_slice(), '.', 4).is_some() {
        return None;
    }
    let a: u8 = match read_octet(text::piece(v.as_slice(), '.', 0)) {
        Some(a) => a,
        None => {
            return None;
        },
    };
    let b: u8 = match read_octet(text::piece(v.as_slice(), '.', 1)) {
        Some(b) => b,
        None => {
            return None;
        },
    };
    let c: u8 = match read_octet(text::piece(v.as_slice(), '.', 2)) {
        Some(c) => c,
        None => {
            return None;
        },
    };
    let d: u8 = match read_octet(text::piece(v.as_slice(), '.', 3)) {
        Some(d) => d,
        None => {
            return None;
        },
    };
    let r: [u8; 4] = [a, b, c, d];
    assert(r@ =~= seq![a, b, c, d]);
    Some(r)
}

/// Whether the address is a multicast address, 224.0.0.0 to 239.255.255.255.
pub fn is_multicast(a: [u8; 4]) -> (r: bool)
    ensures
        r == (224 <= a@[0] <= 239),
{
    224 <= a[0] && a[0] <= 239
}

/// Whether the address is 0.0.0.0.
pub fn is_unspecified(a: [u8; 4]) -> (r: bool)
    ensures
        r == (a@ == seq![0u8, 0u8, 0u8, 0u8]),
{
    let r: bool = a[0] == 0 && a[1] == 0 && a[2] == 0 && a[3] == 0;
    proof {
        if r {
            assert(a@ =~= seq![0u8, 0u8, 0u8, 0u8]);
        } else {
            assert(a@ != seq![0u8, 0u8, 0u8, 0u8]) by {
                let z = seq![0u8, 0u8, 0u8, 0u8];
                assert(z[0] == 0 && z[1] == 0 && z[2] == 0 && z[3] == 0);
            }
        }
    }
    r
}

/// The digits of a byte are one part of a dotted address.
proof fn lemma_octet(n: u8)
    ensures
        octet(text::decimal(n as nat)) == Some(n),
        text::laws::free_of(text::decimal(n as nat), '.'),
{
    let d = text::decimal(n as nat);
    text::lemma_decimal(n as nat);
    reveal_with_fuel(text::decimal, 3);
    assert(1 <= d.len() <= 3);
    assert forall|i: int| 0 <= i < d.len() implies #[trigger] d[i] != '.' by {
        assert(text::is_digit(d[i]));
    }
    if d.len() > 1 {
        assert(n >= 10);
        if n >= 100 {
            assert(d[0] == text::digit((n / 100) as nat));
        } else {
            assert(d[0] == text::digit((n / 10) as nat));
        }
    }
}

/// An address that was written is read back as it was.
pub proof fn dotted_reads_back(a: Seq<u8>)
    requires
        a.len() == 4,
    ensures
        address(dotted(a)) == Some(a),
{
    reveal_strlit(".");
    lemma_octet(a[0]);
    lemma_octet(a[1]);
    lemma_octet(a[2]);
    lemma_octet(a[3]);
    let d0 = text::decimal(a[0] as nat);
    let d1 = text::decimal(a[1] as nat);
    let d2 = text::decimal(a[2] as nat);
    let d3 = text::decimal(a[3] as nat);
    let r2 = d2 + seq!['.'] + d3;
    let r1 = d1 + seq!['.'] + r2;
    assert(dotted(a) =~= d0 + seq!['.'] + r1);
    text::laws::lemma_pieces_one(d3, '.');
    text::laws::lemma_pieces_behind(d2, '.', d3);
    text::laws::lemma_pieces_behind(d1, '.', r2);
    text::laws::lemma_pieces_behind(d0, '.', r1);
    let p = text::pieces(dotted(a), '.');
    assert(p =~= seq![d0, d1, d2, d3]);
    assert(seq![a[0], a[1], a[2], a[3]] =~= a);
}

/// The dotted form of an address holds no white space, no slash and no colon.
pub proof fn lemma_dotted_plain(a: Seq<u8>)
    ensures
        text::laws::free_of_space(dotted(a)),
        text::laws::free_of(dotted(a), '/'),
        text::laws::free_of(dotted(a), ':'),
        text::laws::free_of(dotted(a), '\n'),
{
    reveal_strlit(".");
    text::laws::lemma_decimal_plain(a[0] as nat);
    text::laws::lemma_decimal_plain(a[1] as nat);
    text::laws::lemma_decimal_plain(a[2] as nat);
    text::laws::lemma_decimal_plain(a[3] as nat);
    let dot = "."@;
    assert(dot =~= seq!['.']);
    assert(!text::is_space('.'));
}

/// A part of a dotted address is the digits of its byte.
proof fn lemma_octet_back(t: Seq<char>)
    requires
        octet(t) is Some,
    ensures
        text::decimal(octet(t)->0 as nat) == t,
{
    reveal_with_fuel(text::digits_value, 4);
    reveal_with_fuel(text::decimal, 4);
    let n = octet(t)->0 as nat;
    assert(text::is_digit(t[0]));
    if t.len() == 1 {
        assert(text::decimal(n) =~= t);
    } else if t.len() == 2 {
        assert(text::is_digit(t[1]));
        assert(t.drop_last() =~= seq![t[0]]);
        assert(n == text::digit_value(t[0]) * 10 + text::digit_value(t[1]));
        assert(n / 10 == text::digit_value(t[0]));
        assert(n % 10 == text::digit_value(t[1]));
        assert(text::decimal(n) =~= t);
    } else {
        assert(text::is_digit(t[1]));
        assert(text::is_digit(t[2]));
        assert(t.drop_last() =~= seq![t[0], t[1]]);
        assert(t.drop_last().drop_last() =~= seq![t[0]]);
        let h = text::digit_value(t[0]);
        let m = text::digit_value(t[1]);
        let l = text::digit_value(t[2]);
        assert(n == (h * 10 + m) * 10 + l);
        assert(n / 10 == h * 10 + m);
        assert((n / 10) / 10 == h);
        assert((n / 10) % 10 == m);
        assert(n % 10 == l);
        assert(text::decimal(n) =~= t);
    }
}

/// A text is its first piece, the separator, and the rest.
proof fn lemma_piece_front(s: Seq<char>, n: nat) -> (rest: Seq<char>)
    requires
        text::pieces(s, '.').len() == n,
        n > 1,
    ensures
        s == text::pieces(s, '.')[0] + "."@ + rest,
        text::pieces(rest, '.') == text::pieces(s, '.').drop_first(),
        text::pieces(rest, '.').len() == n - 1,
{
    reveal_strlit(".");
    let i = text::find(s, '.') as int;
    text::lemma_prefix_bound(s, text::other_than('.'));
    assert(i < s.len());
    assert(s[i] == '.');
    assert(text::pieces(s, '.')[0] == s.take(i));
    assert(text::pieces(s, '.').drop_first() =~= text::pieces(s.skip(i + 1), '.'));
    assert(s =~= s.take(i) + "."@ + s.skip(i + 1));
    s.skip(i + 1)
}

/// Four parts put together in turn, or from the end.
proof fn lemma_together(a: Seq<char>, b: Seq<char>, c: Seq<char>, d: Seq<char>, dot: Seq<char>)
    ensures
        a + dot + (b + dot + (c + dot + d)) == a + dot + b + dot + c + dot + d,
{
    assert(a + dot + (b + dot + (c + dot + d)) =~= a + dot + b + dot + c + dot + d);
}

/// A text with one piece is that piece.
proof fn lemma_only_piece(s: Seq<char>)
    requires
        text::pieces(s, '.').len() == 1,
    ensures
        text::pieces(s, '.')[0] == s,
{
    let k = text::find(s, '.') as int;
    if k < s.len() {
        let rest = text::pieces(s.skip(k + 1), '.');
        assert(rest.len() >= 1);
        assert(text::pieces(s, '.').len() == 1 + rest.len());
    }
}

/// A text with four pieces is these, with dots between them.
proof fn lemma_four_pieces(s: Seq<char>, p: Seq<Seq<char>>)
    requires
        text::pieces(s, '.') == p,
        p.len() == 4,
    ensures
        s == p[0] + "."@ + p[1] + "."@ + p[2] + "."@ + p[3],
{
    let r1 = lemma_piece_front(s, 4);
    let r2 = lemma_piece_front(r1, 3);
    let r3 = lemma_piece_front(r2, 2);
    lemma_only_piece(r3);
    lemma_together(p[0], p[1], p[2], p[3], "."@);
}

/// An address has one form only: what is read as an address is the dotted form
/// of it.
pub proof fn address_has_one_form(s: Seq<char>)
    requires
        address(s) is Some,
    ensures
        (address(s)->0).len() == 4,
        s == dotted(address(s)->0),
{
    let p = text::pieces(s, '.');
    lemma_four_pieces(s, p);
    lemma_octet_back(p[0]);
    lemma_octet_back(p[1]);
    lemma_octet_back(p[2]);
    lemma_octet_back(p[3]);
}

/// Different addresses are written differently.
pub proof fn dotted_tells_apart(a: Seq<u8>, b: Seq<u8>)
    requires
        a.len() == 4,
        b.len() == 4,
        dotted(a) == dotted(b),
    ensures
        a == b,
{
    dotted_reads_back(a);
    dotted_reads_back(b);
}

} // verus!
