//! Packet times: decimal milliseconds in text, whole microseconds in memory.
//!
//! A packet time is written as `1`, `0.125` or `1.25e-1`. Reading shifts the
//! decimal point by three places and rounds to whole microseconds.

pub mod laws;

use crate::text;
use vstd::prelude::*;
use vstd::slice::slice_subrange;

verus! {

/// One more than the largest packet time that can be kept.
pub const CAP: u64 = 0x1_0000_0000;

/// `n` zeros.
pub open spec fn zeros(n: nat) -> Seq<char> {
    Seq::new(n, |i: int| '0')
}

/// The first `p` digits of `d`, filled up with zeros where there are fewer.
pub open spec fn first_digits(d: Seq<char>, p: int) -> Seq<char> {
    if p <= 0 {
        Seq::empty()
    } else if p <= d.len() {
        d.take(p)
    } else {
        d + zeros((p - d.len()) as nat)
    }
}

/// The number whose digits are `d` with the decimal point behind the first `p`
/// of them, rounded to a whole number, halves upwards.
pub open spec fn rounded(d: Seq<char>, p: int) -> nat {
    let up: nat = if 0 <= p < d.len() && text::digit_value(d[p]) >= 5 {
        1
    } else {
        0
    };
    text::digits_value(first_digits(d, p)) + up
}

/// `n` where it is a 32-bit number, and else the largest one.
pub open spec fn saturated(n: nat) -> u32 {
    if n < CAP {
        n as u32
    } else {
        0xffff_ffffu32
    }
}

/// What is neither `e` nor `E`.
pub open spec fn before_exponent() -> spec_fn(char) -> bool {
    |c: char| c != 'e' && c != 'E'
}

/// The exponent written behind the `e`: digits with a sign or without.
pub open spec fn exponent(s: Seq<char>) -> Option<int> {
    let negative = s.len() > 0 && s[0] == '-';
    let d = if s.len() > 0 && (s[0] == '+' || s[0] == '-') {
        s.skip(1)
    } else {
        s
    };
    if d.len() > 0 && text::all_digits(d) {
        Some(
            if negative {
                -(text::digits_value(d) as int)
            } else {
                text::digits_value(d) as int
            },
        )
    } else {
        None
    }
}

/// The digits of a number, and behind how many of them its point stands.
pub open spec fn mantissa(s: Seq<char>) -> Option<(Seq<char>, int)> {
    let at = text::find(s, '.') as int;
    let d = if at < s.len() {
        s.take(at) + s.skip(at + 1)
    } else {
        s
    };
    if d.len() > 0 && text::all_digits(d) {
        Some((d, at))
    } else {
        None
    }
}

/// The microseconds that an unsigned number of milliseconds stands for.
pub open spec fn magnitude(s: Seq<char>) -> Option<u32> {
    let at = text::prefix_len(s, before_exponent()) as int;
    let exp = if at < s.len() {
        exponent(s.skip(at + 1))
    } else {
        Some(0)
    };
    if text::lower(s) == "inf"@ || text::lower(s) == "infinity"@ {
        Some(0xffff_ffffu32)
    } else if text::lower(s) == "nan"@ {
        Some(0)
    } else {
        match (mantissa(s.take(at)), exp) {
            (Some((d, point)), Some(e)) => Some(saturated(rounded(d, point + e + 3))),
            _ => None,
        }
    }
}

/// The packet time in microseconds of a text in milliseconds: rounded to the
/// nearest, 0 for what is negative or no number, the largest value for what is
/// too large. `None` where the text is no number at all.
pub open spec fn micros(s: Seq<char>) -> Option<u32> {
    if s.len() > 0 && s[0] == '-' {
        match magnitude(s.skip(1)) {
            Some(_) => Some(0),
            None => None,
        }
    } else if s.len() > 0 && s[0] == '+' {
        magnitude(s.skip(1))
    } else {
        magnitude(s)
    }
}

/// `n` where it is below the cap, and else the cap.
pub open spec fn capped(n: nat) -> u64 {
    if n < CAP {
        n as u64
    } else {
        CAP
    }
}

/// One zero more multiplies by ten.
proof fn lemma_zero_more(d: Seq<char>, p: int)
    requires
        p >= d.len(),
        p >= 0,
    ensures
        text::digits_value(first_digits(d, p + 1)) == text::digits_value(first_digits(d, p)) * 10,
{
    let f = first_digits(d, p);
    let g = first_digits(d, p + 1);
    assert(g =~= f.push('0'));
    assert(g.drop_last() =~= f);
}

/// Many zeros make a positive number too large, and leave 0 as it is.
proof fn lemma_zeros(d: Seq<char>, p: int, q: int)
    requires
        0 <= d.len() <= p <= q,
    ensures
        text::digits_value(first_digits(d, p)) == 0 ==> text::digits_value(first_digits(d, q)) == 0,
        text::digits_value(first_digits(d, p)) <= text::digits_value(first_digits(d, q)),
    decreases q - p,
{
    if p < q {
        lemma_zero_more(d, q - 1);
        lemma_zeros(d, p, q - 1);
    }
}

/// Ten zeros take a positive number beyond the cap.
proof fn lemma_ten_zeros(d: Seq<char>, p: int, q: int)
    requires
        0 <= d.len() <= p,
        p + 10 <= q,
        text::digits_value(first_digits(d, p)) > 0,
    ensures
        text::digits_value(first_digits(d, q)) >= CAP,
{
    lemma_zero_more(d, p);
    lemma_zero_more(d, p + 1);
    lemma_zero_more(d, p + 2);
    lemma_zero_more(d, p + 3);
    lemma_zero_more(d, p + 4);
    lemma_zero_more(d, p + 5);
    lemma_zero_more(d, p + 6);
    lemma_zero_more(d, p + 7);
    lemma_zero_more(d, p + 8);
    lemma_zero_more(d, p + 9);
    lemma_zeros(d, p + 10, q);
}

/// Rounds the number whose digits are `d` with the point behind the first `p`.
fn round_at(d: &[char], p: i128) -> (r: u32)
    requires
        text::all_digits(d@),
    ensures
        r == saturated(rounded(d@, p as int)),
{
    if p < 0 {
        assert(first_digits(d@, p as int) =~= Seq::empty());
        return 0;
    }
    let n: usize = d.len();
    let upto: usize = if p < n as i128 {
        p as usize
    } else {
        n
    };
    let mut acc: u64 = 0;
    let mut i: usize = 0;
    assert(d@.take(0) =~= Seq::<char>::empty());
    while i < upto
        invariant
            i <= upto <= d@.len(),
            text::all_digits(d@),
            acc == capped(text::digits_value(d@.take(i as int))),
        decreases upto - i,
    {
        let c: char = d[i];
        assert(text::is_digit(d@[i as int]));
        let x: u64 = (c as u32 - '0' as u32) as u64;
        assert(d@.take(i + 1).drop_last() =~= d@.take(i as int));
        acc = acc * 10 + x;
        if acc > CAP {
            acc = CAP;
        }
        i = i + 1;
    }
    assert(first_digits(d@, upto as int) =~= d@.take(upto as int));
    let mut at: i128 = upto as i128;
    while at < p && acc != 0 && acc < CAP
        invariant
            0 <= at <= p,
            at < p ==> at >= d@.len(),
            at >= upto,
            at == p || upto == d@.len(),
            acc == capped(text::digits_value(first_digits(d@, at as int))),
        decreases p - at,
    {
        proof {
            lemma_zero_more(d@, at as int);
        }
        acc = acc * 10;
        if acc > CAP {
            acc = CAP;
        }
        at = at + 1;
    }
    proof {
        if at < p {
            lemma_zeros(d@, at as int, p as int);
        }
        assert(acc == capped(text::digits_value(first_digits(d@, p as int))));
    }
    if p < n as i128 {
        let c: char = d[p as usize];
        assert(text::is_digit(d@[p as int]));
        if c as u32 - '0' as u32 >= 5 {
            acc = acc + 1;
        }
    }
    if acc >= CAP {
        0xffff_ffff
    } else {
        acc as u32
    }
}

/// An exponent is told apart no further than this.
const FAR: u128 = 0x10_0000_0000_0000_0000_0000;

/// The digits as a number, no larger than [`FAR`].
fn digits_far(d: &[char]) -> (r: Option<u128>)
    ensures
        r is Some <==> d@.len() > 0 && text::all_digits(d@),
        r matches Some(v) ==> v == (if text::digits_value(d@) < FAR {
            text::digits_value(d@) as u128
        } else {
            FAR
        }),
{
    if d.len() == 0 {
        return None;
    }
    let mut v: u128 = 0;
    let mut i: usize = 0;
    assert(d@.take(0) =~= Seq::<char>::empty());
    while i < d.len()
        invariant
            i <= d@.len(),
            forall|k: int| 0 <= k < i ==> text::is_digit(#[trigger] d@[k]),
            v == (if text::digits_value(d@.take(i as int)) < FAR {
                text::digits_value(d@.take(i as int)) as u128
            } else {
                FAR
            }),
        decreases d@.len() - i,
    {
        let c: char = d[i];
        if c < '0' || '9' < c {
            return None;
        }
        let x: u128 = (c as u32 - '0' as u32) as u128;
        assert(d@.take(i + 1).drop_last() =~= d@.take(i as int));
        v = v * 10 + x;
        if v > FAR {
            v = FAR;
        }
        i = i + 1;
    }
    assert(d@.take(d@.len() as int) =~= d@);
    Some(v)
}

/// Where the point stands makes no difference once it is far behind, or in front
/// of, all digits.
proof fn lemma_far(d: Seq<char>, p: int, q: int)
    requires
        (p >= d.len() + 10 && q >= d.len() + 10) || (p < 0 && q < 0),
    ensures
        saturated(rounded(d, p)) == saturated(rounded(d, q)),
{
    if p < 0 {
        assert(first_digits(d, p) =~= first_digits(d, q));
    } else {
        assert(first_digits(d, d.len() as int) =~= d);
        if text::digits_value(d) == 0 {
            lemma_zeros(d, d.len() as int, p);
            lemma_zeros(d, d.len() as int, q);
        } else {
            lemma_ten_zeros(d, d.len() as int, p);
            lemma_ten_zeros(d, d.len() as int, q);
        }
    }
}

/// The exponent, no further from 0 than [`FAR`].
fn read_exponent(s: &[char]) -> (r: Option<i128>)
    ensures
        match exponent(s@) {
            Some(e) => r matches Some(v) && v == (if e >= FAR {
                FAR as int
            } else if e <= -(FAR as int) {
                -(FAR as int)
            } else {
                e
            }),
            None => r is None,
        },
{
    let negative: bool = s.len() > 0 && s[0] == '-';
    let from: usize = if s.len() > 0 && (s[0] == '+' || s[0] == '-') {
        1
    } else {
        0
    };
    assert(s@.subrange(from as int, s@.len() as int) =~= s@.skip(from as int));
    assert(from == 0 ==> s@.skip(from as int) =~= s@);
    match digits_far(slice_subrange(s, from, s.len())) {
        Some(v) => if negative {
            Some(-(v as i128))
        } else {
            Some(v as i128)
        },
        None => None,
    }
}

/// The digits of a number, and behind how many of them its point stands.
fn read_mantissa(head: &[char]) -> (r: Option<(Vec<char>, usize)>)
    ensures
        match mantissa(head@) {
            Some((d, at)) => r matches Some((v, p)) && v@ == d && p == at,
            None => r is None,
        },
{
    let point: usize = text::find_from(head, 0, '.');
    assert(head@.skip(0) =~= head@);
    let mut d: Vec<char> = Vec::new();
    let mut i: usize = 0;
    while i < head.len()
        invariant
            i <= head@.len(),
            point <= head@.len(),
            point == text::find(head@, '.'),
            i <= point ==> d@ == head@.take(i as int),
            i > point ==> d@ == head@.take(point as int) + head@.subrange(point + 1, i as int),
            text::all_digits(d@),
            i <= point ==> d@.len() == i,
        decreases head@.len() - i,
    {
        if i != point {
            let c: char = head[i];
            if c < '0' || '9' < c {
                proof {
                    let m = if point < head@.len() {
                        head@.take(point as int) + head@.skip(point + 1)
                    } else {
                        head@
                    };
                    let k = if i < point {
                        i as int
                    } else {
                        i - 1
                    };
                    assert(m[k] == c);
                    assert(!text::is_digit(m[k]));
                }
                return None;
            }
            d.push(c);
        }
        i = i + 1;
        proof {
            if i <= point {
                assert(d@ =~= head@.take(i as int));
            } else {
                assert(d@ =~= head@.take(point as int) + head@.subrange(point + 1, i as int));
            }
        }
    }
    proof {
        if point < head@.len() {
            assert(d@ =~= head@.take(point as int) + head@.skip(point + 1));
        } else {
            assert(d@ =~= head@);
        }
    }
    if d.len() == 0 {
        return None;
    }
    Some((d, point))
}

/// The microseconds of an unsigned number of milliseconds.
fn read_magnitude(s: &[char]) -> (r: Option<u32>)
    ensures
        r == magnitude(s@),
{
    let small: Vec<char> = text::to_lower(s);
    if text::is_text(small.as_slice(), "inf") || text::is_text(small.as_slice(), "infinity") {
        return Some(0xffff_ffff);
    }
    if text::is_text(small.as_slice(), "nan") {
        return Some(0);
    }
    let mut at: usize = 0;
    while at < s.len() && s[at] != 'e' && s[at] != 'E'
        invariant
            at <= s@.len(),
            forall|k: int| 0 <= k < at ==> s@[k] != 'e' && s@[k] != 'E',
        decreases s@.len() - at,
    {
        at = at + 1;
    }
    proof {
        text::lemma_prefix_len(s@, before_exponent(), at as int);
    }
    let exp: i128 = if at < s.len() {
        assert(s@.subrange(at + 1, s@.len() as int) =~= s@.skip(at + 1));
        match read_exponent(slice_subrange(s, at + 1, s.len())) {
            Some(e) => e,
            None => {
                return None;
            },
        }
    } else {
        0
    };
    let head: &[char] = slice_subrange(s, 0, at);
    assert(head@ =~= s@.take(at as int));
    let (d, point): (Vec<char>, usize) = match read_mantissa(head) {
        Some(m) => m,
        None => {
            return None;
        },
    };
    let r: u32 = round_at(d.as_slice(), point as i128 + exp + 3);
    proof {
        if at < s@.len() {
            let e = exponent(s@.skip(at + 1))->0;
            if e != exp {
                lemma_far(d@, point + exp + 3, point + e + 3);
            }
        }
    }
    Some(r)
}

/// Reads a packet time in milliseconds; gives it in microseconds.
pub fn parse_micros(s: &[char]) -> (r: Option<u32>)
    ensures
        r == micros(s@),
{
    let signed: bool = s.len() > 0 && (s[0] == '-' || s[0] == '+');
    if signed {
        assert(s@.subrange(1, s@.len() as int) =~= s@.skip(1));
        match read_magnitude(slice_subrange(s, 1, s.len())) {
            Some(v) => if s[0] == '-' {
                Some(0)
            } else {
                Some(v)
            },
            None => None,
        }
    } else {
        read_magnitude(s)
    }
}

/// The digits behind the point for `f` thousandths, without zeros at the end.
pub open spec fn thousandths(f: nat) -> Seq<char> {
    if f % 100 == 0 {
        seq![text::digit(f / 100)]
    } else if f % 10 == 0 {
        seq![text::digit(f / 100), text::digit((f / 10) % 10)]
    } else {
        seq![text::digit(f / 100), text::digit((f / 10) % 10), text::digit(f % 10)]
    }
}

/// A packet time of `us` microseconds in milliseconds, without needless decimal
/// places.
pub open spec fn millis(us: u32) -> Seq<char> {
    let whole = text::decimal((us / 1000) as nat);
    if us % 1000 == 0 {
        whole
    } else {
        whole + "."@ + thousandths((us % 1000) as nat)
    }
}

/// Appends the packet time of `us` microseconds in milliseconds.
pub fn push_millis(out: &mut String, us: u32)
    ensures
        final(out)@ == old(out)@ + millis(us),
{
    text::push_decimal(out, (us / 1000) as u64);
    let f: u32 = us % 1000;
    if f == 0 {
        return;
    }
    text::push_text(out, ".");
    let a: u8 = (f / 100) as u8;
    let b: u8 = ((f / 10) % 10) as u8;
    let c: u8 = (f % 10) as u8;
    out.push((a + 48) as char);
    if f % 100 != 0 {
        out.push((b + 48) as char);
        if f % 10 != 0 {
            out.push((c + 48) as char);
        }
    }
    assert(out@ =~= old(out)@ + millis(us));
}

/// The value of digits written one behind another.
proof fn lemma_digits_value_push(s: Seq<char>, c: char)
    ensures
        text::digits_value(s.push(c)) == text::digits_value(s) * 10 + text::digit_value(c),
{
    assert(s.push(c).drop_last() =~= s);
}

/// The digits behind the point are digits.
proof fn lemma_thousandths(f: nat)
    requires
        0 < f < 1000,
    ensures
        1 <= thousandths(f).len() <= 3,
        forall|i: int| 0 <= i < thousandths(f).len() ==> text::is_digit(#[trigger] thousandths(f)[i]),
{
}

/// The value of a number with three digits behind it.
proof fn lemma_three_more(whole: Seq<char>, f: nat)
    requires
        f < 1000,
    ensures
        text::digits_value(
            whole.push(text::digit(f / 100)).push(text::digit((f / 10) % 10)).push(
                text::digit(f % 10),
            ),
        ) == text::digits_value(whole) * 1000 + f,
{
    let a = whole.push(text::digit(f / 100));
    let b = a.push(text::digit((f / 10) % 10));
    lemma_digits_value_push(whole, text::digit(f / 100));
    lemma_digits_value_push(a, text::digit((f / 10) % 10));
    lemma_digits_value_push(b, text::digit(f % 10));
    assert(f == f / 100 * 100 + (f / 10) % 10 * 10 + f % 10);
}

/// What is written is digits, with a point among them where needed.
proof fn lemma_millis_form(us: u32)
    ensures
        ({
            let s = millis(us);
            let n = text::decimal((us / 1000) as nat).len() as int;
            &&& s.len() > 0
            &&& text::is_digit(s[0])
            &&& text::prefix_len(s, before_exponent()) == s.len()
            &&& text::find(s, '.') == n
            &&& n <= s.len()
            &&& s.take(n) == text::decimal((us / 1000) as nat)
            &&& (us % 1000 == 0 <==> n == s.len())
            &&& us % 1000 != 0 ==> s.skip(n + 1) == thousandths((us % 1000) as nat)
        }),
{
    reveal_strlit(".");
    let f = (us % 1000) as nat;
    let whole = text::decimal((us / 1000) as nat);
    text::lemma_decimal((us / 1000) as nat);
    let s = millis(us);
    let n = whole.len() as int;
    if f != 0 {
        lemma_thousandths(f);
        assert(s.skip(n + 1) =~= thousandths(f));
    }
    assert(s.take(n) =~= whole);
    assert forall|i: int| 0 <= i < n implies text::is_digit(#[trigger] s[i]) by {
        assert(s[i] == whole[i]);
    }
    assert forall|i: int| 0 <= i < s.len() implies before_exponent()(#[trigger] s[i]) by {
        if i > n {
            assert(s[i] == thousandths(f)[i - n - 1]);
        }
    }
    text::lemma_prefix_len(s, before_exponent(), s.len() as int);
    text::lemma_prefix_len(s, text::other_than('.'), n);
}

/// A packet time that was written is read back as it was.
#[verifier::spinoff_prover]
pub proof fn millis_reads_back(us: u32)
    ensures
        micros(millis(us)) == Some(us),
{
    reveal_strlit("inf");
    reveal_strlit("infinity");
    reveal_strlit("nan");
    let q = (us / 1000) as nat;
    let f = (us % 1000) as nat;
    let whole = text::decimal(q);
    text::lemma_decimal(q);
    lemma_millis_form(us);
    let s = millis(us);
    let frac = if f == 0 {
        Seq::<char>::empty()
    } else {
        thousandths(f)
    };
    assert(text::lower(s)[0] == s[0]);
    assert(text::lower(s) != "inf"@ && text::lower(s) != "infinity"@ && text::lower(s) != "nan"@);
    assert(s.take(s.len() as int) =~= s);
    let d = whole + frac;
    if f == 0 {
        assert(d =~= s);
    } else {
        lemma_thousandths(f);
        assert(s.take(whole.len() as int) + s.skip(whole.len() as int + 1) =~= d);
    }
    assert forall|i: int| 0 <= i < d.len() implies text::is_digit(#[trigger] d[i]) by {
        if i < whole.len() {
            assert(text::is_digit(whole[i]));
        } else {
            assert(d[i] == frac[i - whole.len()]);
        }
    }
    let three = whole.push(text::digit(f / 100)).push(text::digit((f / 10) % 10)).push(
        text::digit(f % 10),
    );
    assert(first_digits(d, whole.len() as int + 3) =~= three);
    lemma_three_more(whole, f);
    assert(rounded(d, whole.len() as int + 3) == us);
}

} // verus!
