//! Laws of packet times: what a number of milliseconds stands for.

use super::{
    before_exponent, magnitude, micros, millis, rounded, saturated, thousandths,
};
use crate::text;
use vstd::prelude::*;

verus! {

/// A power of ten.
pub open spec fn ten(k: nat) -> nat
    decreases k,
{
    if k == 0 {
        1
    } else {
        10 * ten((k - 1) as nat)
    }
}

/// The value of digits falls into that of the front and that of the rest.
proof fn lemma_split(d: Seq<char>, p: int)
    requires
        text::all_digits(d),
        0 <= p <= d.len(),
    ensures
        text::digits_value(d) == text::digits_value(d.take(p)) * ten((d.len() - p) as nat)
            + text::digits_value(d.skip(p)),
        text::digits_value(d.skip(p)) < ten((d.len() - p) as nat),
    decreases d.len(),
{
    if p == d.len() {
        assert(d.take(p) =~= d);
        assert(d.skip(p) =~= Seq::empty());
        let v = text::digits_value(d) as int;
        assert(v * 1 == v) by (nonlinear_arith);
    } else {
        let e = d.drop_last();
        assert forall|i: int| 0 <= i < e.len() implies text::is_digit(#[trigger] e[i]) by {
            assert(e[i] == d[i]);
        }
        lemma_split(e, p);
        assert(e.take(p) =~= d.take(p));
        assert(d.skip(p).drop_last() =~= e.skip(p));
        assert(d.skip(p).last() == d.last());
        assert(text::is_digit(d[d.len() - 1]));
        let a = text::digits_value(d.take(p)) as int;
        let t = ten((e.len() - p) as nat) as int;
        assert(ten((d.len() - p) as nat) == 10 * t);
        assert(a * (10 * t) == (a * t) * 10) by (nonlinear_arith);
    }
}

/// Zeros behind digits multiply their value.
proof fn lemma_zeros_behind(d: Seq<char>, n: nat)
    ensures
        text::digits_value(d + super::zeros(n)) == text::digits_value(d) * ten(n),
    decreases n,
{
    if n == 0 {
        assert(d + super::zeros(0) =~= d);
        let v = text::digits_value(d) as int;
        assert(v * 1 == v) by (nonlinear_arith);
    } else {
        let m = (n - 1) as nat;
        lemma_zeros_behind(d, m);
        let s = d + super::zeros(n);
        assert(s.drop_last() =~= d + super::zeros(m));
        assert(s.last() == '0');
        let v = text::digits_value(d) as int;
        let t = ten(m) as int;
        assert(v * (10 * t) == (v * t) * 10) by (nonlinear_arith);
    }
}

/// Digits with a point behind the first `p` of them are rounded to the nearest
/// whole number, halves upwards; with the point behind all of them they are
/// followed by zeros, and with the point in front of a zero they round to zero.
pub proof fn number_is_rounded_to_the_nearest(d: Seq<char>, p: int)
    requires
        text::all_digits(d),
    ensures
        0 <= p <= d.len() ==> ({
            let m = ten((d.len() - p) as nat);
            &&& 2 * m * rounded(d, p) <= 2 * text::digits_value(d) + m
            &&& 2 * text::digits_value(d) < 2 * m * rounded(d, p) + m
        }),
        p >= d.len() ==> rounded(d, p) == text::digits_value(d) * ten((p - d.len()) as nat),
        p < 0 ==> rounded(d, p) == 0,
{
    if p < 0 {
    } else if p < d.len() {
        lemma_split(d, p);
        let k = (d.len() - p) as nat;
        let rest = d.skip(p);
        assert forall|i: int| 0 <= i < rest.len() implies text::is_digit(#[trigger] rest[i]) by {
            assert(rest[i] == d[p + i]);
        }
        lemma_split(rest, 1);
        assert(rest.take(1) =~= seq![d[p]]);
        assert(seq![d[p]].drop_last() =~= Seq::empty());
        reveal_with_fuel(text::digits_value, 2);
        let c = text::digit_value(d[p]) as int;
        assert(text::is_digit(d[p]));
        let t = ten((k - 1) as nat) as int;
        let low = text::digits_value(rest.skip(1)) as int;
        let a = text::digits_value(d.take(p)) as int;
        assert(ten(k) == 10 * t);
        assert(text::digits_value(rest) == c * t + low);
        assert(0 <= low < t);
        assert(2 * (10 * t) * a == 2 * (a * (10 * t))) by (nonlinear_arith);
        assert(2 * (10 * t) * (a + 1) == 2 * (a * (10 * t)) + 20 * t) by (nonlinear_arith);
        if c >= 5 {
            assert(5 * t <= c * t <= 9 * t) by (nonlinear_arith)
                requires
                    5 <= c <= 9,
                    t >= 0,
            ;
        } else {
            assert(0 <= c * t <= 4 * t) by (nonlinear_arith)
                requires
                    0 <= c <= 4,
                    t >= 0,
            ;
        }
    } else {
        let n = (p - d.len()) as nat;
        lemma_zeros_behind(d, n);
        if p == 0 {
            assert(d =~= Seq::empty());
        } else if p == d.len() {
            assert(d.take(p) =~= d);
            assert(d + super::zeros(0) =~= d);
        }
        if p == d.len() {
            let v = text::digits_value(d) as int;
            assert(2 * 1 * v == 2 * v);
        }
    }
}

/// A number of digits is no word.
proof fn lemma_no_word(s: Seq<char>)
    requires
        s.len() > 0,
        text::is_digit(s[0]) || s[0] == '.',
    ensures
        text::lower(s) != "inf"@,
        text::lower(s) != "infinity"@,
        text::lower(s) != "nan"@,
{
    reveal_strlit("inf");
    reveal_strlit("infinity");
    reveal_strlit("nan");
    assert(text::lower(s)[0] == s[0]);
}

/// A number of milliseconds with a point in it stands for a thousand times as
/// many microseconds: its digits with the point three places further on, rounded.
pub proof fn milliseconds_are_a_thousand_microseconds(w: Seq<char>, f: Seq<char>)
    requires
        text::all_digits(w),
        text::all_digits(f),
        w.len() + f.len() > 0,
    ensures
        micros(w + seq!['.'] + f) == Some(saturated(rounded(w + f, w.len() as int + 3))),
        w.len() > 0 ==> micros(w) == Some(saturated(rounded(w, w.len() as int + 3))),
        micros(seq!['-'] + (w + seq!['.'] + f)) == Some(0u32),
        micros(seq!['+'] + (w + seq!['.'] + f)) == micros(w + seq!['.'] + f),
{
    let s = w + seq!['.'] + f;
    let d = w + f;
    assert forall|i: int| 0 <= i < s.len() implies s[i] == '.' || text::is_digit(
        #[trigger] s[i],
    ) by {
        if i < w.len() {
            assert(s[i] == w[i]);
        } else if i > w.len() {
            assert(s[i] == f[i - w.len() - 1]);
        }
    }
    assert forall|i: int| 0 <= i < d.len() implies text::is_digit(#[trigger] d[i]) by {
        if i < w.len() {
            assert(d[i] == w[i]);
        } else {
            assert(d[i] == f[i - w.len()]);
        }
    }
    assert(text::laws::free_of(w, '.')) by {
        assert forall|i: int| 0 <= i < w.len() implies #[trigger] w[i] != '.' by {
            assert(text::is_digit(w[i]));
        }
    }
    lemma_no_word(s);
    text::lemma_prefix_len(s, before_exponent(), s.len() as int);
    assert(s.take(s.len() as int) =~= s);
    text::laws::lemma_find_behind(w, '.', f);
    assert(s.take(w.len() as int) + s.skip(w.len() as int + 1) =~= d);
    assert(magnitude(s) == Some(saturated(rounded(d, w.len() as int + 3))));
    assert(s[0] == '.' || text::is_digit(s[0]));
    let minus = seq!['-'] + s;
    let plus = seq!['+'] + s;
    assert(minus.skip(1) =~= s);
    assert(plus.skip(1) =~= s);
    if w.len() > 0 {
        lemma_no_word(w);
        text::lemma_prefix_len(w, before_exponent(), w.len() as int);
        assert(w.take(w.len() as int) =~= w);
        text::laws::lemma_find_none(w, '.');
        assert(text::is_digit(w[0]));
    }
}

/// An exponent moves the point.
pub proof fn exponent_moves_the_point(w: Seq<char>, e: nat, down: bool, small: bool)
    requires
        text::all_digits(w),
        w.len() > 0,
    ensures
        micros(
            w + seq![if small {
                'e'
            } else {
                'E'
            }, if down {
                '-'
            } else {
                '+'
            }] + text::decimal(e),
        ) == Some(
            saturated(
                rounded(
                    w,
                    w.len() as int + 3 + if down {
                        -e
                    } else {
                        e as int
                    },
                ),
            ),
        ),
{
    let mark = if small {
        'e'
    } else {
        'E'
    };
    let sign = if down {
        '-'
    } else {
        '+'
    };
    let n = text::decimal(e);
    let s = w + seq![mark, sign] + n;
    assert(text::is_digit(w[0]));
    assert(s[0] == w[0]);
    lemma_no_word(s);
    assert forall|i: int| 0 <= i < w.len() implies (before_exponent())(#[trigger] s[i]) by {
        assert(s[i] == w[i]);
        assert(text::is_digit(w[i]));
    }
    text::lemma_prefix_len(s, before_exponent(), w.len() as int);
    assert(s.take(w.len() as int) =~= w);
    let tail = s.skip(w.len() as int + 1);
    assert(tail =~= seq![sign] + n);
    assert(tail.skip(1) =~= n);
    text::lemma_decimal(e);
    assert(text::laws::free_of(w, '.')) by {
        assert forall|i: int| 0 <= i < w.len() implies #[trigger] w[i] != '.' by {
            assert(text::is_digit(w[i]));
        }
    }
    text::laws::lemma_find_none(w, '.');
}

/// Whole milliseconds are written as a plain number; otherwise the thousandths
/// stand behind a point, as their digits without zeros at the end.
pub proof fn microseconds_are_thousandths(us: u32)
    ensures
        us % 1000 == 0 ==> millis(us) == text::decimal((us / 1000) as nat),
        us % 1000 != 0 ==> ({
            let f = thousandths((us % 1000) as nat);
            &&& millis(us) == text::decimal((us / 1000) as nat) + "."@ + f
            &&& 1 <= f.len() <= 3
            &&& f.last() != '0'
            &&& text::digits_value(f) * ten((3 - f.len()) as nat) == us % 1000
        }),
{
    if us % 1000 != 0 {
        let f = (us % 1000) as nat;
        let t = thousandths(f);
        let v = text::digits_value(t) as int;
        reveal_with_fuel(ten, 3);
        assert(ten(0) == 1 && ten(1) == 10 && ten(2) == 100);
        let none = Seq::<char>::empty();
        let a = text::digit(f / 100);
        let b = text::digit((f / 10) % 10);
        let c = text::digit(f % 10);
        super::lemma_digits_value_push(none, a);
        super::lemma_digits_value_push(none.push(a), b);
        super::lemma_digits_value_push(none.push(a).push(b), c);
        if f % 100 == 0 {
            assert(t =~= none.push(a));
            assert(v * ten(2) == v * 100);
        } else if f % 10 == 0 {
            assert(t =~= none.push(a).push(b));
            assert(v * ten(1) == v * 10);
        } else {
            assert(t =~= none.push(a).push(b).push(c));
            assert(v * ten(0) == v * 1);
            assert(v * 1 == v) by (nonlinear_arith);
        }
    }
}

/// What fits in 32 bits is kept as it is, and what does not becomes the largest
/// number that does. Infinity is the largest number, too, and what is said to be
/// no number is zero, in letters of any size and with a sign or without.
pub proof fn too_much_is_the_most_that_fits(n: nat)
    ensures
        n <= 0xffff_ffff ==> saturated(n) == n,
        n > 0xffff_ffff ==> saturated(n) == 0xffff_ffff,
        micros("inf"@) == Some(0xffff_ffffu32),
        micros("INF"@) == Some(0xffff_ffffu32),
        micros("infinity"@) == Some(0xffff_ffffu32),
        micros("+inf"@) == Some(0xffff_ffffu32),
        micros("-inf"@) == Some(0u32),
        micros("nan"@) == Some(0u32),
        micros("NaN"@) == Some(0u32),
        micros(Seq::empty()) is None,
{
    reveal_strlit("inf");
    reveal_strlit("INF");
    reveal_strlit("infinity");
    reveal_strlit("+inf");
    reveal_strlit("-inf");
    reveal_strlit("nan");
    reveal_strlit("NaN");
    assert(text::lower("inf"@) =~= "inf"@);
    assert(text::lower("INF"@) =~= "inf"@);
    assert(text::lower("infinity"@) =~= "infinity"@);
    assert(text::lower("nan"@) =~= "nan"@);
    assert(text::lower("NaN"@) =~= "nan"@);
    assert("+inf"@.skip(1) =~= "inf"@);
    assert("-inf"@.skip(1) =~= "inf"@);
    assert("nan"@[0] == 'n' && "inf"@[0] == 'i');
    assert("infinity"@.len() == 8);
    let none = Seq::<char>::empty();
    assert(text::lower(none).len() == 0);
    assert(none.take(0) =~= none);
    text::lemma_prefix_len(none, before_exponent(), 0);
    text::lemma_prefix_len(none, text::other_than('.'), 0);
}

} // verus!
