//! Laws of texts: what was put together falls apart again.

use vstd::prelude::*;

verus! {

/// Whether no character of `s` is `c`.
pub open spec fn free_of(s: Seq<char>, c: char) -> bool {
    forall|i: int| 0 <= i < s.len() ==> #[trigger] s[i] != c
}

/// Whether no character of `s` is white space.
pub open spec fn free_of_space(s: Seq<char>) -> bool {
    forall|i: int| 0 <= i < s.len() ==> !crate::text::is_space(#[trigger] s[i])
}

/// The first `c` stands behind a part without one.
pub proof fn lemma_find_behind(a: Seq<char>, c: char, rest: Seq<char>)
    requires
        free_of(a, c),
    ensures
        crate::text::find(a + seq![c] + rest, c) == a.len(),
        crate::text::parted(a + seq![c] + rest, c) == Some((a, rest)),
{
    let s = a + seq![c] + rest;
    assert forall|i: int| 0 <= i < a.len() implies crate::text::other_than(c)(#[trigger] s[i]) by {
        assert(s[i] == a[i]);
    }
    crate::text::lemma_prefix_len(s, crate::text::other_than(c), a.len() as int);
    assert(s.take(a.len() as int) =~= a);
    assert(s.skip(a.len() as int + 1) =~= rest);
}

/// There is no `c` in a text without one.
pub proof fn lemma_find_none(a: Seq<char>, c: char)
    requires
        free_of(a, c),
    ensures
        crate::text::find(a, c) == a.len(),
{
    crate::text::lemma_prefix_len(a, crate::text::other_than(c), a.len() as int);
}

/// The first piece, and the pieces behind it.
pub proof fn lemma_pieces_behind(a: Seq<char>, c: char, rest: Seq<char>)
    requires
        free_of(a, c),
    ensures
        crate::text::pieces(a + seq![c] + rest, c) == seq![a] + crate::text::pieces(rest, c),
{
    lemma_find_behind(a, c, rest);
}

/// A text without the separator is one piece.
pub proof fn lemma_pieces_one(a: Seq<char>, c: char)
    requires
        free_of(a, c),
    ensures
        crate::text::pieces(a, c) == seq![a],
{
    lemma_find_none(a, c);
}

/// White space in front makes no difference to the words.
proof fn lemma_words_space(c: char, s: Seq<char>)
    requires
        crate::text::is_space(c),
    ensures
        crate::text::words(seq![c] + s) == crate::text::words(s),
{
    let t = seq![c] + s;
    assert(t.drop_first() =~= s);
    let a = crate::text::prefix_len(s, crate::text::space()) as int;
    assert(crate::text::prefix_len(t, crate::text::space()) == a + 1);
    crate::text::lemma_prefix_bound(s, crate::text::space());
    if a < s.len() {
        assert(t.skip(a + 1) =~= s.skip(a));
    }
}

/// The first word, and the words behind it.
pub proof fn lemma_words_behind(w: Seq<char>, c: char, rest: Seq<char>)
    requires
        w.len() > 0,
        free_of_space(w),
        crate::text::is_space(c),
    ensures
        crate::text::words(w + seq![c] + rest) == seq![w] + crate::text::words(rest),
{
    let s = w + seq![c] + rest;
    assert(s[0] == w[0]);
    crate::text::lemma_prefix_len(s, crate::text::space(), 0);
    assert(s.skip(0) =~= s);
    assert forall|i: int| 0 <= i < w.len() implies crate::text::nonspace()(#[trigger] s[i]) by {
        assert(s[i] == w[i]);
    }
    crate::text::lemma_prefix_len(s, crate::text::nonspace(), w.len() as int);
    assert(s.take(w.len() as int) =~= w);
    assert(s.skip(w.len() as int) =~= seq![c] + rest);
    lemma_words_space(c, rest);
}

/// A text without white space is one word, and none where it is empty.
pub proof fn lemma_words_one(w: Seq<char>)
    requires
        free_of_space(w),
    ensures
        w.len() > 0 ==> crate::text::words(w) == seq![w],
        w.len() == 0 ==> crate::text::words(w) == Seq::<Seq<char>>::empty(),
{
    if w.len() > 0 {
        assert(!crate::text::is_space(w[0]));
        crate::text::lemma_prefix_len(w, crate::text::space(), 0);
        assert(w.skip(0) =~= w);
        crate::text::lemma_prefix_len(w, crate::text::nonspace(), w.len() as int);
        assert(w.take(w.len() as int) =~= w);
        let e = w.skip(w.len() as int);
        assert(e.len() == 0);
        assert(crate::text::words(e) =~= Seq::empty());
        assert(crate::text::words(w) =~= seq![w]);
    }
}

/// The first line, and the lines behind it.
pub proof fn lemma_lines_behind(line: Seq<char>, rest: Seq<char>)
    requires
        free_of(line, '\n'),
    ensures
        crate::text::lines(line + "\r\n"@ + rest) == seq![line] + crate::text::lines(rest),
{
    reveal_strlit("\r\n");
    let a = line.push('\r');
    let s = line + "\r\n"@ + rest;
    assert(s =~= a + seq!['\n'] + rest);
    assert(free_of(a, '\n'));
    lemma_find_behind(a, '\n', rest);
    assert(s.take(a.len() as int) =~= a);
    assert(s.skip(a.len() as int + 1) =~= rest);
    assert(crate::text::without_cr(a) =~= line);
}

/// Lines behind whole lines.
pub proof fn lemma_lines_apart(front: Seq<char>, rest: Seq<char>)
    requires
        front.len() == 0 || front.last() == '\n',
    ensures
        crate::text::lines(front + rest) == crate::text::lines(front) + crate::text::lines(rest),
    decreases front.len(),
{
    if front.len() == 0 {
        assert(front + rest =~= rest);
        assert(crate::text::lines(front) + crate::text::lines(rest) =~= crate::text::lines(rest));
    } else {
        let n = crate::text::find(front, '\n') as int;
        crate::text::lemma_prefix_bound(front, crate::text::other_than('\n'));
        if n == front.len() {
            assert(crate::text::other_than('\n')(front[front.len() - 1]));
        }
        let first = front.take(n);
        let behind = front.skip(n + 1);
        let all = front + rest;
        assert(free_of(first, '\n')) by {
            assert forall|k: int| 0 <= k < first.len() implies #[trigger] first[k] != '\n' by {
                assert(crate::text::other_than('\n')(front[k]));
            }
        }
        assert(all =~= first + seq!['\n'] + (behind + rest));
        lemma_find_behind(first, '\n', behind + rest);
        assert(all.take(n) =~= first);
        assert(all.skip(n + 1) =~= behind + rest);
        if behind.len() > 0 {
            assert(behind.last() == front.last());
        }
        lemma_lines_apart(behind, rest);
        assert(crate::text::lines(all) =~= crate::text::lines(front) + crate::text::lines(rest));
    }
}

/// Joined lines begin with the first line.
pub proof fn lemma_joined_front(lines: Seq<Seq<char>>)
    requires
        lines.len() > 0,
    ensures
        crate::text::joined(lines) == lines[0] + "\r\n"@ + crate::text::joined(lines.drop_first()),
    decreases lines.len(),
{
    if lines.len() == 1 {
        assert(lines.drop_last() =~= Seq::empty());
        assert(lines.drop_first() =~= Seq::empty());
        assert(crate::text::joined(lines.drop_last()) =~= Seq::empty());
        assert(crate::text::joined(lines) =~= lines[0] + "\r\n"@ + crate::text::joined(lines.drop_first()));
    } else {
        let init = lines.drop_last();
        lemma_joined_front(init);
        assert(init.drop_first() =~= lines.drop_first().drop_last());
        assert(lines.drop_first().last() == lines.last());
        assert(crate::text::joined(lines) =~= lines[0] + "\r\n"@ + crate::text::joined(lines.drop_first()));
    }
}

/// Joined lines fall into the lines they were joined from.
pub proof fn joined_lines_come_back(lines: Seq<Seq<char>>)
    requires
        forall|i: int| 0 <= i < lines.len() ==> free_of(#[trigger] lines[i], '\n'),
    ensures
        crate::text::lines(crate::text::joined(lines)) == lines,
    decreases lines.len(),
{
    if lines.len() > 0 {
        let rest = lines.drop_first();
        lemma_joined_front(lines);
        assert forall|i: int| 0 <= i < rest.len() implies free_of(#[trigger] rest[i], '\n') by {
            assert(rest[i] == lines[i + 1]);
        }
        joined_lines_come_back(rest);
        lemma_lines_behind(lines[0], crate::text::joined(rest));
        assert(seq![lines[0]] + rest =~= lines);
    } else {
        assert(lines =~= Seq::empty());
    }
}

/// The digits of a number are no separators.
pub proof fn lemma_decimal_plain(n: nat)
    ensures
        crate::text::decimal(n).len() > 0,
        free_of_space(crate::text::decimal(n)),
        free_of(crate::text::decimal(n), '/'),
        free_of(crate::text::decimal(n), ':'),
        free_of(crate::text::decimal(n), '\n'),
        free_of(crate::text::decimal(n), '\r'),
{
    crate::text::lemma_decimal(n);
    let d = crate::text::decimal(n);
    assert forall|i: int| 0 <= i < d.len() implies crate::text::is_digit(#[trigger] d[i]) by {}
    assert forall|i: int| 0 <= i < d.len() implies !crate::text::is_space(#[trigger] d[i]) by {
        assert(crate::text::is_digit(d[i]));
    }
}

/// Trimming takes white space off both ends, and nothing else.
pub proof fn trimming_takes_white_space_off(a: Seq<char>, s: Seq<char>, b: Seq<char>)
    requires
        forall|i: int| 0 <= i < a.len() ==> crate::text::is_space(#[trigger] a[i]),
        forall|i: int| 0 <= i < b.len() ==> crate::text::is_space(#[trigger] b[i]),
        s.len() > 0,
        !crate::text::is_space(s[0]),
        !crate::text::is_space(s.last()),
    ensures
        crate::text::trimmed(a + s + b) == s,
{
    let t = a + s + b;
    assert forall|i: int| 0 <= i < a.len() implies (crate::text::space())(#[trigger] t[i]) by {
        assert(t[i] == a[i]);
    }
    assert(t[a.len() as int] == s[0]);
    crate::text::lemma_prefix_len(t, crate::text::space(), a.len() as int);
    assert(t.skip(a.len() as int) =~= s + b);
    lemma_trimmed_end(s, b);
}

proof fn lemma_trimmed_end(s: Seq<char>, b: Seq<char>)
    requires
        forall|i: int| 0 <= i < b.len() ==> crate::text::is_space(#[trigger] b[i]),
        s.len() > 0,
        !crate::text::is_space(s.last()),
    ensures
        crate::text::trimmed_end(s + b) == s,
    decreases b.len(),
{
    if b.len() == 0 {
        assert(s + b =~= s);
    } else {
        let c = b.drop_last();
        assert forall|i: int| 0 <= i < c.len() implies crate::text::is_space(#[trigger] c[i]) by {
            assert(c[i] == b[i]);
        }
        lemma_trimmed_end(s, c);
        assert((s + b).drop_last() =~= s + c);
        assert((s + b).last() == b[b.len() - 1]);
    }
}

/// The small form of a capital letter stands 32 places behind it; every other
/// character is its own small form.
pub proof fn small_letters_stand_behind_capital_ones(s: Seq<char>, i: int)
    requires
        0 <= i < s.len(),
    ensures
        crate::text::lower(s).len() == s.len(),
        'A' <= s[i] <= 'Z' ==> crate::text::lower(s)[i] as u32 == s[i] as u32 + 32,
        !('A' <= s[i] <= 'Z') ==> crate::text::lower(s)[i] == s[i],
{
}

/// A number in decimal digits is read as its value, with a plus sign in front or
/// without, up to the largest one that is allowed; one digit more makes it ten
/// times as large and adds the digit. Whatever holds something else is no number.
pub proof fn number_is_read_as_its_value(s: Seq<char>, d: nat, max: nat)
    requires
        s.len() > 0,
        crate::text::all_digits(s),
        d < 10,
    ensures
        crate::text::unsigned(s, max) == (if crate::text::digits_value(s) <= max {
            Some(crate::text::digits_value(s))
        } else {
            None
        }),
        crate::text::unsigned(seq!['+'] + s, max) == crate::text::unsigned(s, max),
        crate::text::unsigned(seq!['-'] + s, max) is None,
        crate::text::unsigned(Seq::empty(), max) is None,
        crate::text::digits_value(s.push("0123456789"@[d as int])) == 10
            * crate::text::digits_value(s) + d,
        crate::text::decimal(d) == seq!["0123456789"@[d as int]],
{
    reveal_strlit("0123456789");
    assert(crate::text::is_digit(s[0]));
    assert((seq!['+'] + s).skip(1) =~= s);
    let m = seq!['-'] + s;
    assert(m[0] == '-' && !crate::text::is_digit(m[0]));
    assert(s.push("0123456789"@[d as int]).drop_last() =~= s);
}

/// White space is what Unicode has as such, and nothing else.
pub proof fn white_space_is_that_of_unicode(c: char)
    ensures
        crate::text::is_space(c) <==> {
            let n = c as u32;
            9 <= n <= 13 || n == 32 || n == 133 || n == 160 || n == 5760 || 8192 <= n <= 8202 || n
                == 8232 || n == 8233 || n == 8239 || n == 8287 || n == 12288
        },
{
}

/// Pieces are told apart by their mark, and an empty piece is a piece.
pub proof fn empty_piece_is_a_piece(a: Seq<char>, b: Seq<char>, c: char)
    requires
        free_of(a, c),
        free_of(b, c),
    ensures
        crate::text::pieces(a + seq![c] + (seq![c] + b), c) == seq![a, Seq::empty(), b],
{
    let e = Seq::<char>::empty();
    let rest = seq![c] + b;
    assert(crate::text::pieces(rest, c) == seq![e] + seq![b]) by {
        lemma_pieces_one(b, c);
        assert(e + seq![c] + b =~= rest);
        lemma_pieces_behind(e, c, b);
    }
    lemma_pieces_behind(a, c, rest);
    assert(seq![a] + (seq![e] + seq![b]) =~= seq![a, e, b]);
}

/// Words are told apart by any white space, and an empty word is none.
pub proof fn empty_word_is_none(a: Seq<char>, b: Seq<char>)
    requires
        free_of_space(a),
        free_of_space(b),
        a.len() > 0,
        b.len() > 0,
    ensures
        crate::text::words(a + seq![' '] + (seq!['\t'] + b)) == seq![a, b],
{
    let rest = seq!['\t'] + b;
    assert(crate::text::words(rest) == seq![b]) by {
        lemma_words_one(b);
        lemma_words_space('\t', b);
    }
    lemma_words_behind(a, ' ', rest);
    assert(seq![a] + seq![b] =~= seq![a, b]);
}

} // verus!
