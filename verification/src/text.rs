//! Text as sequences of characters: lines, words, pieces, numbers.
//!
//! The parsers of this crate work on character slices. The functions here say
//! how a text falls into lines, words and pieces, and read and write numbers.

pub mod laws;

use vstd::prelude::*;
use vstd::slice::slice_subrange;

verus! {

/// The text that an option holds.
pub open spec fn optional(s: Option<String>) -> Option<Seq<char>> {
    match s {
        Some(t) => Some(t@),
        None => None,
    }
}

// ---------------------------------------------------------------------------
// Prefixes
// ---------------------------------------------------------------------------
/// How many characters at the start of `s` satisfy `f`.
pub open spec fn prefix_len(s: Seq<char>, f: spec_fn(char) -> bool) -> nat
    decreases s.len(),
{
    if s.len() > 0 && f(s[0]) {
        1 + prefix_len(s.drop_first(), f)
    } else {
        0
    }
}

/// The prefix of characters that satisfy `f` ends where one does not.
pub proof fn lemma_prefix_len(s: Seq<char>, f: spec_fn(char) -> bool, n: int)
    requires
        0 <= n <= s.len(),
        forall|i: int| 0 <= i < n ==> f(#[trigger] s[i]),
        n < s.len() ==> !f(s[n]),
    ensures
        prefix_len(s, f) == n,
    decreases s.len(),
{
    if n > 0 {
        let t = s.drop_first();
        assert forall|i: int| 0 <= i < n - 1 implies f(#[trigger] t[i]) by {
            assert(t[i] == s[i + 1]);
        }
        lemma_prefix_len(t, f, n - 1);
    }
}

/// What the length of the prefix means.
pub proof fn lemma_prefix_bound(s: Seq<char>, f: spec_fn(char) -> bool)
    ensures
        prefix_len(s, f) <= s.len(),
        forall|i: int| 0 <= i < prefix_len(s, f) ==> f(#[trigger] s[i]),
        prefix_len(s, f) < s.len() ==> !f(s[prefix_len(s, f) as int]),
    decreases s.len(),
{
    if s.len() > 0 && f(s[0]) {
        let t = s.drop_first();
        lemma_prefix_bound(t, f);
        assert forall|i: int| 0 <= i < prefix_len(s, f) implies f(#[trigger] s[i]) by {
            if i > 0 {
                assert(t[i - 1] == s[i]);
            }
        }
    }
}

/// Every character but `c`.
pub open spec fn other_than(c: char) -> spec_fn(char) -> bool {
    |x: char| x != c
}

/// White space in the sense of Unicode's `White_Space` property.
pub open spec fn is_space(c: char) -> bool {
    ||| '\u{9}' <= c <= '\u{D}'
    ||| c == '\u{20}'
    ||| c == '\u{85}'
    ||| c == '\u{A0}'
    ||| c == '\u{1680}'
    ||| '\u{2000}' <= c <= '\u{200A}'
    ||| c == '\u{2028}'
    ||| c == '\u{2029}'
    ||| c == '\u{202F}'
    ||| c == '\u{205F}'
    ||| c == '\u{3000}'
}

/// White space, as a function.
pub open spec fn space() -> spec_fn(char) -> bool {
    |x: char| is_space(x)
}

/// What is not white space, as a function.
pub open spec fn nonspace() -> spec_fn(char) -> bool {
    |x: char| !is_space(x)
}

/// Whether `c` is white space.
pub fn whitespace(c: char) -> (r: bool)
    ensures
        r == is_space(c),
{
    ('\u{9}' <= c && c <= '\u{D}') || c == '\u{20}' || c == '\u{85}' || c == '\u{A0}' || c
        == '\u{1680}' || ('\u{2000}' <= c && c <= '\u{200A}') || c == '\u{2028}' || c == '\u{2029}'
        || c == '\u{202F}' || c == '\u{205F}' || c == '\u{3000}'
}

/// Position of the first `c` in `s`, its length where there is none.
pub open spec fn find(s: Seq<char>, c: char) -> nat {
    prefix_len(s, other_than(c))
}

/// Position of the first `c` at or after `from`, the length where there is none.
pub fn find_from(s: &[char], from: usize, c: char) -> (i: usize)
    requires
        from <= s@.len(),
    ensures
        from <= i <= s@.len(),
        i == from + find(s@.skip(from as int), c),
        i < s@.len() ==> s@[i as int] == c,
{
    let mut i: usize = from;
    while i < s.len() && s[i] != c
        invariant
            from <= i <= s@.len(),
            forall|k: int| from <= k < i ==> s@[k] != c,
        decreases s@.len() - i,
    {
        i = i + 1;
    }
    proof {
        lemma_prefix_len(s@.skip(from as int), other_than(c), i - from);
    }
    i
}

// ---------------------------------------------------------------------------
// Conversion
// ---------------------------------------------------------------------------
/// `String::push`: appends the character to the end of the string.
pub assume_specification[ String::push ](s: &mut String, c: char)
    ensures
        final(s)@ == old(s)@.push(c),
;

/// The characters of `s`.
pub fn chars_of(s: &str) -> (v: Vec<char>)
    ensures
        v@ == s@,
{
    let mut v: Vec<char> = Vec::new();
    for c in it: s.chars()
        invariant
            v@ == it.seq().take(it.index() as int),
            it.seq() == s@,
    {
        v.push(c);
    }
    assert(v@ =~= s@);
    v
}

/// Appends the characters to the string.
pub fn push_chars(out: &mut String, s: &[char])
    ensures
        final(out)@ == old(out)@ + s@,
{
    let mut i: usize = 0;
    while i < s.len()
        invariant
            i <= s@.len(),
            out@ == old(out)@ + s@.take(i as int),
        decreases s@.len() - i,
    {
        out.push(s[i]);
        i = i + 1;
        assert(out@ =~= old(out)@ + s@.take(i as int));
    }
    assert(s@.take(s@.len() as int) =~= s@);
}

/// The string of the characters.
pub fn string_of(s: &[char]) -> (out: String)
    ensures
        out@ == s@,
{
    let mut out: String = String::new();
    push_chars(&mut out, s);
    assert(out@ =~= s@);
    out
}

/// Appends `s` to `out`.
pub fn push_text(out: &mut String, s: &str)
    ensures
        final(out)@ == old(out)@ + s@,
{
    out.append(s);
}

/// A copy of `s`.
pub fn text(s: &str) -> (out: String)
    ensures
        out@ == s@,
{
    s.to_owned()
}

/// Whether the characters are those of `t`.
pub fn is_text(s: &[char], t: &str) -> (r: bool)
    ensures
        r == (s@ == t@),
{
    let v: Vec<char> = chars_of(t);
    same_chars(s, v.as_slice())
}

/// Whether the two slices hold the same characters.
pub fn same_chars(s: &[char], t: &[char]) -> (r: bool)
    ensures
        r == (s@ == t@),
{
    if s.len() != t.len() {
        return false;
    }
    let mut i: usize = 0;
    while i < s.len()
        invariant
            i <= s@.len(),
            s@.len() == t@.len(),
            forall|k: int| 0 <= k < i ==> s@[k] == t@[k],
        decreases s@.len() - i,
    {
        if s[i] != t[i] {
            return false;
        }
        i = i + 1;
    }
    assert(s@ =~= t@);
    true
}

/// Whether the two texts are the same.
pub fn same_text(s: &str, t: &str) -> (r: bool)
    ensures
        r == (s@ == t@),
{
    let a: Vec<char> = chars_of(s);
    is_text(a.as_slice(), t)
}

// ---------------------------------------------------------------------------
// Pieces
// ---------------------------------------------------------------------------
/// Whether `s` starts with `p`.
pub open spec fn starts(s: Seq<char>, p: Seq<char>) -> bool {
    p.len() <= s.len() && s.take(p.len() as int) == p
}

/// `s` without `p` in front; `None` where it does not start with it.
pub open spec fn stripped(s: Seq<char>, p: Seq<char>) -> Option<Seq<char>> {
    if starts(s, p) {
        Some(s.skip(p.len() as int))
    } else {
        None
    }
}

/// Before and after the first `c`; `None` where there is none.
pub open spec fn parted(s: Seq<char>, c: char) -> Option<(Seq<char>, Seq<char>)> {
    let i = find(s, c) as int;
    if i < s.len() {
        Some((s.take(i), s.skip(i + 1)))
    } else {
        None
    }
}

/// The pieces of `s` between the occurrences of `c`; there is always one.
pub open spec fn pieces(s: Seq<char>, c: char) -> Seq<Seq<char>>
    decreases s.len(),
{
    let i = find(s, c) as int;
    if i < s.len() {
        seq![s.take(i)] + pieces(s.skip(i + 1), c)
    } else {
        seq![s]
    }
}

/// The words of `s`: what is left between runs of white space.
pub open spec fn words(s: Seq<char>) -> Seq<Seq<char>>
    decreases s.len(),
{
    let a = prefix_len(s, space()) as int;
    if a < s.len() {
        let t = s.skip(a);
        let n = prefix_len(t, nonspace()) as int;
        if 0 < n <= t.len() {
            seq![t.take(n)] + words(t.skip(n))
        } else {
            seq![]
        }
    } else {
        seq![]
    }
}

/// The line without the carriage return at its end, if it has one.
pub open spec fn without_cr(s: Seq<char>) -> Seq<char> {
    if s.len() > 0 && s.last() == '\r' {
        s.drop_last()
    } else {
        s
    }
}

/// The line without all carriage returns at its end.
pub open spec fn without_crs(s: Seq<char>) -> Seq<char>
    decreases s.len(),
{
    if s.len() > 0 && s.last() == '\r' {
        without_crs(s.drop_last())
    } else {
        s
    }
}

/// The lines of `s`. A line ends with a line feed, or a carriage return and a
/// line feed; the last one may go without.
pub open spec fn lines(s: Seq<char>) -> Seq<Seq<char>>
    decreases s.len(),
{
    let i = find(s, '\n') as int;
    if s.len() == 0 {
        seq![]
    } else if i < s.len() {
        seq![without_cr(s.take(i))] + lines(s.skip(i + 1))
    } else {
        seq![s]
    }
}

/// `s` without white space at both ends.
pub open spec fn trimmed(s: Seq<char>) -> Seq<char> {
    trimmed_end(s.skip(prefix_len(s, space()) as int))
}

/// `s` without white space at its end.
pub open spec fn trimmed_end(s: Seq<char>) -> Seq<char>
    decreases s.len(),
{
    if s.len() > 0 && is_space(s.last()) {
        trimmed_end(s.drop_last())
    } else {
        s
    }
}

/// `s` without the prefix `p`.
pub fn strip<'a>(s: &'a [char], p: &str) -> (r: Option<&'a [char]>)
    ensures
        match stripped(s@, p@) {
            Some(rest) => r matches Some(t) && t@ == rest,
            None => r is None,
        },
{
    let v: Vec<char> = chars_of(p);
    if s.len() < v.len() {
        return None;
    }
    if same_chars(slice_subrange(s, 0, v.len()), v.as_slice()) {
        assert(s@.subrange(0, p@.len() as int) =~= s@.take(p@.len() as int));
        assert(s@.subrange(p@.len() as int, s@.len() as int) =~= s@.skip(p@.len() as int));
        Some(slice_subrange(s, v.len(), s.len()))
    } else {
        assert(s@.subrange(0, p@.len() as int) =~= s@.take(p@.len() as int));
        None
    }
}

/// Whether `s` starts with `p`.
pub fn starts_with(s: &[char], p: &str) -> (r: bool)
    ensures
        r == starts(s@, p@),
{
    strip(s, p).is_some()
}

/// Before and after the first `c`.
pub fn split_once<'a>(s: &'a [char], c: char) -> (r: Option<(&'a [char], &'a [char])>)
    ensures
        match parted(s@, c) {
            Some((a, b)) => r matches Some((x, y)) && x@ == a && y@ == b,
            None => r is None,
        },
{
    let i: usize = find_from(s, 0, c);
    assert(s@.skip(0) =~= s@);
    if i < s.len() {
        assert(s@.subrange(0, i as int) =~= s@.take(i as int));
        assert(s@.subrange(i + 1, s@.len() as int) =~= s@.skip(i + 1));
        Some((slice_subrange(s, 0, i), slice_subrange(s, i + 1, s.len())))
    } else {
        None
    }
}

/// Piece number `n` of `s` between the occurrences of `c`.
pub fn piece<'a>(s: &'a [char], c: char, n: usize) -> (r: Option<&'a [char]>)
    ensures
        n < pieces(s@, c).len() ==> (r matches Some(t) && t@ == pieces(s@, c)[n as int]),
        n >= pieces(s@, c).len() ==> r is None,
{
    let mut at: usize = 0;
    let mut k: usize = 0;
    assert(s@.skip(0) =~= s@);
    loop
        invariant
            at <= s@.len(),
            k <= n,
            pieces(s@, c).len() == k + pieces(s@.skip(at as int), c).len(),
            forall|j: int|
                0 <= j < pieces(s@.skip(at as int), c).len() ==> pieces(s@, c)[k + j]
                    == #[trigger] pieces(s@.skip(at as int), c)[j],
        decreases n - k,
    {
        let end: usize = find_from(s, at, c);
        let ghost rest = s@.skip(at as int);
        let ghost i = find(rest, c) as int;
        if k == n {
            proof {
                assert(s@.subrange(at as int, end as int) =~= rest.take(i));
                if i == rest.len() {
                    assert(rest.take(i) =~= rest);
                }
                assert(pieces(rest, c)[0] == rest.take(i));
            }
            return Some(slice_subrange(s, at, end));
        }
        if end == s.len() {
            return None;
        }
        proof {
            assert(rest.skip(i + 1) =~= s@.skip(end + 1));
            let tail = pieces(s@.skip(end + 1), c);
            assert forall|j: int| 0 <= j < tail.len() implies pieces(s@, c)[k + 1 + j]
                == #[trigger] tail[j] by {
                assert(pieces(rest, c)[j + 1] == tail[j]);
            }
        }
        at = end + 1;
        k = k + 1;
    }
}

/// Word number `n` of `s`.
pub fn word<'a>(s: &'a [char], n: usize) -> (r: Option<&'a [char]>)
    ensures
        n < words(s@).len() ==> (r matches Some(t) && t@ == words(s@)[n as int]),
        n >= words(s@).len() ==> r is None,
{
    let mut at: usize = 0;
    let mut k: usize = 0;
    assert(s@.skip(0) =~= s@);
    loop
        invariant
            at <= s@.len(),
            k <= n,
            words(s@).len() == k + words(s@.skip(at as int)).len(),
            forall|j: int|
                0 <= j < words(s@.skip(at as int)).len() ==> words(s@)[k + j]
                    == #[trigger] words(s@.skip(at as int))[j],
        decreases n - k,
    {
        let ghost rest = s@.skip(at as int);
        let mut start: usize = at;
        while start < s.len() && whitespace(s[start])
            invariant
                at <= start <= s@.len(),
                forall|j: int| at <= j < start ==> is_space(s@[j]),
            decreases s@.len() - start,
        {
            start = start + 1;
        }
        proof {
            lemma_prefix_len(rest, space(), start - at);
        }
        if start == s.len() {
            return None;
        }
        let mut end: usize = start;
        while end < s.len() && !whitespace(s[end])
            invariant
                start <= end <= s@.len(),
                forall|j: int| start <= j < end ==> !is_space(s@[j]),
            decreases s@.len() - end,
        {
            end = end + 1;
        }
        let ghost t = rest.skip(start - at);
        proof {
            assert(t =~= s@.skip(start as int));
            lemma_prefix_len(t, nonspace(), end - start);
            assert(end > start) by {
                assert(!is_space(s@[start as int]));
            }
            assert(t.skip(end - start) =~= s@.skip(end as int));
            assert(t.take(end - start) =~= s@.subrange(start as int, end as int));
            assert(words(rest) == seq![t.take(end - start)] + words(t.skip(end - start)));
        }
        if k == n {
            assert(words(rest)[0] == t.take(end - start));
            return Some(slice_subrange(s, start, end));
        }
        proof {
            let tail = words(s@.skip(end as int));
            assert forall|j: int| 0 <= j < tail.len() implies words(s@)[k + 1 + j]
                == #[trigger] tail[j] by {
                assert(words(rest)[j + 1] == tail[j]);
            }
        }
        at = end;
        k = k + 1;
    }
}

/// The line that starts at `from`, and where the next one starts.
pub fn line_at<'a>(s: &'a [char], from: usize) -> (r: (&'a [char], usize))
    requires
        from < s@.len(),
    ensures
        from < r.1 <= s@.len(),
        lines(s@.skip(from as int)) == seq![r.0@] + lines(s@.skip(r.1 as int)),
{
    let end: usize = find_from(s, from, '\n');
    let ghost rest = s@.skip(from as int);
    if end == s.len() {
        proof {
            assert(s@.subrange(from as int, end as int) =~= rest);
            assert(s@.skip(end as int) =~= Seq::<char>::empty());
            assert(lines(rest) =~= seq![rest] + lines(s@.skip(end as int)));
        }
        return (slice_subrange(s, from, end), end);
    }
    proof {
        assert(rest.skip(end - from + 1) =~= s@.skip(end + 1));
        assert(rest.take(end - from) =~= s@.subrange(from as int, end as int));
    }
    if end > from && s[end - 1] == '\r' {
        assert(rest.take(end - from).drop_last() =~= s@.subrange(from as int, end - 1));
        (slice_subrange(s, from, end - 1), end + 1)
    } else {
        (slice_subrange(s, from, end), end + 1)
    }
}

/// The slice without carriage returns at its end.
pub fn drop_crs<'a>(s: &'a [char]) -> (r: &'a [char])
    ensures
        r@ == without_crs(s@),
{
    let mut end: usize = s.len();
    assert(s@.take(end as int) =~= s@);
    while end > 0 && s[end - 1] == '\r'
        invariant
            end <= s@.len(),
            without_crs(s@.take(end as int)) == without_crs(s@),
        decreases end,
    {
        assert(s@.take(end as int).drop_last() =~= s@.take(end - 1));
        end = end - 1;
    }
    assert(s@.subrange(0, end as int) =~= s@.take(end as int));
    slice_subrange(s, 0, end)
}

/// The slice without white space at both ends.
pub fn trim<'a>(s: &'a [char]) -> (r: &'a [char])
    ensures
        r@ == trimmed(s@),
{
    let mut start: usize = 0;
    while start < s.len() && whitespace(s[start])
        invariant
            start <= s@.len(),
            forall|j: int| 0 <= j < start ==> is_space(s@[j]),
        decreases s@.len() - start,
    {
        start = start + 1;
    }
    proof {
        lemma_prefix_len(s@, space(), start as int);
    }
    let ghost t = s@.skip(start as int);
    let mut end: usize = s.len();
    assert(t.take(end - start) =~= t);
    while end > start && whitespace(s[end - 1])
        invariant
            start <= end <= s@.len(),
            t == s@.skip(start as int),
            trimmed_end(t.take(end - start)) == trimmed_end(t),
        decreases end,
    {
        assert(t.take(end - start).drop_last() =~= t.take(end - start - 1));
        end = end - 1;
    }
    assert(s@.subrange(start as int, end as int) =~= t.take(end - start));
    slice_subrange(s, start, end)
}

/// The lines one behind another, each ended by a carriage return and a line feed.
pub open spec fn joined(lines: Seq<Seq<char>>) -> Seq<char>
    decreases lines.len(),
{
    if lines.len() == 0 {
        Seq::empty()
    } else {
        joined(lines.drop_last()) + lines.last() + "\r\n"@
    }
}

/// One line more.
pub proof fn lemma_joined_push(lines: Seq<Seq<char>>, line: Seq<char>)
    ensures
        joined(lines.push(line)) == joined(lines) + line + "\r\n"@,
{
    assert(lines.push(line).drop_last() =~= lines);
}

/// Appends a line to the text of the lines before it.
pub fn push_line(out: &mut String, line: &str, Ghost(before): Ghost<Seq<Seq<char>>>)
    requires
        old(out)@ == joined(before),
    ensures
        final(out)@ == joined(before.push(line@)),
{
    push_text(out, line);
    push_text(out, "\r\n");
    proof {
        lemma_joined_push(before, line@);
    }
}

/// Two texts one behind the other.
pub fn cat(a: &str, b: &str) -> (s: String)
    ensures
        s@ == a@ + b@,
{
    let mut s: String = text(a);
    push_text(&mut s, b);
    s
}

// ---------------------------------------------------------------------------
// Letters
// ---------------------------------------------------------------------------
/// The small form of an ASCII letter.
pub open spec fn small(c: char) -> char {
    if 'A' <= c <= 'Z' {
        (c as u32 + 32) as char
    } else {
        c
    }
}

/// The text with its ASCII letters in small form.
pub open spec fn lower(s: Seq<char>) -> Seq<char> {
    s.map_values(|c: char| small(c))
}

/// The characters with ASCII letters in small form.
pub fn to_lower(s: &[char]) -> (v: Vec<char>)
    ensures
        v@ == lower(s@),
{
    let mut v: Vec<char> = Vec::new();
    let mut i: usize = 0;
    while i < s.len()
        invariant
            i <= s@.len(),
            v@ == lower(s@).take(i as int),
        decreases s@.len() - i,
    {
        let c: char = s[i];
        let l: char = if 'A' <= c && c <= 'Z' {
            (c as u8 + 32) as char
        } else {
            c
        };
        v.push(l);
        i = i + 1;
        assert(v@ =~= lower(s@).take(i as int));
    }
    assert(v@ =~= lower(s@));
    v
}

// ---------------------------------------------------------------------------
// Numbers
// ---------------------------------------------------------------------------
/// Whether `c` is one of the ten decimal digits.
pub open spec fn is_digit(c: char) -> bool {
    '0' <= c <= '9'
}

/// The value of a digit.
pub open spec fn digit_value(c: char) -> nat {
    (c as int - '0' as int) as nat
}

/// The digit for a value below ten.
pub open spec fn digit(n: nat) -> char {
    (n + 48) as char
}

/// Whether `s` holds digits only.
pub open spec fn all_digits(s: Seq<char>) -> bool {
    forall|i: int| 0 <= i < s.len() ==> is_digit(#[trigger] s[i])
}

/// The number that the digits of `s` write.
pub open spec fn digits_value(s: Seq<char>) -> nat
    decreases s.len(),
{
    if s.len() == 0 {
        0
    } else {
        digits_value(s.drop_last()) * 10 + digit_value(s.last())
    }
}

/// The number that `s` writes, where it is one of at most `max`: digits, with a
/// plus sign in front or without.
pub open spec fn unsigned(s: Seq<char>, max: nat) -> Option<nat> {
    let d = if s.len() > 0 && s[0] == '+' {
        s.skip(1)
    } else {
        s
    };
    if d.len() > 0 && all_digits(d) && digits_value(d) <= max {
        Some(digits_value(d))
    } else {
        None
    }
}

/// The decimal digits of `n`, without leading zeros.
pub open spec fn decimal(n: nat) -> Seq<char>
    decreases n,
{
    if n < 10 {
        seq![digit(n)]
    } else {
        decimal(n / 10).push(digit(n % 10))
    }
}

/// The value of a longer number is no smaller.
proof fn lemma_digits_value_grows(s: Seq<char>, k: int)
    requires
        0 <= k <= s.len(),
    ensures
        digits_value(s.take(k)) <= digits_value(s),
    decreases s.len() - k,
{
    if k < s.len() {
        assert(s.take(k + 1).drop_last() =~= s.take(k));
        lemma_digits_value_grows(s, k + 1);
    } else {
        assert(s.take(k) =~= s);
    }
}

/// Reads an unsigned number of at most `max`.
pub fn parse_unsigned(s: &[char], max: u64) -> (r: Option<u64>)
    ensures
        match unsigned(s@, max as nat) {
            Some(v) => r matches Some(n) && n == v,
            None => r is None,
        },
{
    let start: usize = if s.len() > 0 && s[0] == '+' {
        1
    } else {
        0
    };
    let ghost d = s@.skip(start as int);
    assert(start == 0 ==> d =~= s@);
    if start == s.len() {
        return None;
    }
    let mut v: u64 = 0;
    let mut i: usize = start;
    assert(d.take(0) =~= Seq::<char>::empty());
    while i < s.len()
        invariant
            start <= i <= s@.len(),
            d == s@.skip(start as int),
            unsigned(s@, max as nat) == (if d.len() > 0 && all_digits(d) && digits_value(d) <= max {
                Some(digits_value(d))
            } else {
                None
            }),
            forall|k: int| 0 <= k < i - start ==> is_digit(#[trigger] d[k]),
            v == digits_value(d.take(i - start)),
            v <= max,
        decreases s@.len() - i,
    {
        let c: char = s[i];
        assert(c == d[i - start]);
        if c < '0' || '9' < c {
            return None;
        }
        let x: u64 = (c as u32 - '0' as u32) as u64;
        proof {
            assert(d.take(i - start + 1).drop_last() =~= d.take(i - start));
            lemma_digits_value_grows(d, i - start + 1);
        }
        if v > max / 10 {
            assert(v * 10 + x > max);
            return None;
        }
        if x > max || v * 10 > max - x {
            return None;
        }
        v = v * 10 + x;
        i = i + 1;
    }
    assert(d.take(i - start) =~= d);
    Some(v)
}

/// Appends the decimal digits of `n`.
pub fn push_decimal(out: &mut String, n: u64)
    ensures
        final(out)@ == old(out)@ + decimal(n as nat),
    decreases n,
{
    if n >= 10 {
        push_decimal(out, n / 10);
    }
    let ghost before = out@;
    let d: u8 = (n % 10) as u8;
    out.push((d + 48) as char);
    proof {
        if n >= 10 {
            assert(out@ =~= old(out)@ + decimal(n as nat));
        } else {
            assert(out@ =~= old(out)@ + decimal(n as nat));
        }
    }
}

/// The decimal digits of `n` as a string.
pub fn decimal_text(n: u64) -> (s: String)
    ensures
        s@ == decimal(n as nat),
{
    let mut s: String = String::new();
    push_decimal(&mut s, n);
    assert(s@ =~= decimal(n as nat));
    s
}

/// The digits that write a number are digits, and read back as it.
pub proof fn lemma_decimal(n: nat)
    ensures
        decimal(n).len() > 0,
        all_digits(decimal(n)),
        digits_value(decimal(n)) == n,
    decreases n,
{
    reveal_with_fuel(digits_value, 2);
    if n >= 10 {
        lemma_decimal(n / 10);
        let d = decimal(n);
        assert(d.drop_last() =~= decimal(n / 10));
        assert forall|i: int| 0 <= i < d.len() implies is_digit(#[trigger] d[i]) by {
            if i < d.len() - 1 {
                assert(d[i] == decimal(n / 10)[i]);
            }
        }
    } else {
        assert(decimal(n).drop_last() =~= Seq::<char>::empty());
    }
}

/// A number that was written is read back as it was.
pub proof fn decimal_reads_back(n: nat, max: nat)
    requires
        n <= max,
    ensures
        unsigned(decimal(n), max) == Some(n),
{
    lemma_decimal(n);
    assert(is_digit(decimal(n)[0]));
}

} // verus!
