//! Bytes as text.

use vstd::prelude::*;
use vstd::utf8::{decode_utf8, encode_utf8, is_ascii_chars, valid_utf8};

verus! {

/// `core::str::from_utf8`: the text whose UTF-8 form the bytes are. There is one
/// if and only if the bytes are valid UTF-8.
#[verifier::external_body]
pub(crate) fn checked<'a>(b: &'a [u8]) -> (r: Option<&'a str>)
    ensures
        r is Some <==> valid_utf8(b@),
        r matches Some(s) ==> encode_utf8(s@) == b@,
{
    core::str::from_utf8(b).ok()
}

/// What `String::from_utf8_lossy` makes of bytes: each part that is no valid
/// UTF-8 is replaced by the replacement character.
pub uninterp spec fn lossy_text(b: Seq<u8>) -> Seq<char>;

/// Whether the bytes are the text `t` and behind it a character that was cut
/// off: some of its bytes, but not all.
pub open spec fn cut_behind(b: Seq<u8>, t: Seq<char>) -> bool {
    exists|c: char, m: int|
        0 < m < encode_utf8(seq![c]).len() && b == encode_utf8(t) + #[trigger] encode_utf8(
            seq![c],
        ).take(m)
}

/// Whether `s` is `t` with nothing but replacement characters behind it.
pub open spec fn replaced_behind(s: Seq<char>, t: Seq<char>) -> bool {
    &&& t.len() <= s.len()
    &&& s.take(t.len() as int) == t
    &&& forall|i: int| t.len() <= i < s.len() ==> #[trigger] s[i] == '\u{FFFD}'
}

/// What is known of the text `s` that bytes are read as: valid UTF-8 is taken as
/// it is, and a character cut off at the end leaves nothing but replacements.
pub open spec fn reads_as(b: Seq<u8>, s: Seq<char>) -> bool {
    &&& valid_utf8(b) ==> encode_utf8(s) == b
    &&& forall|t: Seq<char>| #[trigger] cut_behind(b, t) ==> replaced_behind(s, t)
}

/// `String::from_utf8_lossy`: the text of the bytes, in which parts that are no
/// valid UTF-8 are replaced by U+FFFD. Valid UTF-8 is taken as it is; of valid
/// UTF-8 with a character cut off behind it, the valid part is taken as it is and
/// the rest replaced. What becomes of other bytes is not said.
#[verifier::external_body]
pub(crate) fn lossy(b: &[u8]) -> (s: String)
    ensures
        s@ == lossy_text(b@),
        reads_as(b@, s@),
{
    String::from_utf8_lossy(b).into_owned()
}

/// What `str::to_lowercase` makes of a text: the lowercase equivalent by the
/// `Lowercase` property of Unicode.
pub uninterp spec fn lowercase_text(s: Seq<char>) -> Seq<char>;

/// `str::to_lowercase`: the lowercase equivalent of the text. On ASCII it is the
/// text with its capital letters made small.
#[verifier::external_body]
pub(crate) fn lowercase(s: &str) -> (r: String)
    ensures
        r@ == lowercase_text(s@),
        is_ascii_chars(s@) ==> r@ == crate::text::lower(s@),
{
    s.to_lowercase()
}

/// The text that a checked conversion gives.
pub open spec fn checked_text(b: Seq<u8>) -> Option<Seq<char>> {
    if valid_utf8(b) {
        Some(decode_utf8(b))
    } else {
        None
    }
}

/// The UTF-8 form of two texts one behind the other.
pub proof fn lemma_encode_concat(s: Seq<char>, t: Seq<char>)
    ensures
        encode_utf8(s + t) == encode_utf8(s) + encode_utf8(t),
    decreases s.len(),
{
    if s.len() == 0 {
        assert(s + t =~= t);
        assert(encode_utf8(s) =~= Seq::empty());
        assert(encode_utf8(s) + encode_utf8(t) =~= encode_utf8(t));
    } else {
        lemma_encode_concat(s.drop_first(), t);
        assert((s + t).drop_first() =~= s.drop_first() + t);
        assert(encode_utf8(s + t) =~= encode_utf8(s) + encode_utf8(t));
    }
}

/// Where the UTF-8 form of a text is cut: behind whole characters, `c` of them,
/// and `m` bytes of the next.
pub proof fn lemma_cut(s: Seq<char>, k: int) -> (at: (int, int))
    requires
        0 <= k < encode_utf8(s).len(),
    ensures
        0 <= at.0 < s.len(),
        0 <= at.1 < encode_utf8(seq![s[at.0]]).len(),
        encode_utf8(s).take(k) == encode_utf8(s.take(at.0)) + encode_utf8(seq![s[at.0]]).take(at.1),
    decreases s.len(),
{
    let first = seq![s[0]];
    let rest = s.drop_first();
    assert(first + rest =~= s);
    lemma_encode_concat(first, rest);
    let n = encode_utf8(first).len();
    if k < n {
        assert(s.take(0) =~= Seq::<char>::empty());
        assert(encode_utf8(s.take(0)) =~= Seq::<u8>::empty());
        assert(encode_utf8(s).take(k) =~= encode_utf8(s.take(0)) + encode_utf8(first).take(k));
        (0, k)
    } else {
        let at = lemma_cut(rest, k - n);
        assert(s.take(at.0 + 1) =~= first + rest.take(at.0));
        lemma_encode_concat(first, rest.take(at.0));
        assert(encode_utf8(s).take(k) =~= encode_utf8(first) + encode_utf8(rest).take(k - n));
        assert(encode_utf8(s).take(k) =~= encode_utf8(s.take(at.0 + 1)) + encode_utf8(
            seq![rest[at.0]],
        ).take(at.1));
        (at.0 + 1, at.1)
    }
}

} // verus!
