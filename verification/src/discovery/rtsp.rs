//! As much RTSP (RFC 2326) as RAVENNA needs: a client that fetches a
//! description by `DESCRIBE`, and a server that answers `OPTIONS` and
//! `DESCRIBE`.

pub mod laws;

use crate::bytes;
use crate::text;
use crate::utf8;
use vstd::prelude::*;
use vstd::slice::slice_subrange;
use vstd::utf8::{decode_utf8, encode_utf8, valid_utf8};

verus! {

/// Most bytes of an answer that are read before the reader gives up.
pub const ANSWER_LIMIT: usize = 65536;

// ---------------------------------------------------------------------------
// Header fields
// ---------------------------------------------------------------------------
/// The value of the first line that starts with `name`, in small letters; `name`
/// is written in small letters and ends with a colon.
pub open spec fn field(lines: Seq<Seq<char>>, name: Seq<char>) -> Option<Seq<char>>
    decreases lines.len(),
{
    if lines.len() == 0 {
        None
    } else {
        match text::stripped(text::lower(lines[0]), name) {
            Some(v) => Some(text::trimmed(v)),
            None => field(lines.drop_first(), name),
        }
    }
}

/// The value of the first line that starts with `name`.
fn find_field(s: &[char], name: &str) -> (r: Option<Vec<char>>)
    ensures
        match field(text::lines(s@), name@) {
            Some(v) => r matches Some(got) && got@ == v,
            None => r is None,
        },
{
    let mut at: usize = 0;
    assert(s@.skip(0) =~= s@);
    while at < s.len()
        invariant
            at <= s@.len(),
            field(text::lines(s@), name@) == field(text::lines(s@.skip(at as int)), name@),
        decreases s@.len() - at,
    {
        let (line, next): (&[char], usize) = text::line_at(s, at);
        proof {
            let ls = text::lines(s@.skip(at as int));
            assert(ls.drop_first() =~= text::lines(s@.skip(next as int)));
            assert(ls[0] == line@);
        }
        let small: Vec<char> = text::to_lower(line);
        match text::strip(small.as_slice(), name) {
            Some(v) => {
                let t: &[char] = text::trim(v);
                return Some(vstd::slice::slice_to_vec(t));
            },
            None => {},
        }
        at = next;
    }
    assert(s@.skip(at as int) =~= Seq::<char>::empty());
    None
}

// ---------------------------------------------------------------------------
// Server
// ---------------------------------------------------------------------------
/// The first word of the first line.
pub open spec fn method(request: Seq<char>) -> Seq<char> {
    let ls = text::lines(request);
    if ls.len() > 0 && text::words(ls[0]).len() > 0 {
        text::words(ls[0])[0]
    } else {
        Seq::empty()
    }
}

/// The sequence number of a request, `0` where it has none.
pub open spec fn cseq(request: Seq<char>) -> Seq<char> {
    match field(text::lines(request), "cseq:"@) {
        Some(v) => v,
        None => "0"@,
    }
}

/// The header lines of the answer that carries a description.
pub open spec fn describe_head(seq: Seq<char>, sdp: Seq<char>) -> Seq<Seq<char>> {
    seq![
        "RTSP/1.0 200 OK"@,
        "CSeq: "@ + seq,
        "Content-Type: application/sdp"@,
        "Content-Length: "@ + text::decimal(encode_utf8(sdp).len()),
    ]
}

/// The answer to a request, for a server with this description.
pub open spec fn answer(request: Seq<char>, sdp: Seq<char>) -> Seq<char> {
    let seq = cseq(request);
    if method(request) == "OPTIONS"@ {
        text::joined(
            seq!["RTSP/1.0 200 OK"@, "CSeq: "@ + seq, "Public: OPTIONS, DESCRIBE"@],
        ) + "\r\n"@
    } else if method(request) == "DESCRIBE"@ {
        text::joined(describe_head(seq, sdp)) + "\r\n"@ + sdp
    } else {
        text::joined(seq!["RTSP/1.0 501 Not Implemented"@, "CSeq: "@ + seq]) + "\r\n"@
    }
}

/// The method of a request.
fn read_method(request: &[char]) -> (m: Vec<char>)
    ensures
        m@ == method(request@),
{
    assert(request@.skip(0) =~= request@);
    if request.len() > 0 {
        let (line, next): (&[char], usize) = text::line_at(request, 0);
        assert(text::lines(request@)[0] == line@);
        match text::word(line, 0) {
            Some(w) => {
                return vstd::slice::slice_to_vec(w);
            },
            None => {},
        }
    }
    Vec::new()
}

/// Answers a request: `OPTIONS` with the list of methods, `DESCRIBE` with the
/// description, everything else with 501.
pub fn handle_request(request: &str, sdp: &str) -> (r: String)
    ensures
        r@ == answer(request@, sdp@),
{
    let v: Vec<char> = text::chars_of(request);
    let seq: String = match find_field(v.as_slice(), "cseq:") {
        Some(s) => text::string_of(s.as_slice()),
        None => text::text("0"),
    };
    let cseq_line: String = text::cat("CSeq: ", seq.as_str());
    let name: Vec<char> = read_method(v.as_slice());
    let mut out: String = String::new();
    let ghost mut done = Seq::<Seq<char>>::empty();
    if text::is_text(name.as_slice(), "OPTIONS") {
        text::push_line(&mut out, "RTSP/1.0 200 OK", Ghost(done));
        proof {
            done = done.push("RTSP/1.0 200 OK"@);
        }
        text::push_line(&mut out, cseq_line.as_str(), Ghost(done));
        proof {
            done = done.push(cseq_line@);
        }
        text::push_line(&mut out, "Public: OPTIONS, DESCRIBE", Ghost(done));
        proof {
            done = done.push("Public: OPTIONS, DESCRIBE"@);
        }
        text::push_text(&mut out, "\r\n");
        assert(done =~= seq![
            "RTSP/1.0 200 OK"@,
            "CSeq: "@ + seq@,
            "Public: OPTIONS, DESCRIBE"@,
        ]);
    } else if text::is_text(name.as_slice(), "DESCRIBE") {
        let mut length: String = text::text("Content-Length: ");
        text::push_decimal(&mut length, sdp.as_bytes().len() as u64);
        text::push_line(&mut out, "RTSP/1.0 200 OK", Ghost(done));
        proof {
            done = done.push("RTSP/1.0 200 OK"@);
        }
        text::push_line(&mut out, cseq_line.as_str(), Ghost(done));
        proof {
            done = done.push(cseq_line@);
        }
        text::push_line(&mut out, "Content-Type: application/sdp", Ghost(done));
        proof {
            done = done.push("Content-Type: application/sdp"@);
        }
        text::push_line(&mut out, length.as_str(), Ghost(done));
        proof {
            done = done.push(length@);
        }
        text::push_text(&mut out, "\r\n");
        text::push_text(&mut out, sdp);
        assert(done =~= describe_head(seq@, sdp@));
    } else {
        text::push_line(&mut out, "RTSP/1.0 501 Not Implemented", Ghost(done));
        proof {
            done = done.push("RTSP/1.0 501 Not Implemented"@);
        }
        text::push_line(&mut out, cseq_line.as_str(), Ghost(done));
        proof {
            done = done.push(cseq_line@);
        }
        text::push_text(&mut out, "\r\n");
        assert(done =~= seq!["RTSP/1.0 501 Not Implemented"@, "CSeq: "@ + seq@]);
    }
    out
}

// ---------------------------------------------------------------------------
// Client
// ---------------------------------------------------------------------------
/// The request for the description of a session.
pub open spec fn describe_text(host: Seq<char>, port: u16, path: Seq<char>) -> Seq<char> {
    "DESCRIBE rtsp://"@ + host + ":"@ + text::decimal(port as nat) + path
        + " RTSP/1.0\r\nCSeq: 1\r\nAccept: application/sdp\r\nUser-Agent: Taktwerk\r\n\r\n"@
}

/// The request for the description of a session.
pub fn describe_request(host: &str, port: u16, path: &str) -> (s: String)
    ensures
        s@ == describe_text(host@, port, path@),
{
    let mut s: String = text::cat("DESCRIBE rtsp://", host);
    text::push_text(&mut s, ":");
    text::push_decimal(&mut s, port as u64);
    text::push_text(&mut s, path);
    text::push_text(
        &mut s,
        " RTSP/1.0\r\nCSeq: 1\r\nAccept: application/sdp\r\nUser-Agent: Taktwerk\r\n\r\n",
    );
    s
}

/// Whether an empty line starts at `i`: the end of the line before it, and its
/// own.
pub open spec fn gap_at(s: Seq<char>, i: int) -> bool {
    &&& 0 <= i
    &&& i + 4 <= s.len()
    &&& s[i] == '\r'
    &&& s[i + 1] == '\n'
    &&& s[i + 2] == '\r'
    &&& s[i + 3] == '\n'
}

/// Where the header ends: the first empty line.
pub open spec fn head_end(s: Seq<char>) -> Option<int>
    decreases s.len(),
{
    if s.len() == 0 {
        None
    } else if gap_at(s, 0) {
        Some(0)
    } else {
        match head_end(s.drop_first()) {
            Some(i) => Some(i + 1),
            None => None,
        }
    }
}

/// What the end of the header means.
proof fn lemma_head_end(s: Seq<char>, n: int)
    requires
        0 <= n <= s.len(),
        forall|i: int| 0 <= i < n ==> !#[trigger] gap_at(s, i),
        n < s.len() ==> gap_at(s, n),
    ensures
        head_end(s) == (if n < s.len() {
            Some(n)
        } else {
            None::<int>
        }),
    decreases s.len(),
{
    if s.len() > 0 {
        assert(gap_at(s, 0) == (n == 0));
        if n > 0 {
            let t = s.drop_first();
            assert forall|i: int| 0 <= i < n - 1 implies !#[trigger] gap_at(t, i) by {
                assert(!gap_at(s, i + 1));
            }
            if n < s.len() {
                assert(gap_at(t, n - 1));
            }
            lemma_head_end(t, n - 1);
        }
    }
}

/// Where the header ends.
fn find_head_end(s: &[char]) -> (r: Option<usize>)
    ensures
        match head_end(s@) {
            Some(i) => r matches Some(n) && n == i && gap_at(s@, i) && n + 4 <= s.len(),
            None => r is None,
        },
{
    let mut i: usize = 0;
    while i < s.len()
        invariant
            i <= s@.len(),
            forall|j: int| 0 <= j < i ==> !#[trigger] gap_at(s@, j),
        decreases s@.len() - i,
    {
        if s.len() - i >= 4 && s[i] == '\r' && s[i + 1] == '\n' && s[i + 2] == '\r' && s[i + 3]
            == '\n' {
            proof {
                lemma_head_end(s@, i as int);
            }
            return Some(i);
        }
        i = i + 1;
    }
    proof {
        lemma_head_end(s@, i as int);
    }
    None
}

/// The length of the body that the header states.
pub open spec fn stated_length(head: Seq<char>) -> Option<nat> {
    match field(text::lines(head), "content-length:"@) {
        Some(v) => text::unsigned(v, usize::MAX as nat),
        None => None,
    }
}

/// The body of an answer, once as many bytes as its header states have been
/// received behind the header: `received` is the number of bytes received in
/// all. A length that ends within a character gives none.
pub open spec fn body(answer: Seq<char>, received: nat) -> Option<Seq<char>> {
    match head_end(answer) {
        None => None,
        Some(end) => match stated_length(answer.take(end)) {
            None => None,
            Some(n) => {
                let before = encode_utf8(answer.take(end + 4)).len();
                let rest = encode_utf8(answer.skip(end + 4));
                if before + n <= received && n <= rest.len() {
                    utf8::checked_text(rest.take(n as int))
                } else {
                    None
                }
            },
        },
    }
}

/// Everything behind the header of an answer.
pub open spec fn rest_of(answer: Seq<char>) -> Option<Seq<char>> {
    match head_end(answer) {
        Some(end) => Some(answer.skip(end + 4)),
        None => None,
    }
}

/// The body of the answer `answer`, of which `received` bytes have come.
pub fn body_in(answer: &str, received: usize) -> (r: Option<String>)
    ensures
        text::optional(r) == body(answer@, received as nat),
{
    let v: Vec<char> = text::chars_of(answer);
    let end: usize = match find_head_end(v.as_slice()) {
        Some(i) => i,
        None => {
            return None;
        },
    };
    let head: &[char] = slice_subrange(v.as_slice(), 0, end);
    assert(head@ =~= answer@.take(end as int));
    let length: u64 = match find_field(head, "content-length:") {
        Some(t) => match text::parse_unsigned(t.as_slice(), usize::MAX as u64) {
            Some(n) => n,
            None => {
                return None;
            },
        },
        None => {
            return None;
        },
    };
    let n: usize = length as usize;
    let rest: String = text::string_of(slice_subrange(v.as_slice(), end + 4, v.len()));
    let rest_bytes: &[u8] = rest.as_str().as_bytes();
    let all: usize = answer.as_bytes().len();
    proof {
        assert(rest@ =~= answer@.skip(end + 4));
        assert(answer@ =~= answer@.take(end + 4) + answer@.skip(end + 4));
        utf8::lemma_encode_concat(answer@.take(end + 4), answer@.skip(end + 4));
    }
    let before: usize = all - rest_bytes.len();
    if received < before || received - before < n || rest_bytes.len() < n {
        return None;
    }
    let part: &[u8] = slice_subrange(rest_bytes, 0, n);
    assert(part@ =~= encode_utf8(answer@.skip(end + 4)).take(n as int));
    match utf8::checked(part) {
        Some(t) => {
            proof {
                vstd::utf8::encode_utf8_decode_utf8(t@);
            }
            Some(text::text(t))
        },
        None => None,
    }
}

/// Whether the bytes are the front of an answer with a description, of which at
/// least the last byte is missing.
pub open spec fn cut_answer(b: Seq<u8>) -> bool {
    exists|request: Seq<char>, sdp: Seq<char>|
        {
            let all = encode_utf8(#[trigger] answer(request, sdp));
            &&& method(request) == "DESCRIBE"@
            &&& encode_utf8(sdp).len() <= usize::MAX
            &&& b.len() < all.len()
            &&& b == all.take(b.len() as int)
        }
}

/// The body of an answer, once all of it has been received.
pub fn extract_body(buf: &[u8]) -> (r: Option<String>)
    ensures
        text::optional(r) == body(utf8::lossy_text(buf@), buf@.len()),
        valid_utf8(buf@) ==> text::optional(r) == body(decode_utf8(buf@), buf@.len()),
        cut_answer(buf@) ==> r is None,
{
    let answer: String = utf8::lossy(buf);
    proof {
        if cut_answer(buf@) {
            lemma_cut_answer(buf@, answer@);
        }
        if valid_utf8(buf@) {
            vstd::utf8::encode_utf8_decode_utf8(answer@);
        }
    }
    body_in(answer.as_str(), buf.len())
}

/// Everything behind the header of the answer `answer`.
pub fn rest_in(answer: &str) -> (r: Option<String>)
    ensures
        text::optional(r) == rest_of(answer@),
{
    let v: Vec<char> = text::chars_of(answer);
    match find_head_end(v.as_slice()) {
        Some(end) => {
            assert(v@.subrange(end + 4, v@.len() as int) =~= answer@.skip(end + 4));
            Some(text::string_of(slice_subrange(v.as_slice(), end + 4, v.len())))
        },
        None => None,
    }
}

/// Everything behind the header of an answer that states no length.
pub fn extract_body_lenient(buf: &[u8]) -> (r: Option<String>)
    ensures
        text::optional(r) == rest_of(utf8::lossy_text(buf@)),
        valid_utf8(buf@) ==> text::optional(r) == rest_of(decode_utf8(buf@)),
{
    let answer: String = utf8::lossy(buf);
    proof {
        if valid_utf8(buf@) {
            vstd::utf8::encode_utf8_decode_utf8(answer@);
        }
    }
    rest_in(answer.as_str())
}

/// What the client does after bytes came in.
#[derive(Debug, PartialEq, Eq)]
pub enum ReadStep {
    /// The body is complete.
    Done(String),
    /// More has to be read.
    More,
    /// Too much has come without a complete body; reading ends.
    Enough,
}

/// Gathers the answer to a `DESCRIBE`.
#[derive(Debug)]
pub struct DescribeReader {
    buf: Vec<u8>,
}

impl DescribeReader {
    /// The bytes received so far.
    pub closed spec fn received(&self) -> Seq<u8> {
        self.buf@
    }

    pub fn new() -> (d: Self)
        ensures
            d.received() == Seq::<u8>::empty(),
    {
        DescribeReader { buf: Vec::new() }
    }

    /// What to do with all that was received, given the text of it.
    pub open spec fn step_is(step: ReadStep, answer: Seq<char>, len: nat) -> bool {
        match body(answer, len) {
            Some(b) => step matches ReadStep::Done(s) && s@ == b,
            None => step == (if len > ANSWER_LIMIT {
                ReadStep::Enough
            } else {
                ReadStep::More
            }),
        }
    }

    /// Takes in bytes that were read.
    pub fn feed(&mut self, chunk: &[u8]) -> (step: ReadStep)
        ensures
            final(self).received() == old(self).received() + chunk@,
            ({
                let all = final(self).received();
                &&& Self::step_is(step, utf8::lossy_text(all), all.len())
                &&& valid_utf8(all) ==> Self::step_is(step, decode_utf8(all), all.len())
            }),
            cut_answer(final(self).received()) ==> step !is Done,
    {
        bytes::push_bytes(&mut self.buf, chunk);
        match extract_body(self.buf.as_slice()) {
            Some(s) => ReadStep::Done(s),
            None => {
                if self.buf.len() > ANSWER_LIMIT {
                    ReadStep::Enough
                } else {
                    ReadStep::More
                }
            },
        }
    }

    /// The connection was closed, or enough was read: everything behind the
    /// header counts as the body.
    pub fn finish(&self) -> (r: Option<String>)
        ensures
            text::optional(r) == rest_of(utf8::lossy_text(self.received())),
            valid_utf8(self.received()) ==> text::optional(r) == rest_of(
                decode_utf8(self.received()),
            ),
    {
        extract_body_lenient(self.buf.as_slice())
    }
}

// ---------------------------------------------------------------------------
// What is served is read
// ---------------------------------------------------------------------------
/// No line holds a line feed.
proof fn lemma_lines_free(s: Seq<char>)
    ensures
        forall|i: int|
            0 <= i < text::lines(s).len() ==> text::laws::free_of(#[trigger] text::lines(s)[i], '\n'),
    decreases s.len(),
{
    let ls = text::lines(s);
    let n = text::find(s, '\n') as int;
    text::lemma_prefix_bound(s, text::other_than('\n'));
    if s.len() > 0 {
        let first = s.take(n);
        assert(text::laws::free_of(first, '\n')) by {
            assert forall|k: int| 0 <= k < first.len() implies #[trigger] first[k] != '\n' by {
                assert(text::other_than('\n')(s[k]));
            }
        }
        if n < s.len() {
            let rest = text::lines(s.skip(n + 1));
            lemma_lines_free(s.skip(n + 1));
            assert forall|i: int| 0 <= i < ls.len() implies text::laws::free_of(
                #[trigger] ls[i],
                '\n',
            ) by {
                if i > 0 {
                    assert(ls[i] == rest[i - 1]);
                }
            }
        } else {
            assert(first =~= s);
        }
    }
}

/// Trimming and cutting brings no line feed.
proof fn lemma_trimmed_free(s: Seq<char>)
    requires
        text::laws::free_of(s, '\n'),
    ensures
        text::laws::free_of(text::trimmed(s), '\n'),
{
    text::lemma_prefix_bound(s, text::space());
    let t = s.skip(text::prefix_len(s, text::space()) as int);
    assert(text::laws::free_of(t, '\n'));
    lemma_trimmed_end_free(t);
}

/// Trimming at the end brings no line feed.
proof fn lemma_trimmed_end_free(s: Seq<char>)
    requires
        text::laws::free_of(s, '\n'),
    ensures
        text::laws::free_of(text::trimmed_end(s), '\n'),
    decreases s.len(),
{
    if s.len() > 0 && text::is_space(s.last()) {
        lemma_trimmed_end_free(s.drop_last());
    }
}

/// The value of a field holds no line feed.
proof fn lemma_field_free(lines: Seq<Seq<char>>, name: Seq<char>)
    requires
        forall|i: int| 0 <= i < lines.len() ==> text::laws::free_of(#[trigger] lines[i], '\n'),
    ensures
        field(lines, name) matches Some(v) ==> text::laws::free_of(v, '\n'),
    decreases lines.len(),
{
    if lines.len() > 0 {
        let l = text::lower(lines[0]);
        assert(text::laws::free_of(lines[0], '\n'));
        assert(text::laws::free_of(l, '\n')) by {
            assert forall|k: int| 0 <= k < l.len() implies #[trigger] l[k] != '\n' by {
                assert(lines[0][k] != '\n');
            }
        }
        match text::stripped(l, name) {
            Some(v) => {
                lemma_trimmed_free(v);
            },
            None => {
                let rest = lines.drop_first();
                assert forall|i: int| 0 <= i < rest.len() implies text::laws::free_of(
                    #[trigger] rest[i],
                    '\n',
                ) by {
                    assert(rest[i] == lines[i + 1]);
                }
                lemma_field_free(rest, name);
            },
        }
    }
}

/// The end of the header lies behind a line that something else follows.
proof fn lemma_head_behind_line(line: Seq<char>, rest: Seq<char>, end: int)
    requires
        line.len() > 0,
        text::laws::free_of(line, '\n'),
        rest.len() > 0,
        rest[0] != '\r',
        head_end(rest) == Some(end),
    ensures
        head_end(line + "\r\n"@ + rest) == Some(line.len() + 2 + end),
{
    reveal_strlit("\r\n");
    let s = line + "\r\n"@ + rest;
    let n = line.len() + 2 + end;
    lemma_head_end_is(rest, end);
    assert forall|i: int| 0 <= i < n implies !#[trigger] gap_at(s, i) by {
        if i < line.len() - 1 {
            assert(s[i + 1] == line[i + 1]);
        } else if i == line.len() - 1 {
            assert(s[i + 1] == '\r');
        } else if i == line.len() {
            assert(s[i + 2] == rest[0]);
        } else if i == line.len() + 1 {
            assert(s[i] == '\n');
        } else {
            let j = i - line.len() - 2;
            assert(!gap_at(rest, j));
            assert(s.len() == line.len() + 2 + rest.len());
            assert(s.skip(line.len() as int + 2) =~= rest);
            assert(s[i] == rest[j]);
            if j + 1 < rest.len() {
                assert(s[i + 1] == rest[j + 1]);
            }
            if j + 2 < rest.len() {
                assert(s[i + 2] == rest[j + 2]);
            }
            if j + 3 < rest.len() {
                assert(s[i + 3] == rest[j + 3]);
            }
        }
    }
    assert(gap_at(s, n)) by {
        assert(s[n] == rest[end]);
        assert(s[n + 1] == rest[end + 1]);
        assert(s[n + 2] == rest[end + 2]);
        assert(s[n + 3] == rest[end + 3]);
    }
    lemma_head_end(s, n);
}

/// The end of the header is the first empty line.
proof fn lemma_head_end_is(s: Seq<char>, n: int)
    requires
        head_end(s) == Some(n),
    ensures
        gap_at(s, n),
        forall|i: int| 0 <= i < n ==> !#[trigger] gap_at(s, i),
    decreases s.len(),
{
    if !gap_at(s, 0) {
        let t = s.drop_first();
        lemma_head_end_is(t, n - 1);
        assert forall|i: int| 0 <= i < n implies !#[trigger] gap_at(s, i) by {
            if i > 0 {
                assert(!gap_at(t, i - 1));
            }
        }
    }
}

/// The end of the header lies behind the last line before the empty one.
proof fn lemma_head_last_line(line: Seq<char>, rest: Seq<char>)
    requires
        line.len() > 0,
        text::laws::free_of(line, '\n'),
    ensures
        head_end(line + "\r\n"@ + ("\r\n"@ + rest)) == Some(line.len() as int),
{
    reveal_strlit("\r\n");
    let s = line + "\r\n"@ + ("\r\n"@ + rest);
    assert forall|i: int| 0 <= i < line.len() implies !#[trigger] gap_at(s, i) by {
        if i < line.len() - 1 {
            assert(s[i + 1] == line[i + 1]);
        } else {
            assert(s[i + 1] == '\r');
        }
    }
    assert(gap_at(s, line.len() as int));
    lemma_head_end(s, line.len() as int);
}

/// The header of an answer with a description, and what it states.
#[verifier::spinoff_prover]
#[verifier::rlimit(40)]
proof fn lemma_describe_head(seq: Seq<char>, n: nat, sdp: Seq<char>)
    requires
        text::laws::free_of(seq, '\n'),
        n <= usize::MAX,
    ensures
        ({
            let head = seq![
                "RTSP/1.0 200 OK"@,
                "CSeq: "@ + seq,
                "Content-Type: application/sdp"@,
                "Content-Length: "@ + text::decimal(n),
            ];
            let all = text::joined(head) + "\r\n"@ + sdp;
            let end = (text::joined(head).len() - 2) as int;
            &&& head_end(all) == Some(end)
            &&& all.skip(end + 4) == sdp
            &&& all.take(end + 4) == text::joined(head) + "\r\n"@
            &&& stated_length(all.take(end)) == Some(n)
        }),
{
    let l0 = "RTSP/1.0 200 OK"@;
    let l1 = "CSeq: "@ + seq;
    let l2 = "Content-Type: application/sdp"@;
    let l3 = "Content-Length: "@ + text::decimal(n);
    let head = seq![l0, l1, l2, l3];
    let crlf = "\r\n"@;
    text::laws::lemma_decimal_plain(n);
    assert(l0.len() > 0 && text::laws::free_of(l0, '\n') && l0[0] == 'R') by {
        reveal_strlit("RTSP/1.0 200 OK");
    }
    assert(l1.len() > 0 && text::laws::free_of(l1, '\n') && l1[0] == 'C') by {
        reveal_strlit("CSeq: ");
        assert forall|k: int| 0 <= k < l1.len() implies #[trigger] l1[k] != '\n' by {
            if k >= 6 {
                assert(l1[k] == seq[k - 6]);
            }
        }
    }
    assert(l2.len() > 0 && text::laws::free_of(l2, '\n') && l2[0] == 'C') by {
        reveal_strlit("Content-Type: application/sdp");
    }
    assert(l3.len() > 0 && text::laws::free_of(l3, '\n') && l3[0] == 'C') by {
        reveal_strlit("Content-Length: ");
        assert forall|k: int| 0 <= k < l3.len() implies #[trigger] l3[k] != '\n' by {
            if k >= 16 {
                assert(l3[k] == text::decimal(n)[k - 16]);
            }
        }
    }
    assert(crlf.len() == 2) by {
        reveal_strlit("\r\n");
    }
    // The text, line by line.
    let t3 = l3 + crlf + (crlf + sdp);
    let t2 = l2 + crlf + t3;
    let t1 = l1 + crlf + t2;
    let t0 = l0 + crlf + t1;
    let j = text::joined(head);
    assert(j == ((l0 + crlf) + l1 + crlf) + l2 + crlf + l3 + crlf) by {
        lemma_joined_four(l0, l1, l2, l3);
    }
    let all = j + crlf + sdp;
    assert(all =~= t0);
    lemma_head_last_line(l3, sdp);
    lemma_head_behind_line(l2, t3, l3.len() as int);
    lemma_head_behind_line(l1, t2, l2.len() as int + 2 + l3.len());
    lemma_head_behind_line(l0, t1, l1.len() as int + 2 + (l2.len() + 2 + l3.len()));
    let end = (j.len() - 2) as int;
    assert(head_end(all) == Some(end));
    assert(all.skip(end + 4) =~= sdp);
    assert(all.take(end + 4) =~= j + crlf);
    // What the header states.
    let h = all.take(end);
    let h3 = l3;
    let h2 = l2 + crlf + h3;
    let h1 = l1 + crlf + h2;
    assert(h =~= l0 + crlf + h1);
    text::laws::lemma_lines_behind(l0, h1);
    text::laws::lemma_lines_behind(l1, h2);
    text::laws::lemma_lines_behind(l2, h3);
    text::laws::lemma_find_none(l3, '\n');
    assert(text::lines(h3) =~= seq![l3]);
    assert(text::lines(h) =~= seq![l0, l1, l2, l3]);
    lemma_length_field(l0, l1, l2, n, seq);
    text::decimal_reads_back(n, usize::MAX as nat);
}

/// Four joined lines.
proof fn lemma_joined_four(a: Seq<char>, b: Seq<char>, c: Seq<char>, d: Seq<char>)
    ensures
        text::joined(seq![a, b, c, d]) == ((a + "\r\n"@) + b + "\r\n"@) + c + "\r\n"@ + d + "\r\n"@,
{
    let e = Seq::<Seq<char>>::empty();
    text::lemma_joined_push(e, a);
    text::lemma_joined_push(e.push(a), b);
    text::lemma_joined_push(e.push(a).push(b), c);
    text::lemma_joined_push(e.push(a).push(b).push(c), d);
    assert(text::joined(e) + a =~= a);
    assert(e.push(a).push(b).push(c).push(d) =~= seq![a, b, c, d]);
}

/// Of the four lines the last one states the length.
proof fn lemma_length_field(
    l0: Seq<char>,
    l1: Seq<char>,
    l2: Seq<char>,
    n: nat,
    seq: Seq<char>,
)
    requires
        l0 == "RTSP/1.0 200 OK"@,
        l1 == "CSeq: "@ + seq,
        l2 == "Content-Type: application/sdp"@,
    ensures
        field(seq![l0, l1, l2, "Content-Length: "@ + text::decimal(n)], "content-length:"@) == Some(
            text::decimal(n),
        ),
{
    reveal_strlit("RTSP/1.0 200 OK");
    reveal_strlit("CSeq: ");
    reveal_strlit("Content-Type: application/sdp");
    reveal_strlit("Content-Length: ");
    reveal_strlit("content-length:");
    let name = "content-length:"@;
    let d = text::decimal(n);
    let l3 = "Content-Length: "@ + d;
    text::laws::lemma_decimal_plain(n);
    text::lemma_decimal(n);
    let ls = seq![l0, l1, l2, l3];
    if text::starts(text::lower(l0), name) {
        assert(text::lower(l0).take(15)[0] == name[0]);
        assert(text::lower(l0)[0] == 'r');
    }
    if text::starts(text::lower(l1), name) {
        assert(text::lower(l1).take(15)[1] == name[1]);
        assert(text::lower(l1)[1] == text::small(l1[1]));
        assert(l1[1] == 'S');
    }
    if text::starts(text::lower(l2), name) {
        assert(text::lower(l2).take(15)[8] == name[8]);
        assert(text::lower(l2)[8] == 't');
    }
    let low = text::lower(l3);
    assert(low.len() == 16 + d.len());
    assert(low.take(15) =~= name);
    let v = low.skip(15);
    assert(v =~= seq![' '] + d) by {
        assert forall|k: int| 0 <= k < d.len() implies low[16 + k] == d[k] by {
            assert(text::is_digit(d[k]));
            assert(l3[16 + k] == d[k]);
        }
    }
    assert(text::trimmed(v) == d) by {
        assert(!text::is_space(d[0]));
        text::lemma_prefix_len(v, text::space(), 1);
        assert(v.skip(1) =~= d);
        assert(!text::is_space(d[d.len() - 1]));
    }
    assert(ls.drop_first() =~= seq![l1, l2, l3]);
    assert(ls.drop_first().drop_first() =~= seq![l2, l3]);
    assert(ls.drop_first().drop_first().drop_first() =~= seq![l3]);
    reveal_with_fuel(field, 5);
}

/// The sequence number of a request stands in one line.
proof fn lemma_cseq_free(request: Seq<char>)
    ensures
        text::laws::free_of(cseq(request), '\n'),
{
    reveal_strlit("0");
    lemma_lines_free(request);
    lemma_field_free(text::lines(request), "cseq:"@);
}

/// What a server serves, a client reads: the answer to a `DESCRIBE`, received in
/// full, gives the description.
pub proof fn served_description_is_read(request: Seq<char>, sdp: Seq<char>)
    requires
        method(request) == "DESCRIBE"@,
        encode_utf8(sdp).len() <= usize::MAX,
    ensures
        ({
            let a = answer(request, sdp);
            body(a, encode_utf8(a).len()) == Some(sdp)
        }),
{
    reveal_strlit("OPTIONS");
    reveal_strlit("DESCRIBE");
    assert("DESCRIBE"@.len() != "OPTIONS"@.len());
    let seq = cseq(request);
    let n = encode_utf8(sdp).len();
    lemma_cseq_free(request);
    lemma_describe_head(seq, n, sdp);
    let head = text::joined(describe_head(seq, sdp)) + "\r\n"@;
    let a = answer(request, sdp);
    assert(a == head + sdp);
    utf8::lemma_encode_concat(head, sdp);
    let rest = encode_utf8(sdp);
    assert(rest.take(n as int) =~= rest);
    vstd::utf8::encode_utf8_valid_utf8(sdp);
    vstd::utf8::encode_utf8_decode_utf8(sdp);
}

/// An answer that was cut has no body.
proof fn lemma_cut_answer(b: Seq<u8>, so_far: Seq<char>)
    requires
        cut_answer(b),
        utf8::reads_as(b, so_far),
    ensures
        body(so_far, b.len()) is None,
{
    let (request, sdp) = choose|request: Seq<char>, sdp: Seq<char>|
        {
            let all = encode_utf8(#[trigger] answer(request, sdp));
            &&& method(request) == "DESCRIBE"@
            &&& encode_utf8(sdp).len() <= usize::MAX
            &&& b.len() < all.len()
            &&& b == all.take(b.len() as int)
        };
    cut_description_is_not_read(request, sdp, b.len() as int, so_far);
}

/// A client waits for the whole description: wherever the answer is cut, in the
/// header, in the description or within a character, what came so far gives
/// nothing.
pub proof fn cut_description_is_not_read(
    request: Seq<char>,
    sdp: Seq<char>,
    k: int,
    so_far: Seq<char>,
)
    requires
        method(request) == "DESCRIBE"@,
        encode_utf8(sdp).len() <= usize::MAX,
        0 <= k < encode_utf8(answer(request, sdp)).len(),
        utf8::reads_as(encode_utf8(answer(request, sdp)).take(k), so_far),
    ensures
        body(so_far, k as nat) is None,
{
    reveal_strlit("OPTIONS");
    reveal_strlit("DESCRIBE");
    assert("DESCRIBE"@.len() != "OPTIONS"@.len());
    let seq = cseq(request);
    let n = encode_utf8(sdp).len();
    lemma_cseq_free(request);
    lemma_describe_head(seq, n, sdp);
    let head = text::joined(describe_head(seq, sdp)) + "\r\n"@;
    let a = answer(request, sdp);
    assert(a == head + sdp);
    utf8::lemma_encode_concat(head, sdp);
    let end = (text::joined(describe_head(seq, sdp)).len() - 2) as int;
    lemma_head_end_is(a, end);
    // The text so far: whole characters of the answer, and replacements.
    let b = encode_utf8(a).take(k);
    let (c, m) = utf8::lemma_cut(a, k);
    let front = a.take(c);
    assert(utf8::replaced_behind(so_far, front)) by {
        if m == 0 {
            assert(b =~= encode_utf8(front));
            vstd::utf8::encode_utf8_valid_utf8(front);
            vstd::utf8::encode_utf8_decode_utf8(front);
            vstd::utf8::encode_utf8_decode_utf8(so_far);
            assert(so_far.take(so_far.len() as int) =~= so_far);
        } else {
            assert(utf8::cut_behind(b, front));
        }
    }
    assert forall|i: int| 0 <= i < c implies #[trigger] so_far[i] == a[i] by {
        assert(so_far.take(c)[i] == front[i]);
    }
    assert forall|i: int| #[trigger] gap_at(so_far, i) implies i + 4 <= c && gap_at(a, i) by {
        assert(so_far[i + 3] != '\u{FFFD}');
        assert(so_far[i] == '\r');
    }
    if c < end + 4 {
        lemma_head_end(so_far, so_far.len() as int);
    } else {
        assert(gap_at(so_far, end));
        lemma_head_end(so_far, end);
        assert(so_far.take(end) =~= a.take(end));
        assert(so_far.take(end + 4) =~= a.take(end + 4));
    }
}

} // verus!
