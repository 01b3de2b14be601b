//! Controller of the connection API (IS-05): the requests that connect a
//! receiver of another node to a sender or part them, and what their answers
//! say.

use crate::discovery::rtsp;
use crate::json;
use crate::json::{empty, txt, Json, JsonView};
use crate::text;
use crate::utf8;
use vstd::prelude::*;
use vstd::utf8::encode_utf8;

verus! {

/// The path of what is staged for a receiver.
pub open spec fn staged(receiver_id: Seq<char>) -> Seq<char> {
    "/x-nmos/connection/v1.1/single/receivers/"@ + receiver_id + "/staged"@
}

/// The path of what is staged for a receiver.
pub fn staged_path(receiver_id: &str) -> (s: String)
    ensures
        s@ == staged(receiver_id@),
{
    let mut s: String = text::cat("/x-nmos/connection/v1.1/single/receivers/", receiver_id);
    text::push_text(&mut s, "/staged");
    s
}

/// The body that connects a receiver to the sender of this description.
pub open spec fn connect_json(sdp: Seq<char>) -> JsonView {
    empty()
        .with("master_enable"@, JsonView::Bool(true))
        .with("activation"@, empty().with("mode"@, txt("activate_immediate"@)))
        .with(
            "transport_file"@,
            empty().with("data"@, txt(sdp)).with("type"@, txt("application/sdp"@)),
        )
}

/// The body that connects a receiver to the sender of this description.
pub fn connect_body(sdp: &str) -> (j: Json)
    ensures
        j@ == connect_json(sdp@),
{
    json::object()
        .with_bool("master_enable", true)
        .with("activation", json::object().with_text("mode", "activate_immediate"))
        .with(
            "transport_file",
            json::object().with_text("data", sdp).with_text("type", "application/sdp"),
        )
}

/// The body that parts a receiver from its sender.
pub open spec fn disconnect_json() -> JsonView {
    empty()
        .with("master_enable"@, JsonView::Bool(false))
        .with("activation"@, empty().with("mode"@, txt("activate_immediate"@)))
}

/// The body that parts a receiver from its sender.
pub fn disconnect_body() -> (j: Json)
    ensures
        j@ == disconnect_json(),
{
    json::object()
        .with_bool("master_enable", false)
        .with("activation", json::object().with_text("mode", "activate_immediate"))
}

/// The host field of a request.
pub open spec fn host_line(host: Seq<char>, port: u16) -> Seq<char> {
    "Host: "@ + host + ":"@ + text::decimal(port as nat)
}

/// The request for a resource.
pub open spec fn get_text(host: Seq<char>, port: u16, path: Seq<char>) -> Seq<char> {
    "GET "@ + path + " HTTP/1.1\r\n"@ + host_line(host, port)
        + "\r\nAccept: application/json\r\nConnection: close\r\n\r\n"@
}

/// The request that changes a resource, with its body.
pub open spec fn patch_text(
    host: Seq<char>,
    port: u16,
    path: Seq<char>,
    body: Seq<char>,
) -> Seq<char> {
    "PATCH "@ + path + " HTTP/1.1\r\n"@ + host_line(host, port)
        + "\r\nContent-Type: application/json\r\nContent-Length: "@ + text::decimal(
        encode_utf8(body).len(),
    ) + "\r\nConnection: close\r\n\r\n"@ + body
}

/// The host field of a request.
fn host_field(host: &str, port: u16) -> (s: String)
    ensures
        s@ == host_line(host@, port),
{
    let mut s: String = text::cat("Host: ", host);
    text::push_text(&mut s, ":");
    text::push_decimal(&mut s, port as u64);
    s
}

/// The request for a resource.
pub fn get_request(host: &str, port: u16, path: &str) -> (s: String)
    ensures
        s@ == get_text(host@, port, path@),
{
    let mut s: String = text::cat("GET ", path);
    text::push_text(&mut s, " HTTP/1.1\r\n");
    text::push_text(&mut s, host_field(host, port).as_str());
    text::push_text(&mut s, "\r\nAccept: application/json\r\nConnection: close\r\n\r\n");
    s
}

/// The request that changes a resource, with its body. The length stated is that
/// of the body in bytes.
pub fn patch_request(host: &str, port: u16, path: &str, body: &str) -> (s: String)
    ensures
        s@ == patch_text(host@, port, path@, body@),
{
    let mut s: String = text::cat("PATCH ", path);
    text::push_text(&mut s, " HTTP/1.1\r\n");
    text::push_text(&mut s, host_field(host, port).as_str());
    text::push_text(&mut s, "\r\nContent-Type: application/json\r\nContent-Length: ");
    text::push_decimal(&mut s, body.as_bytes().len() as u64);
    text::push_text(&mut s, "\r\nConnection: close\r\n\r\n");
    text::push_text(&mut s, body);
    s
}

/// The status code of an answer: the second word of its first line.
pub open spec fn status_of(answer: Seq<char>) -> Option<u16> {
    let ls = text::lines(answer);
    if ls.len() > 0 && text::words(ls[0]).len() > 1 {
        match text::unsigned(text::words(ls[0])[1], 0xffff) {
            Some(n) => Some(n as u16),
            None => None,
        }
    } else {
        None
    }
}

/// The status code of an answer.
pub fn status_in(answer: &str) -> (r: Option<u16>)
    ensures
        r == status_of(answer@),
{
    let v: Vec<char> = text::chars_of(answer);
    if v.len() == 0 {
        return None;
    }
    assert(v@.skip(0) =~= v@);
    let (line, next): (&[char], usize) = text::line_at(v.as_slice(), 0);
    assert(text::lines(v@)[0] == line@);
    match text::word(line, 1) {
        Some(w) => match text::parse_unsigned(w, 0xffff) {
            Some(n) => Some(n as u16),
            None => None,
        },
        None => None,
    }
}

/// The body of an answer as it was received; bytes that are no text are
/// replaced.
pub fn response_body(received: &[u8]) -> (r: Option<String>)
    ensures
        match rtsp::rest_of(utf8::lossy_text(received@)) {
            Some(b) => r matches Some(s) && s@ == b,
            None => r is None,
        },
{
    rtsp::rest_in(utf8::lossy(received).as_str())
}

/// The status code of an answer as it was received.
pub fn response_status(received: &[u8]) -> (r: Option<u16>)
    ensures
        r == status_of(utf8::lossy_text(received@)),
{
    status_in(utf8::lossy(received).as_str())
}

/// A request for a resource: the path, the host with its port, and an end.
pub proof fn get_names_path_and_host(host: Seq<char>, port: u16, path: Seq<char>)
    ensures
        get_text(host, port, path) == text::joined(
            seq![
                "GET "@ + path + " HTTP/1.1"@,
                "Host: "@ + host + ":"@ + text::decimal(port as nat),
                "Accept: application/json"@,
                "Connection: close"@,
                ""@,
            ],
        ),
{
    reveal_strlit(" HTTP/1.1\r\n");
    reveal_strlit(" HTTP/1.1");
    reveal_strlit("\r\nAccept: application/json\r\nConnection: close\r\n\r\n");
    reveal_strlit("Accept: application/json");
    reveal_strlit("Connection: close");
    reveal_strlit("");
    reveal_strlit("\r\n");
    let none = Seq::<Seq<char>>::empty();
    let a = "GET "@ + path + " HTTP/1.1"@;
    let b = host_line(host, port);
    let c = "Accept: application/json"@;
    let d = "Connection: close"@;
    text::lemma_joined_push(none, a);
    text::lemma_joined_push(none.push(a), b);
    text::lemma_joined_push(none.push(a).push(b), c);
    text::lemma_joined_push(none.push(a).push(b).push(c), d);
    text::lemma_joined_push(none.push(a).push(b).push(c).push(d), ""@);
    assert(none.push(a).push(b).push(c).push(d).push(""@) =~= seq![a, b, c, d, ""@]);
    assert(get_text(host, port, path) =~= text::joined(seq![a, b, c, d, ""@]));
}

/// A request that changes a resource: the path, the host with its port, the
/// length of the body in bytes, and the body behind the end of the header.
pub proof fn patch_states_the_length_of_its_body(
    host: Seq<char>,
    port: u16,
    path: Seq<char>,
    body: Seq<char>,
)
    ensures
        patch_text(host, port, path, body) == text::joined(
            seq![
                "PATCH "@ + path + " HTTP/1.1"@,
                "Host: "@ + host + ":"@ + text::decimal(port as nat),
                "Content-Type: application/json"@,
                "Content-Length: "@ + text::decimal(encode_utf8(body).len()),
                "Connection: close"@,
                ""@,
            ],
        ) + body,
{
    reveal_strlit(" HTTP/1.1\r\n");
    reveal_strlit(" HTTP/1.1");
    reveal_strlit("\r\nContent-Type: application/json\r\nContent-Length: ");
    reveal_strlit("\r\nConnection: close\r\n\r\n");
    reveal_strlit("Content-Type: application/json");
    reveal_strlit("Content-Length: ");
    reveal_strlit("Connection: close");
    reveal_strlit("");
    reveal_strlit("\r\n");
    let none = Seq::<Seq<char>>::empty();
    let a = "PATCH "@ + path + " HTTP/1.1"@;
    let b = host_line(host, port);
    let c = "Content-Type: application/json"@;
    let d = "Content-Length: "@ + text::decimal(encode_utf8(body).len());
    let e = "Connection: close"@;
    text::lemma_joined_push(none, a);
    text::lemma_joined_push(none.push(a), b);
    text::lemma_joined_push(none.push(a).push(b), c);
    text::lemma_joined_push(none.push(a).push(b).push(c), d);
    text::lemma_joined_push(none.push(a).push(b).push(c).push(d), e);
    text::lemma_joined_push(none.push(a).push(b).push(c).push(d).push(e), ""@);
    assert(none.push(a).push(b).push(c).push(d).push(e).push(""@) =~= seq![a, b, c, d, e, ""@]);
    assert(patch_text(host, port, path, body) =~= text::joined(seq![a, b, c, d, e, ""@]) + body);
}

/// The status of an answer is the number behind the first word of its first line,
/// whatever follows.
pub proof fn status_is_the_second_word(
    version: Seq<char>,
    code: u16,
    reason: Seq<char>,
    rest: Seq<char>,
)
    requires
        version.len() > 0,
        text::laws::free_of_space(version),
        text::laws::free_of(reason, '\n'),
    ensures
        status_of(
            version + seq![' '] + (text::decimal(code as nat) + seq![' '] + reason) + "\r\n"@ + rest,
        ) == Some(code),
{
    let n = text::decimal(code as nat);
    let tail = n + seq![' '] + reason;
    let line = version + seq![' '] + tail;
    text::laws::lemma_decimal_plain(code as nat);
    assert forall|i: int| 0 <= i < line.len() implies #[trigger] line[i] != '\n' by {
        let v = version.len();
        if i < v {
            assert(line[i] == version[i]);
            assert(!text::is_space(version[i]));
        } else if v + 1 <= i < v + 1 + n.len() {
            assert(line[i] == n[i - v - 1]);
        } else if i >= v + 2 + n.len() {
            assert(line[i] == reason[i - v - 2 - n.len()]);
        }
    }
    text::laws::lemma_lines_behind(line, rest);
    text::laws::lemma_words_behind(n, ' ', reason);
    text::laws::lemma_words_behind(version, ' ', tail);
    assert(text::words(line)[1] == n);
    text::decimal_reads_back(code as nat, 0xffff);
}

} // verus!
