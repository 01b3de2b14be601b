//! Laws of requests and answers: a server understands what a client asks, and
//! answers with the number of the request.

use super::{
    answer, body, cseq, describe_text, field, method, rest_of, DescribeReader, ReadStep,
};
use crate::text;
use vstd::prelude::*;
use vstd::utf8::encode_utf8;

verus! {

/// The request of the client: five lines, the last one empty, for the path at the
/// host and the port.
pub proof fn request_names_host_port_and_path(host: Seq<char>, port: u16, path: Seq<char>)
    ensures
        describe_text(host, port, path) == text::joined(
            seq![
                "DESCRIBE"@ + " "@ + ("rtsp://"@ + host + ":"@ + text::decimal(port as nat) + path)
                    + " RTSP/1.0"@,
                "CSeq:"@ + " "@ + text::decimal(1),
                "Accept: application/sdp"@,
                "User-Agent: Taktwerk"@,
                ""@,
            ],
        ),
{
    reveal_strlit("DESCRIBE rtsp://");
    reveal_strlit(
        " RTSP/1.0\r\nCSeq: 1\r\nAccept: application/sdp\r\nUser-Agent: Taktwerk\r\n\r\n",
    );
    reveal_strlit("DESCRIBE");
    reveal_strlit(" ");
    reveal_strlit("rtsp://");
    reveal_strlit(" RTSP/1.0");
    reveal_strlit("CSeq:");
    reveal_strlit("Accept: application/sdp");
    reveal_strlit("User-Agent: Taktwerk");
    reveal_strlit("");
    reveal_strlit("\r\n");
    let a = "DESCRIBE"@ + " "@ + ("rtsp://"@ + host + ":"@ + text::decimal(port as nat) + path)
        + " RTSP/1.0"@;
    let b = "CSeq:"@ + " "@ + text::decimal(1);
    let c = "Accept: application/sdp"@;
    let d = "User-Agent: Taktwerk"@;
    let ls = seq![a, b, c, d];
    super::lemma_joined_four(a, b, c, d);
    text::lemma_joined_push(ls, ""@);
    assert(ls.push(""@) =~= seq![a, b, c, d, ""@]);
    let target = host + ":"@ + text::decimal(port as nat) + path;
    assert(a =~= "DESCRIBE rtsp://"@ + target + " RTSP/1.0"@);
    assert(text::decimal(1) =~= seq!['1']);
    let tail = " RTSP/1.0"@ + "\r\n"@ + b + "\r\n"@ + c + "\r\n"@ + d + "\r\n"@ + "\r\n"@;
    assert(tail
        =~= " RTSP/1.0\r\nCSeq: 1\r\nAccept: application/sdp\r\nUser-Agent: Taktwerk\r\n\r\n"@);
    assert(describe_text(host, port, path) =~= "DESCRIBE rtsp://"@ + target + tail);
    assert(text::joined(ls.push(""@)) =~= "DESCRIBE rtsp://"@ + target + tail);
}

/// The value of a field whose name is written in any letters.
proof fn lemma_number_field(name: Seq<char>, n: nat)
    requires
        text::lower(name) == "cseq:"@,
    ensures
        text::stripped(text::lower(name + " "@ + text::decimal(n)), "cseq:"@) matches Some(v)
            && text::trimmed(v) == text::decimal(n),
{
    reveal_strlit("cseq:");
    reveal_strlit(" ");
    let d = text::decimal(n);
    let l = name + " "@ + d;
    let low = text::lower(l);
    text::laws::lemma_decimal_plain(n);
    text::lemma_decimal(n);
    assert(name.len() == 5) by {
        assert(text::lower(name).len() == name.len());
    }
    assert(low.take(5) =~= "cseq:"@) by {
        assert forall|k: int| 0 <= k < 5 implies low[k] == "cseq:"@[k] by {
            assert(l[k] == name[k]);
            assert(text::lower(name)[k] == text::small(name[k]));
        }
    }
    let v = low.skip(5);
    assert(v =~= seq![' '] + d) by {
        assert forall|k: int| 0 <= k < d.len() implies low[6 + k] == d[k] by {
            assert(text::is_digit(d[k]));
            assert(l[6 + k] == d[k]);
        }
    }
    assert(!text::is_space(d[0]));
    text::lemma_prefix_len(v, text::space(), 1);
    assert(v.skip(1) =~= d);
    assert(!text::is_space(d[d.len() - 1]));
}

/// A request is understood: its method is the first word, whatever stands behind
/// it, and its number is that of the line that names it, in capital letters or in
/// small ones.
pub proof fn request_is_understood(
    verb: Seq<char>,
    target: Seq<char>,
    name: Seq<char>,
    n: nat,
    more: Seq<char>,
)
    requires
        verb.len() > 0,
        text::laws::free_of_space(verb),
        text::laws::free_of(verb, ':'),
        text::laws::free_of(target, '\n'),
        text::lower(name) == "cseq:"@,
    ensures
        ({
            let request = (verb + " "@ + target) + "\r\n"@ + ((name + " "@ + text::decimal(n))
                + "\r\n"@ + more);
            &&& method(request) == verb
            &&& cseq(request) == text::decimal(n)
        }),
{
    let first = verb + " "@ + target;
    let second = name + " "@ + text::decimal(n);
    let rest = second + "\r\n"@ + more;
    let request = first + "\r\n"@ + rest;
    reveal_strlit(" ");
    reveal_strlit("cseq:");
    let key = "cseq:"@;
    assert(" "@ =~= seq![' ']);
    assert forall|i: int| 0 <= i < first.len() implies #[trigger] first[i] != '\n' by {
        if i < verb.len() {
            assert(first[i] == verb[i]);
            assert(!text::is_space(verb[i]));
        } else if i > verb.len() {
            assert(first[i] == target[i - verb.len() - 1]);
        }
    }
    text::laws::lemma_decimal_plain(n);
    assert(name.len() == 5) by {
        assert(text::lower(name).len() == name.len());
    }
    assert forall|i: int| 0 <= i < second.len() implies #[trigger] second[i] != '\n' by {
        if i < 5 {
            assert(second[i] == name[i]);
            assert(text::lower(name)[i] == text::small(name[i]));
            assert(text::lower(name)[i] == key[i]);
        } else if i > 5 {
            assert(second[i] == text::decimal(n)[i - 6]);
        }
    }
    text::laws::lemma_lines_behind(first, rest);
    text::laws::lemma_lines_behind(second, more);
    let ls = text::lines(request);
    assert(ls == seq![first] + (seq![second] + text::lines(more)));
    assert(ls[0] == first);
    text::laws::lemma_words_behind(verb, ' ', target);
    let low = text::lower(first);
    if text::starts(low, key) {
        assert(low.take(5)[4] == ':');
        assert(low[4] == text::small(first[4]));
        if verb.len() > 4 {
            assert(first[4] == verb[4]);
        } else {
            let k = verb.len() as int;
            assert(first[k] == ' ');
            assert(low[k] == ' ');
            assert(low.take(5)[k] == key[k]);
        }
    }
    lemma_number_field(name, n);
    assert(ls.drop_first() =~= seq![second] + text::lines(more));
    assert(ls.drop_first()[0] == second);
    reveal_with_fuel(field, 3);
}

/// Every answer carries the number of the request. `OPTIONS` and `DESCRIBE` are
/// answered with status 200, and everything else with 501.
pub proof fn answer_has_the_number_of_the_request(request: Seq<char>, sdp: Seq<char>)
    ensures
        text::starts(
            answer(request, sdp),
            (if method(request) == "OPTIONS"@ || method(request) == "DESCRIBE"@ {
                "RTSP/1.0 200 OK\r\nCSeq: "@
            } else {
                "RTSP/1.0 501 Not Implemented\r\nCSeq: "@
            }) + cseq(request) + "\r\n"@,
        ),
        method(request) == "OPTIONS"@ ==> answer(request, sdp) == "RTSP/1.0 200 OK\r\nCSeq: "@
            + cseq(request) + "\r\nPublic: OPTIONS, DESCRIBE\r\n\r\n"@,
        method(request) == "DESCRIBE"@ ==> answer(request, sdp) == "RTSP/1.0 200 OK\r\nCSeq: "@
            + cseq(request) + "\r\nContent-Type: application/sdp\r\nContent-Length: "@
            + text::decimal(encode_utf8(sdp).len()) + "\r\n\r\n"@ + sdp,
{
    reveal_strlit("OPTIONS");
    reveal_strlit("DESCRIBE");
    reveal_strlit("RTSP/1.0 200 OK\r\nCSeq: ");
    reveal_strlit("RTSP/1.0 501 Not Implemented\r\nCSeq: ");
    reveal_strlit("RTSP/1.0 200 OK");
    reveal_strlit("RTSP/1.0 501 Not Implemented");
    reveal_strlit("CSeq: ");
    reveal_strlit("\r\n");
    reveal_strlit("\r\n\r\n");
    reveal_strlit("Public: OPTIONS, DESCRIBE");
    reveal_strlit("\r\nPublic: OPTIONS, DESCRIBE\r\n\r\n");
    reveal_strlit("Content-Type: application/sdp");
    reveal_strlit("Content-Length: ");
    reveal_strlit("\r\nContent-Type: application/sdp\r\nContent-Length: ");
    let n = cseq(request);
    let a = answer(request, sdp);
    let none = Seq::<Seq<char>>::empty();
    let two = "CSeq: "@ + n;
    let ok = "RTSP/1.0 200 OK\r\nCSeq: "@ + n + "\r\n"@;
    let bad = "RTSP/1.0 501 Not Implemented\r\nCSeq: "@ + n + "\r\n"@;
    assert("OPTIONS"@.len() != "DESCRIBE"@.len());
    if method(request) == "OPTIONS"@ {
        let one = "RTSP/1.0 200 OK"@;
        let three = "Public: OPTIONS, DESCRIBE"@;
        text::lemma_joined_push(none, one);
        text::lemma_joined_push(none.push(one), two);
        text::lemma_joined_push(none.push(one).push(two), three);
        assert(none.push(one).push(two).push(three) =~= seq![one, two, three]);
        assert(a =~= "RTSP/1.0 200 OK\r\nCSeq: "@ + n
            + "\r\nPublic: OPTIONS, DESCRIBE\r\n\r\n"@);
        assert(a.take(ok.len() as int) =~= ok);
    } else if method(request) == "DESCRIBE"@ {
        let len = text::decimal(encode_utf8(sdp).len());
        super::lemma_joined_four(
            "RTSP/1.0 200 OK"@,
            two,
            "Content-Type: application/sdp"@,
            "Content-Length: "@ + len,
        );
        assert(a =~= "RTSP/1.0 200 OK\r\nCSeq: "@ + n
            + "\r\nContent-Type: application/sdp\r\nContent-Length: "@ + len + "\r\n\r\n"@ + sdp);
        assert(a.take(ok.len() as int) =~= ok);
    } else {
        let one = "RTSP/1.0 501 Not Implemented"@;
        text::lemma_joined_push(none, one);
        text::lemma_joined_push(none.push(one), two);
        assert(none.push(one).push(two) =~= seq![one, two]);
        assert(a =~= bad + "\r\n"@);
        assert(a.take(bad.len() as int) =~= bad);
    }
}

/// A description is fetched: the request of the client, answered by a server that
/// serves a description, gives the client that description.
pub proof fn description_is_fetched(
    host: Seq<char>,
    port: u16,
    path: Seq<char>,
    sdp: Seq<char>,
)
    requires
        text::laws::free_of(host, '\n'),
        text::laws::free_of(path, '\n'),
        encode_utf8(sdp).len() <= usize::MAX,
    ensures
        ({
            let a = answer(describe_text(host, port, path), sdp);
            body(a, encode_utf8(a).len()) == Some(sdp)
        }),
{
    request_names_host_port_and_path(host, port, path);
    reveal_strlit("DESCRIBE");
    reveal_strlit(" ");
    reveal_strlit("rtsp://");
    reveal_strlit(":");
    reveal_strlit(" RTSP/1.0");
    reveal_strlit("CSeq:");
    reveal_strlit("cseq:");
    let url = "rtsp://"@ + host + ":"@ + text::decimal(port as nat) + path;
    let target = url + " RTSP/1.0"@;
    let first = "DESCRIBE"@ + " "@ + url + " RTSP/1.0"@;
    let second = "CSeq:"@ + " "@ + text::decimal(1);
    let ls = seq![first, second, "Accept: application/sdp"@, "User-Agent: Taktwerk"@, ""@];
    text::laws::lemma_decimal_plain(port as nat);
    text::laws::lemma_joined_front(ls);
    text::laws::lemma_joined_front(ls.drop_first());
    let more = text::joined(ls.drop_first().drop_first());
    let verb = "DESCRIBE"@;
    assert(first =~= verb + " "@ + target);
    let request = first + "\r\n"@ + (second + "\r\n"@ + more);
    assert(describe_text(host, port, path) == request);
    assert forall|i: int| 0 <= i < target.len() implies #[trigger] target[i] != '\n' by {
        let h = host.len();
        let d = text::decimal(port as nat);
        if 7 <= i < 7 + h {
            assert(target[i] == host[i - 7]);
        } else if 8 + h <= i < 8 + h + d.len() {
            assert(target[i] == d[i - 8 - h]);
        } else if 8 + h + d.len() <= i < 8 + h + d.len() + path.len() {
            assert(target[i] == path[i - 8 - h - d.len()]);
        }
    }
    assert(text::lower("CSeq:"@) =~= "cseq:"@);
    request_is_understood(verb, target, "CSeq:"@, 1, more);
    super::served_description_is_read(request, sdp);
}

/// Everything behind the empty line that ends a header is the rest of an answer,
/// as it stands; without an empty line there is no rest.
pub proof fn rest_is_all_behind_the_header(line: Seq<char>, rest: Seq<char>)
    requires
        line.len() > 0,
        text::laws::free_of(line, '\n'),
    ensures
        rest_of(line + "\r\n"@ + ("\r\n"@ + rest)) == Some(rest),
        rest_of(line) is None,
{
    super::lemma_head_last_line(line, rest);
    reveal_strlit("\r\n");
    let s = line + "\r\n"@ + ("\r\n"@ + rest);
    assert(s.skip(line.len() as int + 4) =~= rest);
    super::lemma_head_end(line, line.len() as int);
}

/// A reader goes on until the body is complete, and gives up once more than 65536
/// bytes have come without one.
pub proof fn reader_gives_up_in_the_end(step: ReadStep, answer: Seq<char>, len: nat)
    requires
        DescribeReader::step_is(step, answer, len),
    ensures
        step is Done <==> body(answer, len) is Some,
        step matches ReadStep::Done(s) ==> body(answer, len) == Some(s@),
        step == ReadStep::Enough <==> body(answer, len) is None && len > 65536,
        step == ReadStep::More <==> body(answer, len) is None && len <= 65536,
{
}

/// A request whose lines name no number is answered with the number 0, and one
/// without a word has no method.
pub proof fn request_without_a_number_has_zero(line: Seq<char>)
    requires
        text::laws::free_of(line, '\n'),
        line.len() > 0,
        !text::starts(text::lower(line), "cseq:"@),
    ensures
        cseq(line) == "0"@,
        method(Seq::empty()) == Seq::<char>::empty(),
{
    text::laws::lemma_find_none(line, '\n');
    let ls = text::lines(line);
    assert(ls =~= seq![line]);
    assert(ls.drop_first() =~= Seq::empty());
    reveal_with_fuel(field, 2);
}

/// A request whose first line is empty has no method, whatever follows.
pub proof fn empty_first_line_has_no_method(rest: Seq<char>)
    ensures
        method("\r\n"@ + rest) == Seq::<char>::empty(),
{
    let none = Seq::<char>::empty();
    text::laws::lemma_lines_behind(none, rest);
    assert(none + "\r\n"@ + rest =~= "\r\n"@ + rest);
    text::laws::lemma_words_one(none);
    assert(text::lines("\r\n"@ + rest)[0] == none);
}

} // verus!
