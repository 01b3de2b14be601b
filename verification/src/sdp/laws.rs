//! Laws of session descriptions: what was built is parsed back, and what is not
//! known is passed over.

pub mod reading;

use super::{ClockModel, DraftModel, RtpMap, SessionModel};
use crate::ptime;
use crate::text;
use vstd::prelude::*;

verus! {

/// A line that is no longer than its value and does not end in a carriage return.
proof fn lemma_line(m: DraftModel, tag: char, val: Seq<char>)
    requires
        tag != '=',
        val.len() > 0 ==> val.last() != '\r',
    ensures
        m.with_line(seq![tag, '='] + val) == m.with_field(seq![tag], val),
{
    reveal(DraftModel::with_line);
    let line = seq![tag, '='] + val;
    assert(line.last() != '\r') by {
        if val.len() > 0 {
            assert(line.last() == val.last());
        }
    }
    assert(text::without_crs(line) == line);
    assert(line =~= seq![tag] + seq!['='] + val);
    text::laws::lemma_find_behind(seq![tag], '=', val);
}

/// The tags are told apart.
proof fn lemma_tags()
    ensures
        "s"@ == seq!['s'],
        "o"@ == seq!['o'],
        "c"@ == seq!['c'],
        "m"@ == seq!['m'],
        "a"@ == seq!['a'],
        seq!['s'] != seq!['o'],
        seq!['s'] != seq!['c'],
        seq!['s'] != seq!['m'],
        seq!['s'] != seq!['a'],
        seq!['o'] != seq!['c'],
        seq!['o'] != seq!['m'],
        seq!['o'] != seq!['a'],
        seq!['c'] != seq!['m'],
        seq!['c'] != seq!['a'],
        seq!['m'] != seq!['a'],
{
    reveal_strlit("s");
    reveal_strlit("o");
    reveal_strlit("c");
    reveal_strlit("m");
    reveal_strlit("a");
    assert("s"@ =~= seq!['s']);
    assert("o"@ =~= seq!['o']);
    assert("c"@ =~= seq!['c']);
    assert("m"@ =~= seq!['m']);
    assert("a"@ =~= seq!['a']);
    assert(seq!['s'][0] != seq!['o'][0]);
    assert(seq!['s'][0] != seq!['c'][0]);
    assert(seq!['s'][0] != seq!['m'][0]);
    assert(seq!['s'][0] != seq!['a'][0]);
    assert(seq!['o'][0] != seq!['c'][0]);
    assert(seq!['o'][0] != seq!['m'][0]);
    assert(seq!['o'][0] != seq!['a'][0]);
    assert(seq!['c'][0] != seq!['m'][0]);
    assert(seq!['c'][0] != seq!['a'][0]);
    assert(seq!['m'][0] != seq!['a'][0]);
}

// ---------------------------------------------------------------------------
// The lines of a description, one by one
// ---------------------------------------------------------------------------
/// `v=0` and `t=0 0` say nothing.
proof fn lemma_plain_lines(m: DraftModel)
    ensures
        m.with_line("v=0"@) == m,
        m.with_line("t=0 0"@) == m,
        m.with_line("a=recvonly"@) == m,
{
    lemma_tags();
    reveal_strlit("v=0");
    reveal_strlit("t=0 0");
    reveal_strlit("a=recvonly");
    reveal_strlit("rtpmap:");
    reveal_strlit("ptime:");
    reveal_strlit("ts-refclk:ptp=");
    reveal_strlit("mediaclk:direct=");
    assert("v=0"@ =~= seq!['v', '='] + seq!['0']);
    lemma_line(m, 'v', seq!['0']);
    assert(seq!['v'][0] != 's' && seq!['v'][0] != 'o' && seq!['v'][0] != 'c' && seq!['v'][0] != 'm'
        && seq!['v'][0] != 'a');
    assert("t=0 0"@ =~= seq!['t', '='] + seq!['0', ' ', '0']);
    lemma_line(m, 't', seq!['0', ' ', '0']);
    assert(seq!['t'][0] != 's' && seq!['t'][0] != 'o' && seq!['t'][0] != 'c' && seq!['t'][0] != 'm'
        && seq!['t'][0] != 'a');
    let val = seq!['r', 'e', 'c', 'v', 'o', 'n', 'l', 'y'];
    assert("a=recvonly"@ =~= seq!['a', '='] + val);
    lemma_line(m, 'a', val);
    assert(val.take(7)[1] != "rtpmap:"@[1]);
    assert(val.take(6)[0] != "ptime:"@[0]);
}

/// The origin line brings the origin.
proof fn lemma_origin_line(m: DraftModel, origin: Seq<char>)
    requires
        text::laws::free_of_space(origin),
        m.origin_unicast.len() == 0,
    ensures
        m.with_line("o=- 0 0 IN IP4 "@ + origin) == (DraftModel { origin_unicast: origin, ..m }),
{
    lemma_tags();
    reveal_strlit("o=- 0 0 IN IP4 ");
    let minus = seq!['-'];
    let zero = seq!['0'];
    let inn = seq!['I', 'N'];
    let ip4 = seq!['I', 'P', '4'];
    let w5 = ip4 + seq![' '] + origin;
    let w4 = inn + seq![' '] + w5;
    let w3 = zero + seq![' '] + w4;
    let w2 = zero + seq![' '] + w3;
    let val = minus + seq![' '] + w2;
    assert("o=- 0 0 IN IP4 "@ + origin =~= seq!['o', '='] + val);
    if origin.len() > 0 {
        assert(val.last() == origin.last());
        assert(!text::is_space(origin[origin.len() - 1]));
    } else {
        assert(val.last() == ' ');
    }
    lemma_line(m, 'o', val);
    text::laws::lemma_words_one(origin);
    text::laws::lemma_words_behind(ip4, ' ', origin);
    text::laws::lemma_words_behind(inn, ' ', w5);
    text::laws::lemma_words_behind(zero, ' ', w4);
    text::laws::lemma_words_behind(zero, ' ', w3);
    text::laws::lemma_words_behind(minus, ' ', w2);
    if origin.len() > 0 {
        assert(text::words(val)[5] == origin);
    } else {
        assert(text::words(val).len() == 5);
        assert(origin =~= Seq::empty());
        assert(m.origin_unicast =~= origin);
    }
}

/// Dropping carriage returns at the end does not reach into a part that ends
/// otherwise.
proof fn lemma_crs_behind(a: Seq<char>, b: Seq<char>) -> (k: int)
    requires
        a.len() > 0,
        a.last() != '\r',
    ensures
        0 <= k <= b.len(),
        text::without_crs(a + b) == a + b.take(k),
    decreases b.len(),
{
    if b.len() > 0 && b.last() == '\r' {
        assert((a + b).drop_last() =~= a + b.drop_last());
        let k = lemma_crs_behind(a, b.drop_last());
        assert(b.drop_last().take(k) =~= b.take(k));
        k
    } else {
        if b.len() == 0 {
            assert(a + b =~= a);
        }
        assert(b.take(b.len() as int) =~= b);
        b.len() as int
    }
}

/// The origin line brings nothing but an origin, whatever stands in it.
proof fn lemma_any_origin_line(m: DraftModel, origin: Seq<char>)
    ensures
        ({
            let d = m.with_line("o=- 0 0 IN IP4 "@ + origin);
            d == (DraftModel { origin_unicast: d.origin_unicast, ..m })
        }),
{
    reveal(DraftModel::with_line);
    lemma_tags();
    reveal_strlit("o=- 0 0 IN IP4 ");
    let head = "o=- 0 0 IN IP4 "@;
    let k = lemma_crs_behind(head, origin);
    let val = head.skip(2) + origin.take(k);
    assert(head + origin.take(k) =~= seq!['o'] + seq!['='] + val);
    text::laws::lemma_find_behind(seq!['o'], '=', val);
}

/// The name line brings the name.
proof fn lemma_name_line(m: DraftModel, name: Seq<char>)
    requires
        name.len() > 0 ==> name.last() != '\r',
    ensures
        m.with_line("s="@ + name) == (DraftModel { session_name: name, ..m }),
{
    lemma_tags();
    reveal_strlit("s=");
    assert("s="@ + name =~= seq!['s', '='] + name);
    lemma_line(m, 's', name);
}

/// The connection line brings the address.
proof fn lemma_connection_line(m: DraftModel, addr: Seq<char>)
    requires
        text::laws::free_of_space(addr),
        text::laws::free_of(addr, '/'),
    ensures
        m.with_line("c=IN IP4 "@ + addr + "/32"@) == (if m.in_media {
            DraftModel { media_conn: Some(addr), ..m }
        } else {
            DraftModel { session_conn: Some(addr), ..m }
        }),
{
    lemma_tags();
    reveal_strlit("c=IN IP4 ");
    reveal_strlit("/32");
    let inn = seq!['I', 'N'];
    let ip4 = seq!['I', 'P', '4'];
    let last = addr + seq!['/'] + seq!['3', '2'];
    let w = ip4 + seq![' '] + last;
    let val = inn + seq![' '] + w;
    assert("c=IN IP4 "@ + addr + "/32"@ =~= seq!['c', '='] + val);
    assert(val.last() == '2');
    lemma_line(m, 'c', val);
    assert forall|i: int| 0 <= i < last.len() implies !text::is_space(#[trigger] last[i]) by {
        if i < addr.len() {
            assert(last[i] == addr[i]);
        }
    }
    text::laws::lemma_words_one(last);
    text::laws::lemma_words_behind(ip4, ' ', last);
    text::laws::lemma_words_behind(inn, ' ', w);
    assert(text::words(val)[2] == last);
    text::laws::lemma_pieces_behind(addr, '/', seq!['3', '2']);
}

/// The media line brings port and payload type.
proof fn lemma_media_line(m: DraftModel, s: SessionModel)
    ensures
        m.with_line(s.media_line()) == (DraftModel {
            in_media: true,
            port: Some(s.port),
            payload_type: Some(s.payload_type),
            ..m
        }),
{
    lemma_tags();
    reveal_strlit("m=audio ");
    reveal_strlit(" RTP/AVP ");
    reveal_strlit("audio");
    let port = text::decimal(s.port as nat);
    let pt = text::decimal(s.payload_type as nat);
    let proto = seq!['R', 'T', 'P', '/', 'A', 'V', 'P'];
    text::laws::lemma_decimal_plain(s.port as nat);
    text::laws::lemma_decimal_plain(s.payload_type as nat);
    let w2 = proto + seq![' '] + pt;
    let w1 = port + seq![' '] + w2;
    let val = "audio"@ + seq![' '] + w1;
    assert(s.media_line() =~= seq!['m', '='] + val);
    assert(val.last() == pt.last());
    lemma_line(m, 'm', val);
    text::laws::lemma_words_one(pt);
    text::laws::lemma_words_behind(proto, ' ', pt);
    text::laws::lemma_words_behind(port, ' ', w2);
    text::laws::lemma_words_behind("audio"@, ' ', w1);
    let ws = text::words(val);
    assert(ws[0] == "audio"@);
    assert(ws[1] == port);
    assert(ws[3] == pt);
    text::decimal_reads_back(s.port as nat, 0xffff);
    text::decimal_reads_back(s.payload_type as nat, 255);
}

/// The part of the mapping line behind the payload type is one word, and falls
/// into encoding, rate and channels.
proof fn lemma_encoding_part(s: SessionModel)
    ensures
        s.encoding_part().len() > 0,
        text::laws::free_of_space(s.encoding_part()),
        s.encoding_part().last() != '\r',
        text::pieces(s.encoding_part(), '/') == seq![
            s.profile.encoding.name(),
            text::decimal(s.profile.sample_rate as nat),
            text::decimal(s.profile.channels as nat),
        ],
{
    reveal_strlit("L24");
    reveal_strlit("L16");
    reveal_strlit("/");
    assert("/"@ =~= seq!['/']);
    let name = s.profile.encoding.name();
    let rate = text::decimal(s.profile.sample_rate as nat);
    let ch = text::decimal(s.profile.channels as nat);
    text::laws::lemma_decimal_plain(s.profile.sample_rate as nat);
    text::laws::lemma_decimal_plain(s.profile.channels as nat);
    let e1 = rate + seq!['/'] + ch;
    let enc = name + seq!['/'] + e1;
    assert(enc.last() == ch.last());
    assert forall|i: int| 0 <= i < enc.len() implies !text::is_space(#[trigger] enc[i]) by {
        if i < 3 {
            assert(enc[i] == name[i]);
        } else if i > 3 {
            assert(enc[i] == e1[i - 4]);
            if i - 4 < rate.len() {
                assert(e1[i - 4] == rate[i - 4]);
            } else if i - 4 > rate.len() {
                assert(e1[i - 4] == ch[i - 5 - rate.len()]);
            }
        }
    }
    text::laws::lemma_pieces_one(ch, '/');
    text::laws::lemma_pieces_behind(rate, '/', ch);
    assert(text::laws::free_of(name, '/'));
    text::laws::lemma_pieces_behind(name, '/', e1);
    assert(text::pieces(enc, '/') =~= seq![name, rate, ch]);
}

/// The encoding is found by its name.
proof fn lemma_encoding_name(e: crate::profile::Encoding)
    ensures
        super::encoding_named(e.name()) == Some(e),
{
    reveal_strlit("L24");
    reveal_strlit("L16");
    assert("L24"@[1] != "L16"@[1]);
}

/// What the value of the mapping line says.
proof fn lemma_rtpmap_value(s: SessionModel)
    ensures
        super::rtpmap_in(
            text::decimal(s.payload_type as nat) + " "@ + s.encoding_part(),
        ) == Some(
            RtpMap {
                payload_type: s.payload_type,
                encoding: s.profile.encoding,
                sample_rate: s.profile.sample_rate,
                channels: s.profile.channels,
            },
        ),
{
    let pt = text::decimal(s.payload_type as nat);
    let enc = s.encoding_part();
    let rest = pt + " "@ + enc;
    assert(" "@ =~= seq![' ']) by {
        reveal_strlit(" ");
    }
    text::laws::lemma_decimal_plain(s.payload_type as nat);
    lemma_encoding_part(s);
    text::laws::lemma_words_one(enc);
    text::laws::lemma_words_behind(pt, ' ', enc);
    assert(text::words(rest) =~= seq![pt, enc]);
    lemma_encoding_name(s.profile.encoding);
    text::decimal_reads_back(s.payload_type as nat, 255);
    text::decimal_reads_back(s.profile.sample_rate as nat, 0xffff_ffff);
    text::decimal_reads_back(s.profile.channels as nat, 255);
}

/// An attribute with a known name brings its value.
proof fn lemma_attribute(m: DraftModel, name: Seq<char>, rest: Seq<char>)
    requires
        rest.len() > 0 ==> rest.last() != '\r',
        name.len() > 0 ==> name.last() != '\r',
    ensures
        m.with_line(seq!['a', '='] + (name + rest)) == m.with_attribute(name + rest),
        text::stripped(name + rest, name) == Some(rest),
{
    lemma_tags();
    let val = name + rest;
    if rest.len() > 0 {
        assert(val.last() == rest.last());
    } else if name.len() > 0 {
        assert(val.last() == name.last());
    }
    lemma_line(m, 'a', val);
    assert(val.take(name.len() as int) =~= name);
    assert(val.skip(name.len() as int) =~= rest);
}

/// The mapping line brings encoding, rate and channels.
proof fn lemma_rtpmap_line(m: DraftModel, s: SessionModel)
    ensures
        m.with_line(s.rtpmap_line()) == (DraftModel {
            rtpmap: Some(
                RtpMap {
                    payload_type: s.payload_type,
                    encoding: s.profile.encoding,
                    sample_rate: s.profile.sample_rate,
                    channels: s.profile.channels,
                },
            ),
            ..m
        }),
{
    let enc = s.encoding_part();
    let rest = text::decimal(s.payload_type as nat) + " "@ + enc;
    lemma_rtpmap_value(s);
    lemma_encoding_part(s);
    assert(rest.last() == enc.last());
    assert("rtpmap:"@.last() == ':') by {
        reveal_strlit("rtpmap:");
    }
    lemma_attribute(m, "rtpmap:"@, rest);
    assert("a=rtpmap:"@ + rest =~= seq!['a', '='] + ("rtpmap:"@ + rest)) by {
        reveal_strlit("a=rtpmap:");
        reveal_strlit("rtpmap:");
    }
}

/// A text without white space has nothing to trim.
proof fn lemma_trimmed_plain(s: Seq<char>)
    requires
        s.len() > 0,
        text::laws::free_of_space(s),
    ensures
        text::trimmed(s) == s,
{
    assert(!text::is_space(s[0]));
    assert(!text::is_space(s[s.len() - 1]));
    text::lemma_prefix_len(s, text::space(), 0);
    assert(s.skip(0) =~= s);
}

/// The packet time in milliseconds holds digits and a point.
proof fn lemma_millis_plain(us: u32)
    ensures
        ptime::millis(us).len() > 0,
        text::laws::free_of_space(ptime::millis(us)),
        text::laws::free_of(ptime::millis(us), '\n'),
        ptime::millis(us).last() != '\r',
{
    reveal_strlit(".");
    let q = (us / 1000) as nat;
    let f = (us % 1000) as nat;
    text::laws::lemma_decimal_plain(q);
    let whole = text::decimal(q);
    let s = ptime::millis(us);
    let frac = ptime::thousandths(f);
    assert forall|i: int| 0 <= i < s.len() implies !text::is_space(#[trigger] s[i]) && s[i] != '\n'
        && s[i] != '\r' by {
        if i < whole.len() {
            assert(s[i] == whole[i]);
        } else if i > whole.len() {
            assert(s[i] == frac[i - whole.len() - 1]);
        }
    }
    assert(s[s.len() - 1] != '\r');
}

/// The packet time line brings the packet time.
proof fn lemma_ptime_line(m: DraftModel, us: u32)
    ensures
        m.with_line("a=ptime:"@ + ptime::millis(us)) == (DraftModel { ptime_us: Some(us), ..m }),
{
    lemma_tags();
    reveal_strlit("a=ptime:");
    reveal_strlit("ptime:");
    reveal_strlit("rtpmap:");
    let t = ptime::millis(us);
    lemma_millis_plain(us);
    let val = "ptime:"@ + t;
    assert("a=ptime:"@ + t =~= seq!['a', '='] + val);
    assert(val.last() == t.last());
    lemma_line(m, 'a', val);
    if text::starts(val, "rtpmap:"@) {
        assert(val.take(7)[0] == "rtpmap:"@[0]);
    }
    assert(val.take(6) =~= "ptime:"@);
    assert(val.skip(6) =~= t);
    lemma_trimmed_plain(t);
    ptime::millis_reads_back(us);
}

/// The clock reference line brings identity and domain.
proof fn lemma_refclk_line(m: DraftModel, rc: ClockModel)
    requires
        text::laws::free_of(rc.gmid, ':'),
    ensures
        m.with_line(
            "a=ts-refclk:ptp=IEEE1588-2008:"@ + rc.gmid + ":"@ + text::decimal(rc.domain as nat),
        ) == (DraftModel { refclk: Some(rc), ..m }),
{
    lemma_tags();
    reveal_strlit("a=ts-refclk:ptp=IEEE1588-2008:");
    reveal_strlit(":");
    reveal_strlit("rtpmap:");
    reveal_strlit("ptime:");
    reveal_strlit("ts-refclk:ptp=");
    let dom = text::decimal(rc.domain as nat);
    text::laws::lemma_decimal_plain(rc.domain as nat);
    let ieee = seq!['I', 'E', 'E', 'E', '1', '5', '8', '8', '-', '2', '0', '0', '8'];
    let p1 = rc.gmid + seq![':'] + dom;
    let rest = ieee + seq![':'] + p1;
    let val = "ts-refclk:ptp="@ + rest;
    let line = "a=ts-refclk:ptp=IEEE1588-2008:"@ + rc.gmid + ":"@ + dom;
    assert(line =~= seq!['a', '='] + val);
    assert(val.last() == dom.last());
    lemma_line(m, 'a', val);
    if text::starts(val, "rtpmap:"@) {
        assert(val.take(7)[0] == "rtpmap:"@[0]);
    }
    if text::starts(val, "ptime:"@) {
        assert(val.take(6)[0] == "ptime:"@[0]);
    }
    assert(val.take(14) =~= "ts-refclk:ptp="@);
    assert(val.skip(14) =~= rest);
    text::laws::lemma_pieces_one(dom, ':');
    text::laws::lemma_pieces_behind(rc.gmid, ':', dom);
    text::laws::lemma_pieces_behind(ieee, ':', p1);
    let ps = text::pieces(rest, ':');
    assert(ps[1] == rc.gmid);
    assert(ps[2] == dom);
    text::decimal_reads_back(rc.domain as nat, 255);
}

/// The media clock line brings the offset.
proof fn lemma_mediaclk_line(m: DraftModel, offset: u32)
    ensures
        m.with_line("a=mediaclk:direct="@ + text::decimal(offset as nat)) == (DraftModel {
            mediaclk_offset: offset,
            ..m
        }),
{
    lemma_tags();
    reveal_strlit("a=mediaclk:direct=");
    reveal_strlit("rtpmap:");
    reveal_strlit("ptime:");
    reveal_strlit("ts-refclk:ptp=");
    reveal_strlit("mediaclk:direct=");
    let d = text::decimal(offset as nat);
    text::laws::lemma_decimal_plain(offset as nat);
    let val = "mediaclk:direct="@ + d;
    assert("a=mediaclk:direct="@ + d =~= seq!['a', '='] + val);
    assert(val.last() == d.last());
    lemma_line(m, 'a', val);
    if text::starts(val, "rtpmap:"@) {
        assert(val.take(7)[0] == "rtpmap:"@[0]);
    }
    if text::starts(val, "ptime:"@) {
        assert(val.take(6)[0] == "ptime:"@[0]);
    }
    if text::starts(val, "ts-refclk:ptp="@) {
        assert(val.take(14)[0] == "ts-refclk:ptp="@[0]);
    }
    assert(val.take(16) =~= "mediaclk:direct="@);
    assert(val.skip(16) =~= d);
    lemma_trimmed_plain(d);
    text::decimal_reads_back(offset as nat, 0xffff_ffff);
}

/// Whether the texts of a session can stand in the lines of a description, but
/// for the origin: the name is one line, the group holds no separators of its
/// line, the clock identity none of its attribute, and the origin no line feed.
pub open spec fn fits_but_origin(s: SessionModel) -> bool {
    &&& text::laws::free_of(s.session_name, '\n')
    &&& s.session_name.len() > 0 ==> s.session_name.last() != '\r'
    &&& text::laws::free_of(s.origin_unicast, '\n')
    &&& text::laws::free_of_space(s.multicast_addr)
    &&& text::laws::free_of(s.multicast_addr, '/')
    &&& (s.refclk matches Some(rc) ==> text::laws::free_of(rc.gmid, ':') && text::laws::free_of(rc.gmid, '\n'))
}

/// Whether the texts of a session can stand in the lines of a description: the
/// origin, too, holds no separators of its line.
pub open spec fn fits_lines(s: SessionModel) -> bool {
    &&& fits_but_origin(s)
    &&& text::laws::free_of_space(s.origin_unicast)
}

/// No line of a description holds a line feed.
proof fn lemma_lines_are_lines(s: SessionModel)
    requires
        fits_but_origin(s),
    ensures
        forall|i: int|
            0 <= i < s.sdp_lines().len() ==> text::laws::free_of(#[trigger] s.sdp_lines()[i], '\n'),
{
    reveal_strlit("v=0");
    reveal_strlit("o=- 0 0 IN IP4 ");
    reveal_strlit("s=");
    reveal_strlit("c=IN IP4 ");
    reveal_strlit("/32");
    reveal_strlit("t=0 0");
    reveal_strlit("m=audio ");
    reveal_strlit(" RTP/AVP ");
    reveal_strlit("a=rtpmap:");
    reveal_strlit(" ");
    reveal_strlit("/");
    reveal_strlit("L24");
    reveal_strlit("L16");
    reveal_strlit("a=ptime:");
    reveal_strlit("a=recvonly");
    reveal_strlit("a=ts-refclk:ptp=IEEE1588-2008:");
    reveal_strlit(":");
    reveal_strlit("a=mediaclk:direct=");
    text::laws::lemma_decimal_plain(s.port as nat);
    text::laws::lemma_decimal_plain(s.payload_type as nat);
    text::laws::lemma_decimal_plain(s.profile.sample_rate as nat);
    text::laws::lemma_decimal_plain(s.profile.channels as nat);
    text::laws::lemma_decimal_plain(s.mediaclk_offset as nat);
    lemma_millis_plain(s.profile.ptime_us);
    if let Some(rc) = s.refclk {
        text::laws::lemma_decimal_plain(rc.domain as nat);
    }
    assert forall|i: int| 0 <= i < s.multicast_addr.len() implies #[trigger] s.multicast_addr[i]
        != '\n' by {
        assert(!text::is_space(s.multicast_addr[i]));
    }
}

/// A session that was written as a description is read back as it was.
pub proof fn built_session_parses_back(s: SessionModel)
    requires
        fits_lines(s),
    ensures
        super::parsed(text::joined(s.sdp_lines())) == Ok::<SessionModel, Seq<char>>(s),
{
    lemma_origin_line(DraftModel::blank(), s.origin_unicast);
    lemma_built(s, s.origin_unicast);
}

/// A session that was written as a description is read back as it was, but for
/// the origin, whatever stands in that.
pub proof fn built_stream_parses_back(s: SessionModel)
    requires
        fits_but_origin(s),
    ensures
        super::parsed(text::joined(s.sdp_lines())) matches Ok(m) && m == (SessionModel {
            origin_unicast: m.origin_unicast,
            ..s
        }),
{
    let line = "o=- 0 0 IN IP4 "@ + s.origin_unicast;
    lemma_any_origin_line(DraftModel::blank(), s.origin_unicast);
    lemma_built(s, DraftModel::blank().with_line(line).origin_unicast);
}

/// What the lines of every description bring, with `origin` as what the origin
/// line brings.
spec fn front(s: SessionModel, origin: Seq<char>) -> DraftModel {
    DraftModel {
        session_name: s.session_name,
        origin_unicast: origin,
        session_conn: Some(s.multicast_addr),
        port: Some(s.port),
        payload_type: Some(s.payload_type),
        rtpmap: Some(
            RtpMap {
                payload_type: s.payload_type,
                encoding: s.profile.encoding,
                sample_rate: s.profile.sample_rate,
                channels: s.profile.channels,
            },
        ),
        ptime_us: Some(s.profile.ptime_us),
        in_media: true,
        ..DraftModel::blank()
    }
}

/// The lines of every description, one by one.
proof fn lemma_front(s: SessionModel, origin: Seq<char>)
    requires
        fits_but_origin(s),
        DraftModel::blank().with_line("o=- 0 0 IN IP4 "@ + s.origin_unicast) == (DraftModel {
            origin_unicast: origin,
            ..DraftModel::blank()
        }),
    ensures
        after_lines(DraftModel::blank(), s.sdp_lines(), 9) == front(s, origin),
{
    let ls = s.sdp_lines();
    let d1 = DraftModel::blank();
    let d2 = DraftModel { origin_unicast: origin, ..d1 };
    let d3 = DraftModel { session_name: s.session_name, ..d2 };
    let d4 = DraftModel { session_conn: Some(s.multicast_addr), ..d3 };
    let d6 = d4.with_line(s.media_line());
    let d7 = d6.with_line(s.rtpmap_line());
    let d8 = DraftModel { ptime_us: Some(s.profile.ptime_us), ..d7 };
    lemma_plain_lines(d1);
    lemma_name_line(d2, s.session_name);
    lemma_connection_line(d3, s.multicast_addr);
    lemma_plain_lines(d4);
    lemma_media_line(d4, s);
    lemma_rtpmap_line(d6, s);
    lemma_ptime_line(d7, s.profile.ptime_us);
    lemma_plain_lines(d8);
    assert(after_lines(d1, ls, 0) == d1);
    assert(after_lines(d1, ls, 1) == d1);
    assert(after_lines(d1, ls, 2) == d2);
    assert(after_lines(d1, ls, 3) == d3);
    assert(after_lines(d1, ls, 4) == d4);
    assert(after_lines(d1, ls, 5) == d4);
    assert(after_lines(d1, ls, 6) == d6);
    assert(after_lines(d1, ls, 7) == d7);
    assert(after_lines(d1, ls, 8) == d8);
}

/// What comes of the description of a session whose origin line brings `origin`.
proof fn lemma_built(s: SessionModel, origin: Seq<char>)
    requires
        fits_but_origin(s),
        DraftModel::blank().with_line("o=- 0 0 IN IP4 "@ + s.origin_unicast) == (DraftModel {
            origin_unicast: origin,
            ..DraftModel::blank()
        }),
    ensures
        super::parsed(text::joined(s.sdp_lines())) == Ok::<SessionModel, Seq<char>>(
            SessionModel { origin_unicast: origin, ..s },
        ),
{
    let ls = s.sdp_lines();
    lemma_lines_are_lines(s);
    text::laws::joined_lines_come_back(ls);
    let d0 = DraftModel::blank();
    let d9 = front(s, origin);
    lemma_front(s, origin);
    lemma_take_lines(d0, ls, 9);
    let tail = ls.skip(9);
    assert(d0.with_lines(ls) == d9.with_lines(tail));
    match s.refclk {
        Some(rc) => {
            lemma_refclk_line(d9, rc);
            let d10 = d9.with_line(tail[0]);
            lemma_mediaclk_line(d10, s.mediaclk_offset);
            assert(tail.drop_first().drop_first() =~= Seq::empty());
            assert(d9.with_lines(tail) == d10.with_line(tail[1])) by {
                reveal_with_fuel(DraftModel::with_lines, 3);
            }
        },
        None => {
            lemma_mediaclk_line(d9, s.mediaclk_offset);
            assert(tail.drop_first() =~= Seq::empty());
            assert(d9.with_lines(tail) == d9.with_line(tail[0])) by {
                reveal_with_fuel(DraftModel::with_lines, 2);
            }
        },
    }
}

/// The draft after the first `n` of the lines.
spec fn after_lines(d: DraftModel, lines: Seq<Seq<char>>, n: nat) -> DraftModel
    decreases n,
{
    if n == 0 {
        d
    } else {
        after_lines(d, lines, (n - 1) as nat).with_line(lines[n - 1])
    }
}

/// Reading lines can stop anywhere and go on.
proof fn lemma_take_lines(d: DraftModel, lines: Seq<Seq<char>>, n: nat)
    requires
        n <= lines.len(),
    ensures
        d.with_lines(lines) == after_lines(d, lines, n).with_lines(lines.skip(n as int)),
    decreases n,
{
    if n == 0 {
        assert(lines.skip(0) =~= lines);
    } else {
        lemma_take_lines(d, lines, (n - 1) as nat);
        assert(lines.skip(n - 1).drop_first() =~= lines.skip(n as int));
    }
}

// ---------------------------------------------------------------------------
// Attributes that are not known
// ---------------------------------------------------------------------------
/// Whether the text of an attribute is of no kind that is read, and stands in one
/// line.
pub open spec fn unknown_attribute(x: Seq<char>) -> bool {
    &&& !text::starts(x, "rtpmap:"@)
    &&& !text::starts(x, "ptime:"@)
    &&& !text::starts(x, "ts-refclk:ptp="@)
    &&& !text::starts(x, "mediaclk:direct="@)
    &&& text::laws::free_of(x, '\n')
}

/// The front of a text starts with nothing that the text does not start with.
proof fn lemma_front_starts(x: Seq<char>, k: int, p: Seq<char>)
    requires
        0 <= k <= x.len(),
        !text::starts(x, p),
    ensures
        !text::starts(x.take(k), p),
{
    if text::starts(x.take(k), p) {
        assert(x.take(k).take(p.len() as int) =~= x.take(p.len() as int));
    }
}

/// Lines in two parts are read one part after the other.
proof fn lemma_lines_in_parts(d: DraftModel, a: Seq<Seq<char>>, b: Seq<Seq<char>>)
    ensures
        d.with_lines(a + b) == d.with_lines(a).with_lines(b),
    decreases a.len(),
{
    if a.len() == 0 {
        assert(a + b =~= b);
    } else {
        assert((a + b).drop_first() =~= a.drop_first() + b);
        assert((a + b)[0] == a[0]);
        lemma_lines_in_parts(d.with_line(a[0]), a.drop_first(), b);
    }
}

/// An attribute that is not known is passed over, wherever its line stands: at
/// the start of the description or behind any line of it, the description reads
/// as it does without that line, as a session or as the same error.
pub proof fn unknown_attribute_is_passed_over(
    front: Seq<char>,
    x: Seq<char>,
    rest: Seq<char>,
)
    requires
        front.len() == 0 || front.last() == '\n',
        unknown_attribute(x),
    ensures
        super::parsed(front + ("a="@ + x + "\r\n"@) + rest) == super::parsed(front + rest),
{
    let line = "a="@ + x;
    let d = DraftModel::blank().with_lines(text::lines(front));
    reveal_strlit("a=");
    assert(text::laws::free_of(line, '\n')) by {
        assert forall|k: int| 0 <= k < line.len() implies #[trigger] line[k] != '\n' by {
            if k >= 2 {
                assert(line[k] == x[k - 2]);
            }
        }
    }
    assert(d.with_line(line) == d) by {
        reveal(DraftModel::with_line);
        lemma_tags();
        let k = lemma_crs_behind("a="@, x);
        lemma_front_starts(x, k, "rtpmap:"@);
        lemma_front_starts(x, k, "ptime:"@);
        lemma_front_starts(x, k, "ts-refclk:ptp="@);
        lemma_front_starts(x, k, "mediaclk:direct="@);
        assert("a="@ + x.take(k) =~= seq!['a'] + seq!['='] + x.take(k));
        text::laws::lemma_find_behind(seq!['a'], '=', x.take(k));
    }
    let ls = text::lines(rest);
    text::laws::lemma_lines_behind(line, rest);
    text::laws::lemma_lines_apart(front, line + "\r\n"@ + rest);
    text::laws::lemma_lines_apart(front, rest);
    assert(front + (line + "\r\n"@) + rest =~= front + (line + "\r\n"@ + rest));
    lemma_lines_in_parts(DraftModel::blank(), text::lines(front), seq![line] + ls);
    lemma_lines_in_parts(DraftModel::blank(), text::lines(front), ls);
    assert((seq![line] + ls).drop_first() =~= ls);
}

} // verus!
