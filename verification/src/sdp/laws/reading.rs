//! Laws of what descriptions say and of what is read from those of others: what
//! may be missing, what must not be, and what counts where something is said
//! twice.

use super::super::{parsed, ClockModel, DraftModel, SessionModel};
use super::{
    fits_lines, lemma_connection_line, lemma_line, lemma_media_line, lemma_origin_line,
    lemma_ptime_line, lemma_rtpmap_line, lemma_tags,
};
use crate::profile::{Encoding, StreamProfile};
use crate::ptime;
use crate::text;
use vstd::prelude::*;

verus! {

/// A description begins with the lines that every description has, in the order
/// of the standard, and says the group, the port, the payload type, the encoding,
/// the rate, the channels, the packet time and the clock of its session. There is
/// a line for the reference clock just where the session has one.
pub proof fn description_says_what_the_session_is(s: SessionModel)
    ensures
        s.sdp_lines()[0] == "v=0"@,
        s.sdp_lines()[1] == "o=- 0 0 IN IP4 "@ + s.origin_unicast,
        s.sdp_lines()[2] == "s="@ + s.session_name,
        s.sdp_lines()[3] == "c=IN IP4 "@ + s.multicast_addr + "/32"@,
        s.sdp_lines()[4] == "t=0 0"@,
        s.sdp_lines()[5] == "m=audio "@ + text::decimal(s.port as nat) + " RTP/AVP "@
            + text::decimal(s.payload_type as nat),
        s.sdp_lines()[6] == "a=rtpmap:"@ + text::decimal(s.payload_type as nat) + " "@ + (
        match s.profile.encoding {
            Encoding::L24 => "L24"@,
            Encoding::L16 => "L16"@,
        }) + "/"@ + text::decimal(s.profile.sample_rate as nat) + "/"@ + text::decimal(
            s.profile.channels as nat,
        ),
        s.sdp_lines()[7] == "a=ptime:"@ + ptime::millis(s.profile.ptime_us),
        s.sdp_lines()[8] == "a=recvonly"@,
        s.refclk matches Some(rc) ==> s.sdp_lines().len() == 11 && s.sdp_lines()[9]
            == "a=ts-refclk:ptp=IEEE1588-2008:"@ + rc.gmid + ":"@ + text::decimal(
            rc.domain as nat,
        ),
        s.refclk is None ==> s.sdp_lines().len() == 10,
        s.sdp_lines().last() == "a=mediaclk:direct="@ + text::decimal(s.mediaclk_offset as nat),
{
    let e = match s.profile.encoding {
        Encoding::L24 => "L24"@,
        Encoding::L16 => "L16"@,
    };
    let pt = text::decimal(s.payload_type as nat);
    let rate = text::decimal(s.profile.sample_rate as nat);
    let n = text::decimal(s.profile.channels as nat);
    assert(s.sdp_lines()[6] =~= "a=rtpmap:"@ + pt + " "@ + e + "/"@ + rate + "/"@ + n);
}

// ---------------------------------------------------------------------------
// One line more
// ---------------------------------------------------------------------------
/// What is read from whole lines with one more behind them.
proof fn lemma_line_more(front: Seq<char>, line: Seq<char>)
    requires
        front.len() == 0 || front.last() == '\n',
        text::laws::free_of(line, '\n'),
    ensures
        parsed(front + line + "\r\n"@) == DraftModel::blank().with_lines(
            text::lines(front),
        ).with_line(line).finished(),
{
    let d = DraftModel::blank();
    let none = Seq::<char>::empty();
    let tail = line + "\r\n"@;
    text::laws::lemma_lines_behind(line, none);
    assert(line + "\r\n"@ + none =~= tail);
    assert(front + line + "\r\n"@ =~= front + tail);
    text::laws::lemma_lines_apart(front, tail);
    assert(text::lines(none) =~= Seq::empty());
    assert(text::lines(tail) =~= seq![line]);
    super::lemma_lines_in_parts(d, text::lines(front), seq![line]);
    let f = d.with_lines(text::lines(front));
    assert(seq![line].drop_first() =~= Seq::empty());
    assert(f.with_lines(seq![line]) == f.with_line(line)) by {
        reveal_with_fuel(DraftModel::with_lines, 2);
    }
}

/// What stands in the draft once a whole description was read.
spec fn draft_of(s: SessionModel) -> DraftModel {
    DraftModel {
        refclk: s.refclk,
        mediaclk_offset: s.mediaclk_offset,
        ..super::front(s, s.origin_unicast)
    }
}

/// A whole description, read line by line.
proof fn lemma_draft(s: SessionModel)
    requires
        fits_lines(s),
    ensures
        DraftModel::blank().with_lines(text::lines(text::joined(s.sdp_lines()))) == draft_of(s),
        text::joined(s.sdp_lines()).last() == '\n',
        draft_of(s).finished() == Ok::<SessionModel, Seq<char>>(s),
{
    let ls = s.sdp_lines();
    super::lemma_lines_are_lines(s);
    text::laws::joined_lines_come_back(ls);
    lemma_origin_line(DraftModel::blank(), s.origin_unicast);
    super::lemma_front(s, s.origin_unicast);
    let d0 = DraftModel::blank();
    let d9 = super::front(s, s.origin_unicast);
    super::lemma_take_lines(d0, ls, 9);
    let tail = ls.skip(9);
    match s.refclk {
        Some(rc) => {
            super::lemma_refclk_line(d9, rc);
            let d10 = d9.with_line(tail[0]);
            super::lemma_mediaclk_line(d10, s.mediaclk_offset);
            assert(tail.drop_first().drop_first() =~= Seq::empty());
            assert(d9.with_lines(tail) == d10.with_line(tail[1])) by {
                reveal_with_fuel(DraftModel::with_lines, 3);
            }
        },
        None => {
            super::lemma_mediaclk_line(d9, s.mediaclk_offset);
            assert(tail.drop_first() =~= Seq::empty());
            assert(d9.with_lines(tail) == d9.with_line(tail[0])) by {
                reveal_with_fuel(DraftModel::with_lines, 2);
            }
        },
    }
    reveal_strlit("\r\n");
}

/// Of two addresses the one in the media part counts: with a connection line
/// behind it a description is read as it is without, but for the group.
pub proof fn connection_of_the_media_counts(s: SessionModel, addr: Seq<char>)
    requires
        fits_lines(s),
        text::laws::free_of_space(addr),
        text::laws::free_of(addr, '/'),
    ensures
        parsed(text::joined(s.sdp_lines()) + ("c=IN IP4 "@ + addr + "/32"@) + "\r\n"@) == Ok::<
            SessionModel,
            Seq<char>,
        >(SessionModel { multicast_addr: addr, ..s }),
{
    let line = "c=IN IP4 "@ + addr + "/32"@;
    lemma_draft(s);
    reveal_strlit("c=IN IP4 ");
    reveal_strlit("/32");
    assert forall|i: int| 0 <= i < line.len() implies #[trigger] line[i] != '\n' by {
        if 9 <= i < 9 + addr.len() {
            assert(line[i] == addr[i - 9]);
            assert(!text::is_space(addr[i - 9]));
        }
    }
    lemma_line_more(text::joined(s.sdp_lines()), line);
    lemma_connection_line(draft_of(s), addr);
}

/// Of two packet times the later one counts.
pub proof fn later_packet_time_counts(s: SessionModel, us: u32)
    requires
        fits_lines(s),
    ensures
        parsed(text::joined(s.sdp_lines()) + ("a=ptime:"@ + ptime::millis(us)) + "\r\n"@) == Ok::<
            SessionModel,
            Seq<char>,
        >(SessionModel { profile: StreamProfile { ptime_us: us, ..s.profile }, ..s }),
{
    let line = "a=ptime:"@ + ptime::millis(us);
    lemma_draft(s);
    super::lemma_millis_plain(us);
    reveal_strlit("a=ptime:");
    assert forall|i: int| 0 <= i < line.len() implies #[trigger] line[i] != '\n' by {
        if 8 <= i {
            assert(line[i] == ptime::millis(us)[i - 8]);
        }
    }
    lemma_line_more(text::joined(s.sdp_lines()), line);
    lemma_ptime_line(draft_of(s), us);
}

/// A stream of another format is read as what it is: the mapping line that comes
/// last tells encoding, rate and channels, and where it tells no channels there
/// is one. The payload type is that of the media line.
pub proof fn mapping_without_channels_means_one(s: SessionModel, pt: u8, rate: u32, wide: bool)
    requires
        fits_lines(s),
    ensures
        parsed(
            text::joined(s.sdp_lines()) + ("a=rtpmap:"@ + text::decimal(pt as nat) + (if wide {
                " L24/"@
            } else {
                " L16/"@
            }) + text::decimal(rate as nat)) + "\r\n"@,
        ) == Ok::<SessionModel, Seq<char>>(
            SessionModel {
                profile: StreamProfile {
                    encoding: if wide {
                        Encoding::L24
                    } else {
                        Encoding::L16
                    },
                    sample_rate: rate,
                    channels: 1,
                    ..s.profile
                },
                ..s
            },
        ),
{
    let num = text::decimal(pt as nat);
    let hz = text::decimal(rate as nat);
    let e = if wide {
        "L24"@
    } else {
        "L16"@
    };
    let enc = e + seq!['/'] + hz;
    let rest = num + seq![' '] + enc;
    let val = "rtpmap:"@ + rest;
    let line = "a=rtpmap:"@ + num + (if wide {
        " L24/"@
    } else {
        " L16/"@
    }) + hz;
    lemma_draft(s);
    lemma_tags();
    reveal_strlit("a=rtpmap:");
    reveal_strlit("rtpmap:");
    reveal_strlit(" L24/");
    reveal_strlit(" L16/");
    reveal_strlit("L24");
    reveal_strlit("L16");
    text::laws::lemma_decimal_plain(pt as nat);
    text::laws::lemma_decimal_plain(rate as nat);
    assert(line =~= seq!['a', '='] + val);
    assert forall|i: int| 0 <= i < enc.len() implies !text::is_space(#[trigger] enc[i]) by {
        if i >= 4 {
            assert(enc[i] == hz[i - 4]);
        }
    }
    assert forall|i: int| 0 <= i < line.len() implies #[trigger] line[i] != '\n' by {
        if 9 <= i < 9 + num.len() {
            assert(line[i] == num[i - 9]);
        } else if i >= 9 + num.len() + 5 {
            assert(line[i] == hz[i - 9 - num.len() - 5]);
        }
    }
    assert(val.last() == hz.last());
    lemma_line_more(text::joined(s.sdp_lines()), line);
    lemma_line(draft_of(s), 'a', val);
    assert(val.take(7) =~= "rtpmap:"@);
    assert(val.skip(7) =~= rest);
    text::laws::lemma_words_one(enc);
    text::laws::lemma_words_behind(num, ' ', enc);
    assert(text::words(rest) =~= seq![num, enc]);
    assert(e[0] == 'L');
    text::laws::lemma_pieces_one(hz, '/');
    text::laws::lemma_pieces_behind(e, '/', hz);
    assert(text::pieces(enc, '/') =~= seq![e, hz]);
    super::lemma_encoding_name(if wide {
        Encoding::L24
    } else {
        Encoding::L16
    });
    text::decimal_reads_back(pt as nat, 255);
    text::decimal_reads_back(rate as nat, 0xffff_ffff);
}

/// A reference clock without a domain is one of domain 0.
pub proof fn reference_without_a_domain_means_zero(s: SessionModel, gmid: Seq<char>)
    requires
        fits_lines(s),
        text::laws::free_of(gmid, ':'),
        text::laws::free_of(gmid, '\n'),
        gmid.len() > 0 ==> gmid.last() != '\r',
    ensures
        parsed(
            text::joined(s.sdp_lines()) + ("a=ts-refclk:ptp=IEEE1588-2008:"@ + gmid) + "\r\n"@,
        ) == Ok::<SessionModel, Seq<char>>(
            SessionModel { refclk: Some(ClockModel { gmid, domain: 0 }), ..s },
        ),
{
    let line = "a=ts-refclk:ptp=IEEE1588-2008:"@ + gmid;
    lemma_draft(s);
    lemma_tags();
    reveal_strlit("a=ts-refclk:ptp=IEEE1588-2008:");
    reveal_strlit("rtpmap:");
    reveal_strlit("ptime:");
    reveal_strlit("ts-refclk:ptp=");
    let ieee = seq!['I', 'E', 'E', 'E', '1', '5', '8', '8', '-', '2', '0', '0', '8'];
    let rest = ieee + seq![':'] + gmid;
    let val = "ts-refclk:ptp="@ + rest;
    assert(line =~= seq!['a', '='] + val);
    assert forall|i: int| 0 <= i < line.len() implies #[trigger] line[i] != '\n' by {
        if i >= 30 {
            assert(line[i] == gmid[i - 30]);
        }
    }
    if gmid.len() > 0 {
        assert(val.last() == gmid.last());
    } else {
        assert(val.last() == ':');
    }
    lemma_line_more(text::joined(s.sdp_lines()), line);
    lemma_line(draft_of(s), 'a', val);
    if text::starts(val, "rtpmap:"@) {
        assert(val.take(7)[0] == "rtpmap:"@[0]);
    }
    if text::starts(val, "ptime:"@) {
        assert(val.take(6)[0] == "ptime:"@[0]);
    }
    assert(val.take(14) =~= "ts-refclk:ptp="@);
    assert(val.skip(14) =~= rest);
    text::laws::lemma_pieces_one(gmid, ':');
    text::laws::lemma_pieces_behind(ieee, ':', gmid);
    assert(text::pieces(rest, ':') =~= seq![ieee, gmid]);
}

// ---------------------------------------------------------------------------
// What must not be missing
// ---------------------------------------------------------------------------
/// The three lines that a description needs hold no line feed.
proof fn lemma_three_lines(s: SessionModel)
    requires
        text::laws::free_of_space(s.multicast_addr),
    ensures
        text::laws::free_of(s.media_line(), '\n'),
        text::laws::free_of(s.rtpmap_line(), '\n'),
        text::laws::free_of("c=IN IP4 "@ + s.multicast_addr + "/32"@, '\n'),
{
    let plain = SessionModel {
        session_name: Seq::empty(),
        origin_unicast: Seq::empty(),
        multicast_addr: Seq::empty(),
        refclk: None,
        ..s
    };
    super::lemma_lines_are_lines(plain);
    assert(plain.sdp_lines()[5] == s.media_line());
    assert(plain.sdp_lines()[6] == s.rtpmap_line());
    let line = "c=IN IP4 "@ + s.multicast_addr + "/32"@;
    reveal_strlit("c=IN IP4 ");
    reveal_strlit("/32");
    assert forall|i: int| 0 <= i < line.len() implies #[trigger] line[i] != '\n' by {
        if 9 <= i < 9 + s.multicast_addr.len() {
            assert(line[i] == s.multicast_addr[i - 9]);
            assert(!text::is_space(s.multicast_addr[i - 9]));
        }
    }
}

/// Two lines, read one after the other.
proof fn lemma_two(a: Seq<char>, b: Seq<char>)
    requires
        text::laws::free_of(a, '\n'),
        text::laws::free_of(b, '\n'),
    ensures
        parsed(text::joined(seq![a, b])) == DraftModel::blank().with_line(a).with_line(
            b,
        ).finished(),
{
    let ls = seq![a, b];
    text::laws::joined_lines_come_back(ls);
    assert(ls.drop_first().drop_first() =~= Seq::empty());
    reveal_with_fuel(DraftModel::with_lines, 3);
}

/// Three lines make a description: the media, the mapping and the group. Such a
/// one has no name, a packet time of 1 ms and no reference clock. Where one of
/// the three is missing there is no session, and the first that is missing is
/// named.
pub proof fn three_lines_make_a_description(s: SessionModel)
    requires
        text::laws::free_of_space(s.multicast_addr),
        text::laws::free_of(s.multicast_addr, '/'),
    ensures
        ({
            let media = "m=audio "@ + text::decimal(s.port as nat) + " RTP/AVP "@ + text::decimal(
                s.payload_type as nat,
            );
            let mapping = s.sdp_lines()[6];
            let group = "c=IN IP4 "@ + s.multicast_addr + "/32"@;
            &&& parsed(text::joined(seq![media, mapping, group])) == Ok::<SessionModel, Seq<char>>(
                SessionModel {
                    session_name: Seq::empty(),
                    origin_unicast: Seq::empty(),
                    multicast_addr: s.multicast_addr,
                    port: s.port,
                    payload_type: s.payload_type,
                    profile: StreamProfile { ptime_us: 1_000, ..s.profile },
                    refclk: None,
                    mediaclk_offset: 0,
                },
            )
            &&& parsed(text::joined(seq![mapping, group])) == Err::<SessionModel, Seq<char>>(
                "m=audio"@,
            )
            &&& parsed(text::joined(seq![media, group])) == Err::<SessionModel, Seq<char>>(
                "a=rtpmap"@,
            )
            &&& parsed(text::joined(seq![media, mapping])) == Err::<SessionModel, Seq<char>>(
                "c= (Multicast)"@,
            )
        }),
{
    let media = s.media_line();
    let mapping = s.rtpmap_line();
    let group = "c=IN IP4 "@ + s.multicast_addr + "/32"@;
    assert(s.sdp_lines()[6] == mapping);
    lemma_three_lines(s);
    lemma_two(mapping, group);
    lemma_two(media, group);
    lemma_two(media, mapping);
    let d = DraftModel::blank();
    lemma_media_line(d, s);
    lemma_rtpmap_line(d, s);
    lemma_rtpmap_line(d.with_line(media), s);
    lemma_connection_line(d.with_line(media), s.multicast_addr);
    lemma_connection_line(d.with_line(mapping), s.multicast_addr);
    lemma_connection_line(d.with_line(media).with_line(mapping), s.multicast_addr);
    let ls = seq![media, mapping, group];
    text::laws::joined_lines_come_back(ls);
    assert(ls.drop_first().drop_first().drop_first() =~= Seq::empty());
    assert(d.with_lines(ls) == d.with_line(media).with_line(mapping).with_line(group)) by {
        reveal_with_fuel(DraftModel::with_lines, 4);
    }
}

/// A media part of another kind brings no port and no payload type: a description
/// with one behind it is read as it is without.
pub proof fn other_media_bring_no_stream(s: SessionModel, kind: Seq<char>, rest: Seq<char>)
    requires
        fits_lines(s),
        kind.len() > 0,
        kind != "audio"@,
        text::laws::free_of_space(kind),
        text::laws::free_of(rest, '\n'),
        rest.len() > 0 ==> rest.last() != '\r',
    ensures
        parsed(
            text::joined(s.sdp_lines()) + ("m="@ + kind + seq![' '] + rest) + "\r\n"@,
        ) == Ok::<SessionModel, Seq<char>>(s),
{
    let line = "m="@ + kind + seq![' '] + rest;
    let val = kind + seq![' '] + rest;
    lemma_draft(s);
    lemma_tags();
    reveal_strlit("m=");
    assert(line =~= seq!['m', '='] + val);
    assert forall|i: int| 0 <= i < line.len() implies #[trigger] line[i] != '\n' by {
        if 2 <= i < 2 + kind.len() {
            assert(line[i] == kind[i - 2]);
            assert(!text::is_space(kind[i - 2]));
        } else if i > 2 + kind.len() {
            assert(line[i] == rest[i - 3 - kind.len()]);
        }
    }
    if rest.len() > 0 {
        assert(val.last() == rest.last());
    } else {
        assert(val.last() == ' ');
    }
    lemma_line_more(text::joined(s.sdp_lines()), line);
    lemma_line(draft_of(s), 'm', val);
    text::laws::lemma_words_behind(kind, ' ', rest);
    assert(text::words(val)[0] == kind);
}

/// What was read from whole lines, with one more behind them.
proof fn lemma_draft_more(front: Seq<char>, line: Seq<char>)
    requires
        front.len() == 0 || front.last() == '\n',
        text::laws::free_of(line, '\n'),
    ensures
        DraftModel::blank().with_lines(text::lines(front + line + "\r\n"@))
            == DraftModel::blank().with_lines(text::lines(front)).with_line(line),
        (front + line + "\r\n"@).last() == '\n',
{
    let d = DraftModel::blank();
    let none = Seq::<char>::empty();
    let tail = line + "\r\n"@;
    reveal_strlit("\r\n");
    text::laws::lemma_lines_behind(line, none);
    assert(line + "\r\n"@ + none =~= tail);
    assert(front + line + "\r\n"@ =~= front + tail);
    text::laws::lemma_lines_apart(front, tail);
    assert(text::lines(none) =~= Seq::empty());
    assert(text::lines(tail) =~= seq![line]);
    super::lemma_lines_in_parts(d, text::lines(front), seq![line]);
    let f = d.with_lines(text::lines(front));
    assert(seq![line].drop_first() =~= Seq::empty());
    assert(f.with_lines(seq![line]) == f.with_line(line)) by {
        reveal_with_fuel(DraftModel::with_lines, 2);
    }
}

/// A connection line holds no line feed.
proof fn lemma_connection_is_a_line(addr: Seq<char>)
    requires
        text::laws::free_of_space(addr),
    ensures
        text::laws::free_of("c=IN IP4 "@ + addr + "/32"@, '\n'),
{
    let line = "c=IN IP4 "@ + addr + "/32"@;
    reveal_strlit("c=IN IP4 ");
    reveal_strlit("/32");
    assert forall|i: int| 0 <= i < line.len() implies #[trigger] line[i] != '\n' by {
        if 9 <= i < 9 + addr.len() {
            assert(line[i] == addr[i - 9]);
            assert(!text::is_space(addr[i - 9]));
        }
    }
}

/// Behind any media line an address is one of a media part, whatever its kind: of
/// all of them the last one counts.
pub proof fn last_connection_of_the_media_counts(
    s: SessionModel,
    first: Seq<char>,
    last: Seq<char>,
)
    requires
        fits_lines(s),
        text::laws::free_of_space(first),
        text::laws::free_of(first, '/'),
        text::laws::free_of_space(last),
        text::laws::free_of(last, '/'),
    ensures
        parsed(
            text::joined(s.sdp_lines()) + ("c=IN IP4 "@ + first + "/32"@) + "\r\n"@
                + "m=video 5006 RTP/AVP 96"@ + "\r\n"@ + ("c=IN IP4 "@ + last + "/32"@) + "\r\n"@,
        ) == Ok::<SessionModel, Seq<char>>(SessionModel { multicast_addr: last, ..s }),
{
    let d0 = text::joined(s.sdp_lines());
    let one = "c=IN IP4 "@ + first + "/32"@;
    let two = "m=video 5006 RTP/AVP 96"@;
    let three = "c=IN IP4 "@ + last + "/32"@;
    let d1 = d0 + one + "\r\n"@;
    let d2 = d1 + two + "\r\n"@;
    lemma_draft(s);
    lemma_connection_is_a_line(first);
    lemma_connection_is_a_line(last);
    lemma_tags();
    reveal_strlit("m=video 5006 RTP/AVP 96");
    reveal_strlit("audio");
    lemma_draft_more(d0, one);
    lemma_connection_line(draft_of(s), first);
    let f1 = DraftModel { media_conn: Some(first), ..draft_of(s) };
    lemma_draft_more(d1, two);
    let kind = seq!['v', 'i', 'd', 'e', 'o'];
    let rest = two.skip(8);
    let val = kind + seq![' '] + rest;
    assert(two =~= seq!['m', '='] + val);
    assert(val.last() == '6');
    lemma_line(f1, 'm', val);
    text::laws::lemma_words_behind(kind, ' ', rest);
    assert(text::words(val)[0] == kind);
    assert(kind[0] != "audio"@[0]);
    assert(f1.with_line(two) == f1);
    lemma_line_more(d2, three);
    lemma_connection_line(f1, last);
}

} // verus!
