//! The node as a RAVENNA session: its description for RTSP, how it is offered,
//! and what becomes of the sessions of others.

use super::state;
use super::state::{AppState, DiscoveredEntry};
use super::table;
use crate::discovery::mdns::RavennaSession;
use crate::discovery::rtsp;
use crate::ipv4;
use crate::net::sap;
use crate::sdp::{AudioSession, SdpError, SessionModel};
use crate::text;
use crate::utf8;
use vstd::prelude::*;
use vstd::utf8::{decode_utf8, encode_utf8, valid_utf8};

verus! {

/// The group under which the stream of the node is described.
pub const RAVENNA_GROUP: &'static str = "239.69.83.67";

/// The port under which the stream of the node is described.
pub const RAVENNA_PORT: u16 = 5004;

/// Most bytes of a request that are read before it is answered as it is.
pub const REQUEST_LIMIT: usize = 8192;

/// The session of the node.
pub open spec fn node_session<T, R>(state: AppState<T, R>) -> SessionModel {
    SessionModel {
        session_name: state.node.name@,
        origin_unicast: ipv4::dotted(state.node.interface@),
        multicast_addr: RAVENNA_GROUP@,
        port: RAVENNA_PORT,
        payload_type: 97,
        profile: state.node.profile,
        refclk: state::reference(state.node, state.ptp.grandmaster),
        mediaclk_offset: 0,
    }
}

/// The description of the stream of the node, with the clock reference as it is
/// now.
pub fn node_sdp<T, R>(state: &AppState<T, R>) -> (s: String)
    ensures
        s@ == text::joined(node_session(*state).sdp_lines()),
{
    let session = AudioSession {
        session_name: text::text(state.node.name.as_str()),
        origin_unicast: ipv4::dotted_text(state.node.interface),
        multicast_addr: text::text(RAVENNA_GROUP),
        port: RAVENNA_PORT,
        payload_type: 97,
        profile: state.node.profile,
        refclk: state.ptp_refclk(),
        mediaclk_offset: 0,
    };
    session.to_sdp()
}

/// Whether an empty line stands at `i`.
pub open spec fn blank_line_at(b: Seq<u8>, i: int) -> bool {
    &&& 0 <= i
    &&& i + 4 <= b.len()
    &&& b[i] == 13
    &&& b[i + 1] == 10
    &&& b[i + 2] == 13
    &&& b[i + 3] == 10
}

/// Whether a request was read to its end: its header ends, or it is too long.
pub open spec fn whole_request(b: Seq<u8>) -> bool {
    (exists|i: int| blank_line_at(b, i)) || b.len() > REQUEST_LIMIT
}

/// Whether a request was read to its end: its header ends, or it is too long.
pub fn request_complete(received: &[u8]) -> (r: bool)
    ensures
        r == ((exists|i: int| blank_line_at(received@, i)) || received@.len() > REQUEST_LIMIT),
        r == whole_request(received@),
{
    if received.len() > REQUEST_LIMIT {
        return true;
    }
    let mut i: usize = 0;
    while i < received.len()
        invariant
            i <= received@.len(),
            forall|j: int| 0 <= j < i ==> !blank_line_at(received@, j),
        decreases received@.len() - i,
    {
        if received.len() - i >= 4 && received[i] == 13 && received[i + 1] == 10 && received[i + 2]
            == 13 && received[i + 3] == 10 {
            assert(blank_line_at(received@, i as int));
            return true;
        }
        i = i + 1;
    }
    false
}

/// A character of a host name: small letters, digits and hyphens stay, capital
/// letters become small, and everything else becomes a hyphen.
pub open spec fn host_char(c: char) -> char {
    if 'A' <= c <= 'Z' {
        text::small(c)
    } else if 'a' <= c <= 'z' || '0' <= c <= '9' || c == '-' {
        c
    } else {
        '-'
    }
}

/// The host name for a display name.
pub open spec fn host_of(name: Seq<char>) -> Seq<char> {
    if name.len() == 0 {
        "taktwerk"@
    } else {
        name.map_values(|c: char| host_char(c))
    }
}

/// The host name for a display name.
pub fn sanitize_host(name: &str) -> (s: String)
    ensures
        s@ == host_of(name@),
{
    let v: Vec<char> = text::chars_of(name);
    if v.len() == 0 {
        return text::text("taktwerk");
    }
    let mut s: String = String::new();
    let mut i: usize = 0;
    let ghost all = name@.map_values(|c: char| host_char(c));
    while i < v.len()
        invariant
            i <= v@.len(),
            v@ == name@,
            all == name@.map_values(|c: char| host_char(c)),
            s@ == all.take(i as int),
        decreases v@.len() - i,
    {
        let c: char = v[i];
        let h: char = if 'A' <= c && c <= 'Z' {
            (c as u8 + 32) as char
        } else if ('a' <= c && c <= 'z') || ('0' <= c && c <= '9') || c == '-' {
            c
        } else {
            '-'
        };
        s.push(h);
        i = i + 1;
        assert(s@ =~= all.take(i as int));
    }
    assert(s@ =~= all);
    s
}

/// A host name holds small letters, digits and hyphens only, and is never empty.
pub proof fn host_name_is_plain(name: Seq<char>)
    ensures
        host_of(name).len() > 0,
        forall|i: int|
            0 <= i < host_of(name).len() ==> {
                let c = #[trigger] host_of(name)[i];
                'a' <= c <= 'z' || '0' <= c <= '9' || c == '-'
            },
{
    reveal_strlit("taktwerk");
}

/// The answer to the bytes of a request, with the description of the node. What
/// is no valid UTF-8 in them is replaced before they are read.
pub fn respond(received: &[u8], description: &str) -> (r: String)
    ensures
        r@ == rtsp::answer(utf8::lossy_text(received@), description@),
        valid_utf8(received@) ==> r@ == rtsp::answer(decode_utf8(received@), description@),
{
    let request: String = utf8::lossy(received);
    proof {
        if valid_utf8(received@) {
            vstd::utf8::encode_utf8_decode_utf8(request@);
        }
    }
    rtsp::handle_request(request.as_str(), description)
}

/// How the node is offered: its host name and the path of its description.
#[derive(Debug)]
pub struct Offer {
    pub host: String,
    pub path: String,
}

/// How the node is offered; `None` without a concrete interface, since nobody
/// could reach it.
pub fn offer(name: &str, interface: [u8; 4]) -> (r: Option<Offer>)
    ensures
        r is None <==> interface@ == seq![0u8, 0u8, 0u8, 0u8],
        r matches Some(o) ==> o.host@ == host_of(name@) && o.path@ == "/by-name/"@ + name@,
{
    if ipv4::is_unspecified(interface) {
        None
    } else {
        Some(Offer { host: sanitize_host(name), path: text::cat("/by-name/", name) })
    }
}

/// The host to ask for the description of a session: its address, or its name
/// where that is not known.
pub fn session_host(session: &RavennaSession) -> (s: String)
    ensures
        s@ == (match session.addr {
            Some(a) => a@,
            None => session.host@,
        }),
{
    match &session.addr {
        Some(a) => text::text(a.as_str()),
        None => text::text(session.host.as_str()),
    }
}

/// The IPv4 address of a session; 0.0.0.0 where it has none.
pub open spec fn session_address(session: RavennaSession) -> Seq<u8> {
    match session.addr {
        Some(a) => match ipv4::address(a@) {
            Some(b) => b,
            None => seq![0u8, 0u8, 0u8, 0u8],
        },
        None => seq![0u8, 0u8, 0u8, 0u8],
    }
}

/// What was learnt of a session: its address and name, for the list of devices,
/// and the stream, with the key that it has in the list of streams.
#[derive(Debug)]
pub struct Finding {
    pub address: [u8; 4],
    pub name: String,
    pub key: u16,
    pub entry: DiscoveredEntry,
}

/// What is learnt from the description of a session.
pub fn finding(session: &RavennaSession, description: &str, now: u64) -> (r: Result<
    Finding,
    SdpError,
>)
    ensures
        match crate::sdp::parsed(description@) {
            Ok(m) => {
                &&& r matches Ok(f)
                &&& f.address@ == session_address(*session)
                &&& f.name@ == m.session_name
                &&& f.key == sap::folded(encode_utf8(session.instance@))
                &&& f.entry@ == state::found(m, f.address, "RAVENNA"@, now)
            },
            Err(what) => r matches Err(SdpError::Missing(t)) && t@ == what,
        },
{
    let parsed: AudioSession = match AudioSession::parse(description) {
        Ok(s) => s,
        Err(e) => {
            return Err(e);
        },
    };
    let any: [u8; 4] = [0, 0, 0, 0];
    assert(any@ =~= seq![0u8, 0u8, 0u8, 0u8]);
    let address: [u8; 4] = match &session.addr {
        Some(a) => match ipv4::parse_ipv4(a.as_str()) {
            Some(b) => b,
            None => any,
        },
        None => any,
    };
    let name: String = text::text(parsed.session_name.as_str());
    let key: u16 = sap::fnv16(session.instance.as_str().as_bytes());
    let entry: DiscoveredEntry = state::entry_of(parsed, address, "RAVENNA", now);
    Ok(Finding { address, name, key, entry })
}

/// Enters what was learnt: the device, and the stream.
pub fn note_finding<T, R>(state: &mut AppState<T, R>, f: Finding, now: u64)
    requires
        old(state).wf(),
    ensures
        final(state).wf(),
        final(state).discovered@ == table::put(old(state).discovered@, f.key, f.entry),
        final(state).monitor.traffic() == old(state).monitor.traffic(),
        super::monitor::updated(
            old(state).monitor.senders(),
            final(state).monitor.senders(),
            super::monitor::address_number(f.address@),
            super::monitor::device_at(
                old(state).monitor.senders(),
                super::monitor::address_number(f.address@),
            ).seen(Some(f.name@), now),
        ),
        final(state).node == old(state).node,
        final(state).tx == old(state).tx,
        final(state).rx == old(state).rx,
        final(state).nmos_peers == old(state).nmos_peers,
        final(state).ptp == old(state).ptp,
        final(state).ptp_master == old(state).ptp_master,
        final(state).gnss == old(state).gnss,
        final(state).drift == old(state).drift,
        final(state).clock_ref == old(state).clock_ref,
{
    state.monitor.note_device_at(f.address, Some(f.name), now);
    state.discovered.insert(f.key, f.entry);
}

/// The node describes its stream as one that can be received: with its own name
/// and profile, at the group and the port of RAVENNA.
pub proof fn node_describes_its_stream<T, R>(state: AppState<T, R>)
    requires
        text::laws::free_of(state.node.name@, '\n'),
        state.node.name@.len() > 0 ==> state.node.name@.last() != '\r',
    ensures
        ({
            let d = text::joined(node_session(state).sdp_lines());
            &&& crate::daemon::routing::sink_for(d) == Ok::<
                (Seq<u8>, u16, crate::profile::StreamProfile),
                Seq<char>,
            >((seq![239u8, 69u8, 83u8, 67u8], 5004, state.node.profile))
            &&& crate::sdp::parsed(d) matches Ok(m) && m.session_name == state.node.name@
                && m.origin_unicast == ipv4::dotted(state.node.interface@) && m.payload_type == 97
                && m.refclk == state::reference(state.node, state.ptp.grandmaster)
        }),
{
    let s = node_session(state);
    let g = seq![239u8, 69u8, 83u8, 67u8];
    reveal_strlit("239.69.83.67");
    reveal_strlit(".");
    reveal_with_fuel(text::decimal, 4);
    assert(text::decimal(239) =~= seq!['2', '3', '9']);
    assert(text::decimal(69) =~= seq!['6', '9']);
    assert(text::decimal(83) =~= seq!['8', '3']);
    assert(text::decimal(67) =~= seq!['6', '7']);
    assert(ipv4::dotted(g) =~= RAVENNA_GROUP@);
    ipv4::lemma_dotted_plain(g);
    ipv4::dotted_reads_back(g);
    ipv4::lemma_dotted_plain(state.node.interface@);
    if let Some(rc) = s.refclk {
        let id = if state.node.ptp_master {
            super::identity::identity_of(state.node.name@)
        } else {
            state.ptp.grandmaster->0@
        };
        assert(rc.gmid == super::identity::marked(id, '-', true));
        super::identity::identity_holds_no_separators(id);
    }
    crate::sdp::laws::built_session_parses_back(s);
}

/// A host name has as many characters as the name: small letters, digits and
/// hyphens stay, capital letters become small ones, and all else becomes a
/// hyphen.
pub proof fn host_name_follows_the_name(name: Seq<char>, i: int)
    requires
        0 <= i < name.len(),
    ensures
        host_of(name).len() == name.len(),
        ('a' <= name[i] <= 'z' || '0' <= name[i] <= '9') ==> host_of(name)[i] == name[i],
        'A' <= name[i] <= 'Z' ==> host_of(name)[i] as u32 == name[i] as u32 + 32,
        !('a' <= name[i] <= 'z' || '0' <= name[i] <= '9' || 'A' <= name[i] <= 'Z') ==> host_of(
            name,
        )[i] == '-',
        host_of(Seq::empty()) == "taktwerk"@,
{
}

/// Under the path at which the node is offered its description is asked for, too,
/// by those who know no more than its name.
pub proof fn offered_path_is_the_one_that_is_asked_for(name: Seq<char>, rest: Seq<char>)
    requires
        text::laws::free_of(name, '.'),
    ensures
        crate::discovery::mdns::path_by_name(name + "."@ + rest) == "/by-name/"@ + name,
        crate::discovery::mdns::path_by_name(name) == "/by-name/"@ + name,
{
    reveal_strlit(".");
    assert("."@ =~= seq!['.']);
    text::laws::lemma_pieces_behind(name, '.', rest);
    text::laws::lemma_pieces_one(name, '.');
}

/// A session with an address in dotted form has that address, and one without has
/// none.
pub proof fn session_has_the_address_that_it_names(session: RavennaSession, a: Seq<u8>)
    requires
        a.len() == 4,
    ensures
        session.addr matches Some(t) && t@ == ipv4::dotted(a) ==> session_address(session) == a,
        session.addr is None ==> session_address(session) == seq![0u8, 0, 0, 0],
{
    ipv4::dotted_reads_back(a);
}

/// A request is read until an empty line has come, wherever it stands and
/// whatever follows, or more than 8192 bytes; less is not enough.
pub proof fn request_ends_with_an_empty_line(a: Seq<u8>, b: Seq<u8>)
    ensures
        whole_request(a + seq![13u8, 10, 13, 10] + b),
        a.len() > 8192 ==> whole_request(a),
        a.len() <= 8192 && (forall|i: int|
            0 <= i && i + 4 <= a.len() ==> #[trigger] a.subrange(i, i + 4) != seq![
                13u8,
                10,
                13,
                10,
            ]) ==> !whole_request(a),
{
    let s = a + seq![13u8, 10, 13, 10] + b;
    assert(blank_line_at(s, a.len() as int));
    if a.len() <= 8192 && whole_request(a) {
        let i = choose|i: int| blank_line_at(a, i);
        assert(a.subrange(i, i + 4) =~= seq![13u8, 10, 13, 10]);
    }
}

} // verus!
