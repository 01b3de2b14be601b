//! The matrix: the receiver of the node as a sink that can be controlled, the
//! list of all senders and receivers, and the requests that connect them.

use super::state::{AppState, DiscoveredEntry, NmosPeer, RxControl, TxControl, NMOS_RX_ID};
use super::table;
use super::table::Table;
use super::tasks::{stream_id, stream_key};
use crate::discovery::mdns;
use crate::discovery::mdns::ResolvedService;
use crate::ipv4;
use crate::json;
use crate::json::{empty, none, num, text_or_null, txt, Json, JsonView};
use crate::profile::StreamProfile;
use crate::router::ids;
use crate::sdp;
use crate::sdp::{AudioSession, SessionModel};
use crate::text;
use vstd::prelude::*;

verus! {

// ---------------------------------------------------------------------------
// The controllable sink
// ---------------------------------------------------------------------------
/// What the sink is to receive.
#[derive(Debug)]
pub struct SinkPlan {
    pub group: [u8; 4],
    pub port: u16,
    /// The profile of the sender: its channels and its packet time.
    pub profile: StreamProfile,
}

/// What a description asks the sink to receive, or why it cannot.
pub open spec fn sink_for(description: Seq<char>) -> Result<
    (Seq<u8>, u16, StreamProfile),
    Seq<char>,
> {
    match sdp::parsed(description) {
        Err(what) => Err("SDP: Pflichtangabe fehlt: "@ + what),
        Ok(session) => match ipv4::address(session.multicast_addr) {
            Some(a) => Ok((a, session.port, session.profile)),
            None => Err("ungültige Multicast-Gruppe: "@ + session.multicast_addr),
        },
    }
}

/// Reads what a description asks the sink to receive.
pub fn sink_plan(description: &str) -> (r: Result<SinkPlan, String>)
    ensures
        match sink_for(description@) {
            Ok((a, p, profile)) => r matches Ok(plan) && plan.group@ == a && plan.port == p
                && plan.profile == profile,
            Err(why) => r matches Err(e) && e@ == why,
        },
{
    let session: AudioSession = match AudioSession::parse(description) {
        Ok(s) => s,
        Err(e) => {
            return Err(e.message());
        },
    };
    match ipv4::parse_ipv4(session.multicast_addr.as_str()) {
        Some(group) => Ok(SinkPlan { group, port: session.port, profile: session.profile }),
        None => Err(text::cat("ungültige Multicast-Gruppe: ", session.multicast_addr.as_str())),
    }
}

/// Takes the subscription of the sink out, if there is one.
pub fn release_sink<H>(rx: &mut Table<String, RxControl<H>>) -> (r: Option<RxControl<H>>)
    requires
        table::one_each(old(rx)@),
    ensures
        table::one_each(final(rx)@),
        final(rx)@ == table::without(old(rx)@, NMOS_RX_ID@),
        match r {
            Some(c) => table::holds(old(rx)@, NMOS_RX_ID@) && c == table::at(
                old(rx)@,
                NMOS_RX_ID@,
            ),
            None => !table::holds(old(rx)@, NMOS_RX_ID@),
        },
{
    rx.remove(&text::text(NMOS_RX_ID))
}

/// Enters the subscription of the sink, once it was started.
pub fn enter_sink<H>(
    rx: &mut Table<String, RxControl<H>>,
    plan: &SinkPlan,
    description: &str,
    handle: H,
)
    requires
        table::one_each(old(rx)@),
    ensures
        table::one_each(final(rx)@),
        table::holds(final(rx)@, NMOS_RX_ID@),
        ({
            let c = table::at(final(rx)@, NMOS_RX_ID@);
            &&& c.running
            &&& text::optional(c.source) == Some(stream_key(plan.group@, plan.port))
            &&& c.channels == plan.profile.channels
            &&& c.handle == handle
            &&& text::optional(c.active_sdp) == Some(description@)
        }),
        forall|id: Seq<char>|
            id != NMOS_RX_ID@ ==> #[trigger] table::holds(final(rx)@, id) == table::holds(
                old(rx)@,
                id,
            ),
        forall|id: Seq<char>|
            id != NMOS_RX_ID@ && table::holds(old(rx)@, id) ==> #[trigger] table::at(
                final(rx)@,
                id,
            ) == table::at(old(rx)@, id),
{
    let control = RxControl {
        running: true,
        source: Some(stream_id(plan.group, plan.port)),
        channels: plan.profile.channels,
        handle,
        active_sdp: Some(text::text(description)),
    };
    let key: String = text::text(NMOS_RX_ID);
    rx.insert(key, control);
    proof {
        table::put_is_found(old(rx)@, key, control, key@);
        assert forall|id: Seq<char>| id != NMOS_RX_ID@ implies #[trigger] table::holds(rx@, id)
            == table::holds(old(rx)@, id) by {
            table::put_is_found(old(rx)@, key, control, id);
        }
        assert forall|id: Seq<char>|
            id != NMOS_RX_ID@ && table::holds(old(rx)@, id) implies #[trigger] table::at(rx@, id)
            == table::at(old(rx)@, id) by {
            table::put_is_found(old(rx)@, key, control, id);
        }
    }
}

/// Whether the sink receives something.
pub fn sink_connected<H>(rx: &Table<String, RxControl<H>>) -> (r: bool)
    ensures
        r == table::holds(rx@, NMOS_RX_ID@),
{
    rx.contains(&text::text(NMOS_RX_ID))
}

/// The description that the sink was set with.
pub open spec fn sink_description<H>(rx: Seq<(String, RxControl<H>)>) -> Option<Seq<char>> {
    if table::holds(rx, NMOS_RX_ID@) {
        text::optional(table::at(rx, NMOS_RX_ID@).active_sdp)
    } else {
        None
    }
}

/// The description that the sink was set with.
pub fn sink_sdp<H>(rx: &Table<String, RxControl<H>>) -> (r: Option<String>)
    ensures
        text::optional(r) == sink_description(rx@),
{
    match rx.get(&text::text(NMOS_RX_ID)) {
        Some(c) => match &c.active_sdp {
            Some(s) => Some(text::text(s.as_str())),
            None => None,
        },
        None => None,
    }
}

// ---------------------------------------------------------------------------
// Requests
// ---------------------------------------------------------------------------
/// The session that describes a stream by its group, port and channels.
pub open spec fn routed_session(host: Seq<char>, group: Seq<char>, port: u16, channels: u8) -> SessionModel {
    SessionModel {
        session_name: "route "@ + group + ":"@ + text::decimal(port as nat),
        origin_unicast: host,
        multicast_addr: group,
        port,
        payload_type: 97,
        profile: StreamProfile::spec_aes67(channels),
        refclk: None,
        mediaclk_offset: 0,
    }
}

/// The description of a stream by its group, port and channels.
pub fn build_sdp(host: &str, group: &str, port: u16, channels: u8) -> (s: String)
    ensures
        s@ == text::joined(routed_session(host@, group@, port, channels).sdp_lines()),
{
    let mut name: String = text::cat("route ", group);
    text::push_text(&mut name, ":");
    text::push_decimal(&mut name, port as u64);
    let session = AudioSession {
        session_name: name,
        origin_unicast: text::text(host),
        multicast_addr: text::text(group),
        port,
        payload_type: 97,
        profile: StreamProfile::aes67(channels),
        refclk: None,
        mediaclk_offset: 0,
    };
    session.to_sdp()
}

/// A request to connect a sender and a receiver, or to part them.
#[derive(Debug)]
pub struct RouteRequest {
    /// Host of the receiver.
    pub host: String,
    /// Port of the receiver.
    pub port: u16,
    /// Id of the receiver.
    pub receiver_id: String,
    /// Multicast group of the sender, to connect.
    pub group: Option<String>,
    /// Port of the stream; without one, 5004.
    pub media_port: Option<u16>,
    /// Channels; without a number, 2.
    pub channels: Option<u8>,
    /// Part them instead.
    pub disconnect: Option<bool>,
}

/// What a request asks the controller to do.
#[derive(Debug)]
pub enum RouteStep {
    /// Connect the receiver to the sender of this description.
    Connect(String),
    /// Part the receiver from its sender.
    Disconnect,
}

/// The session that a request asks for; without a port it is 5004, and without
/// channels there are two.
pub open spec fn asked_session(req: RouteRequest, group: Seq<char>) -> SessionModel {
    routed_session(
        req.host@,
        group,
        match req.media_port {
            Some(p) => p,
            None => 5004,
        },
        match req.channels {
            Some(n) => n,
            None => 2,
        },
    )
}

/// Checks a request. To connect takes a group; without one the answer is status
/// 400.
pub fn route_step(req: &RouteRequest) -> (r: Result<RouteStep, (u16, String)>)
    ensures
        if req.disconnect == Some(true) {
            r matches Ok(RouteStep::Disconnect)
        } else {
            match req.group {
                None => r matches Err(e) && e.0 == 400 && e.1@ == "group fehlt"@,
                Some(g) => r matches Ok(RouteStep::Connect(s)) && s@ == text::joined(
                    routed_session(
                        req.host@,
                        g@,
                        match req.media_port {
                            Some(p) => p,
                            None => 5004,
                        },
                        match req.channels {
                            Some(n) => n,
                            None => 2,
                        },
                    ).sdp_lines(),
                ) && s@ == text::joined(asked_session(*req, g@).sdp_lines()),
            }
        },
{
    match req.disconnect {
        Some(true) => {
            return Ok(RouteStep::Disconnect);
        },
        _ => {},
    }
    match &req.group {
        None => Err((400, text::text("group fehlt"))),
        Some(g) => {
            let port: u16 = match req.media_port {
                Some(p) => p,
                None => 5004,
            };
            let channels: u8 = match req.channels {
                Some(n) => n,
                None => 2,
            };
            Ok(RouteStep::Connect(build_sdp(req.host.as_str(), g.as_str(), port, channels)))
        },
    }
}

/// The answer to a request, from the status that the receiver answered with: it
/// went well where that is between 200 and 299.
pub open spec fn reply_view(status: u16) -> JsonView {
    empty().with("status"@, num(status as int)).with("ok"@, JsonView::Bool(200 <= status < 300))
}

/// The answer to a request, from the status that the receiver answered with.
pub fn route_reply(status: u16) -> (j: Json)
    ensures
        j@ == empty().with("status"@, num(status as int)).with(
            "ok"@,
            JsonView::Bool(200 <= status < 300),
        ),
        j@ == reply_view(status),
{
    json::object().with_number("status", status as u64).with_bool(
        "ok",
        200 <= status && status < 300,
    )
}

/// The answer where the receiver could not be asked: status 502 with what went
/// wrong.
pub fn route_failed(why: String) -> (e: (u16, String))
    ensures
        e == (502u16, why),
{
    (502, why)
}

// ---------------------------------------------------------------------------
// Other nodes
// ---------------------------------------------------------------------------
/// The place of a field of receiver `i` in a list.
pub open spec fn receiver_pointer(i: nat, field: Seq<char>) -> Seq<char> {
    "/"@ + text::decimal(i) + field
}

fn pointer_to(i: usize, field: &str) -> (s: String)
    ensures
        s@ == receiver_pointer(i as nat, field@),
{
    let mut s: String = text::text("/");
    text::push_decimal(&mut s, i as u64);
    text::push_text(&mut s, field);
    s
}

/// The first `n` receivers of a list, id and label. One without an id is left
/// out, and one without a label has an empty one.
pub open spec fn receivers_in(body: Seq<char>, n: nat) -> Seq<(Seq<char>, Seq<char>)>
    decreases n,
{
    if n == 0 {
        Seq::empty()
    } else {
        let before = receivers_in(body, (n - 1) as nat);
        match json::text_in(body, receiver_pointer((n - 1) as nat, "/id"@)) {
            Some(id) => before.push(
                (
                    id,
                    match json::text_in(body, receiver_pointer((n - 1) as nat, "/label"@)) {
                        Some(l) => l,
                        None => ""@,
                    },
                ),
            ),
            None => before,
        }
    }
}

/// All receivers of a list; none where the text is no list.
pub open spec fn all_receivers(body: Seq<char>) -> Seq<(Seq<char>, Seq<char>)> {
    match json::array_len_in(body, ""@) {
        Some(n) => receivers_in(body, n),
        None => Seq::empty(),
    }
}

/// The pairs of texts behind a vector of them.
pub open spec fn pairs(v: Seq<(String, String)>) -> Seq<(Seq<char>, Seq<char>)> {
    v.map_values(|e: (String, String)| (e.0@, e.1@))
}

/// Reads the list of receivers of another node, a JSON text.
pub fn read_receivers(body: &str) -> (v: Vec<(String, String)>)
    ensures
        pairs(v@) == all_receivers(body@),
{
    let n: usize = match json::array_len_at(body, "") {
        Some(n) => n,
        None => 0,
    };
    let mut v: Vec<(String, String)> = Vec::new();
    let mut i: usize = 0;
    assert(pairs(v@) =~= Seq::empty());
    while i < n
        invariant
            i <= n,
            pairs(v@) == receivers_in(body@, i as nat),
        decreases n - i,
    {
        match json::text_at(body, pointer_to(i, "/id").as_str()) {
            Some(id) => {
                let label: String = match json::text_at(body, pointer_to(i, "/label").as_str()) {
                    Some(l) => l,
                    None => text::text(""),
                };
                let ghost before = v@;
                v.push((id, label));
                assert(pairs(v@) =~= pairs(before).push((id@, label@)));
            },
            None => {},
        }
        i = i + 1;
    }
    v
}

/// The host of a service: its address, or its name, without the dot at its end,
/// where that is not known.
pub open spec fn service_host(found: ResolvedService) -> Seq<char> {
    match found.addr {
        Some(a) => a@,
        None => mdns::without_dots(found.host@),
    }
}

/// The host to ask for the receivers of a node that was found; `None` where it is
/// the own node, which is told by its port.
pub fn peer_to_ask(own_port: u16, found: &ResolvedService) -> (r: Option<String>)
    ensures
        text::optional(r) == (if found.port == own_port {
            None
        } else {
            Some(service_host(*found))
        }),
{
    if found.port == own_port {
        return None;
    }
    match &found.addr {
        Some(a) => Some(text::text(a.as_str())),
        None => Some(mdns::host_name(found.host.as_str())),
    }
}

/// Enters another node with the receivers that it answered, under the name of its
/// instance. A node without receivers is not entered.
pub fn note_peer(
    peers: &mut Table<String, NmosPeer>,
    found: &ResolvedService,
    host: String,
    receivers: Vec<(String, String)>,
    now: u64,
)
    requires
        table::one_each(old(peers)@),
    ensures
        table::one_each(final(peers)@),
        receivers@.len() == 0 ==> final(peers)@ == old(peers)@,
        receivers@.len() > 0 ==> {
            &&& table::holds(final(peers)@, found.instance@)
            &&& table::at(final(peers)@, found.instance@) == (NmosPeer {
                host,
                port: found.port,
                receivers,
                last_seen: now,
            })
            &&& forall|id: Seq<char>|
                id != found.instance@ ==> #[trigger] table::holds(final(peers)@, id)
                    == table::holds(old(peers)@, id)
            &&& forall|id: Seq<char>|
                id != found.instance@ && table::holds(old(peers)@, id) ==> #[trigger] table::at(
                    final(peers)@,
                    id,
                ) == table::at(old(peers)@, id)
        },
{
    if receivers.len() > 0 {
        let key: String = text::text(found.instance.as_str());
        let peer = NmosPeer { host, port: found.port, receivers, last_seen: now };
        peers.insert(key, peer);
        proof {
            table::put_is_found(old(peers)@, key, peer, key@);
            assert forall|id: Seq<char>| id != found.instance@ implies #[trigger] table::holds(
                peers@,
                id,
            ) == table::holds(old(peers)@, id) by {
                table::put_is_found(old(peers)@, key, peer, id);
            }
            assert forall|id: Seq<char>|
                id != found.instance@ && table::holds(old(peers)@, id) implies #[trigger] table::at(
                peers@,
                id,
            ) == table::at(old(peers)@, id) by {
                table::put_is_found(old(peers)@, key, peer, id);
            }
        }
    }
}

// ---------------------------------------------------------------------------
// The list of senders and receivers
// ---------------------------------------------------------------------------
/// What stands behind the last colon; all of it where there is none.
pub open spec fn after_colon(s: Seq<char>) -> Seq<char>
    decreases s.len(),
{
    if s.len() == 0 || s.last() == ':' {
        Seq::empty()
    } else {
        after_colon(s.drop_last()).push(s.last())
    }
}

/// What stands in front of the first colon; all of it where there is none.
pub open spec fn before_colon(s: Seq<char>) -> Seq<char> {
    s.take(text::find(s, ':') as int)
}

fn behind_colon(s: &str) -> (r: String)
    ensures
        r@ == after_colon(s@),
{
    let v: Vec<char> = text::chars_of(s);
    let mut at: usize = 0;
    let mut i: usize = 0;
    assert(v@.subrange(0, 0) =~= after_colon(v@.take(0)));
    while i < v.len()
        invariant
            at <= i <= v@.len(),
            v@.subrange(at as int, i as int) == after_colon(v@.take(i as int)),
        decreases v@.len() - i,
    {
        assert(v@.take(i + 1).drop_last() =~= v@.take(i as int));
        if v[i] == ':' {
            at = i + 1;
            assert(v@.subrange(at as int, i + 1) =~= Seq::empty());
        } else {
            assert(v@.subrange(at as int, i + 1) =~= v@.subrange(at as int, i as int).push(
                v@[i as int],
            ));
        }
        i = i + 1;
    }
    assert(v@.take(i as int) =~= v@);
    text::string_of(vstd::slice::slice_subrange(v.as_slice(), at, v.len()))
}

fn front_of_colon(s: &str) -> (r: String)
    ensures
        r@ == before_colon(s@),
{
    let v: Vec<char> = text::chars_of(s);
    assert(v@.skip(0) =~= v@);
    let i: usize = text::find_from(v.as_slice(), 0, ':');
    assert(v@.subrange(0, i as int) =~= v@.take(i as int));
    text::string_of(vstd::slice::slice_subrange(v.as_slice(), 0, i))
}

/// The stream that the node offers by default.
pub open spec fn own_sender(name: Seq<char>, channels: u8) -> JsonView {
    empty()
        .with("id"@, txt(ids::uuid(name + ":sender"@)))
        .with("name"@, txt(name))
        .with("group"@, txt("239.69.83.67"@))
        .with("port"@, num(5004))
        .with("channels"@, num(channels as int))
        .with("via"@, txt("self"@))
}

/// A sending stream that runs.
pub open spec fn live_sender<T>(name: Seq<char>, e: (String, TxControl<T>)) -> JsonView {
    empty()
        .with("id"@, txt("self-"@ + e.0@))
        .with("name"@, txt(name + " · "@ + e.0@))
        .with("group"@, txt(before_colon(e.0@)))
        .with(
            "port"@,
            txt(
                match e.1.dest {
                    Some(d) => after_colon(d@),
                    None => "5004"@,
                },
            ),
        )
        .with("channels"@, num(e.1.channels as int))
        .with("via"@, txt("self-live"@))
}

/// A stream that was found.
pub open spec fn found_sender(e: (u16, DiscoveredEntry)) -> JsonView {
    empty()
        .with("id"@, txt("disc-"@ + e.1.session_name@))
        .with("name"@, txt(e.1.session_name@))
        .with("group"@, txt(e.1.multicast_addr@))
        .with("port"@, num(e.1.port as int))
        .with("channels"@, num(e.1.channels as int))
        .with("via"@, txt(e.1.via@))
}

/// The receiver of the node.
pub open spec fn own_receiver(
    name: Seq<char>,
    host: Seq<char>,
    port: u16,
    connected: bool,
    source: Option<Seq<char>>,
) -> JsonView {
    empty()
        .with("id"@, txt(ids::uuid(name + ":receiver"@)))
        .with("name"@, txt(name + " (self)"@))
        .with("nmos_host"@, txt(host))
        .with("nmos_port"@, num(port as int))
        .with("connected"@, JsonView::Bool(connected))
        .with("source"@, text_or_null(source))
}

/// A receiver of another node.
pub open spec fn peer_receiver(p: NmosPeer, r: (String, String)) -> JsonView {
    empty()
        .with("id"@, txt(r.0@))
        .with("name"@, txt(r.1@))
        .with("nmos_host"@, txt(p.host@))
        .with("nmos_port"@, num(p.port as int))
        .with("connected"@, JsonView::Bool(false))
        .with("source"@, JsonView::Null)
        .with("last_seen"@, num(p.last_seen as int))
}

/// The receivers of one other node.
pub open spec fn receivers_of(p: NmosPeer) -> Seq<JsonView> {
    p.receivers@.map_values(|r: (String, String)| peer_receiver(p, r))
}

/// The receivers of other nodes.
pub open spec fn receivers_of_all(s: Seq<(String, NmosPeer)>) -> Seq<JsonView>
    decreases s.len(),
{
    if s.len() == 0 {
        Seq::empty()
    } else {
        receivers_of_all(s.drop_last()) + receivers_of(s.last().1)
    }
}

/// All senders: the stream that is offered, the streams that run, and those that
/// were found.
pub open spec fn all_senders<T, R>(state: AppState<T, R>) -> Seq<JsonView> {
    seq![own_sender(state.node.name@, state.node.profile.channels)] + state.tx@.map_values(
        |e: (String, TxControl<T>)| live_sender(state.node.name@, e),
    ) + state.discovered@.map_values(|e: (u16, DiscoveredEntry)| found_sender(e))
}

/// The source of the sink.
pub open spec fn sink_source<H>(rx: Seq<(String, RxControl<H>)>) -> Option<Seq<char>> {
    if table::holds(rx, NMOS_RX_ID@) {
        text::optional(table::at(rx, NMOS_RX_ID@).source)
    } else {
        None
    }
}

/// All receivers: that of the node, and those of other nodes.
pub open spec fn receiver_list<T, R>(state: AppState<T, R>) -> Seq<JsonView> {
    seq![
        own_receiver(
            state.node.name@,
            state.node.nmos_host@,
            state.node.nmos_port,
            table::holds(state.rx@, NMOS_RX_ID@),
            sink_source(state.rx@),
        ),
    ] + receivers_of_all(state.nmos_peers@)
}

/// Appends the sending streams that run.
fn push_live<T>(list: Json, name: &str, tx: &Table<String, TxControl<T>>) -> (r: Json)
    requires
        list@ is Array,
    ensures
        r@ == JsonView::Array(
            json::items(list@) + tx@.map_values(
                |e: (String, TxControl<T>)| live_sender(name@, e),
            ),
        ),
{
    let ghost more = tx@.map_values(|e: (String, TxControl<T>)| live_sender(name@, e));
    let ghost before = json::items(list@);
    let mut r: Json = list;
    let mut i: usize = 0;
    assert(before + more.take(0) =~= before);
    while i < tx.len()
        invariant
            i <= tx@.len(),
            more == tx@.map_values(|e: (String, TxControl<T>)| live_sender(name@, e)),
            r@ == JsonView::Array(before + more.take(i as int)),
        decreases tx@.len() - i,
    {
        let id: &String = tx.key(i);
        let c: &TxControl<T> = tx.value(i);
        let port: String = match &c.dest {
            Some(d) => behind_colon(d.as_str()),
            None => text::text("5004"),
        };
        let mut label: String = text::cat(name, " · ");
        text::push_text(&mut label, id.as_str());
        let entry: Json = json::object()
            .with_text("id", text::cat("self-", id.as_str()).as_str())
            .with_text("name", label.as_str())
            .with_text("group", front_of_colon(id.as_str()).as_str())
            .with_text("port", port.as_str())
            .with_number("channels", c.channels as u64)
            .with_text("via", "self-live");
        assert((before + more.take(i as int)).push(entry@) =~= before + more.take(i + 1));
        r = r.item(entry);
        i = i + 1;
    }
    assert(more.take(i as int) =~= more);
    r
}

/// Appends the streams that were found.
fn push_found(list: Json, found: &Table<u16, DiscoveredEntry>) -> (r: Json)
    requires
        list@ is Array,
    ensures
        r@ == JsonView::Array(
            json::items(list@) + found@.map_values(|e: (u16, DiscoveredEntry)| found_sender(e)),
        ),
{
    let ghost more = found@.map_values(|e: (u16, DiscoveredEntry)| found_sender(e));
    let ghost before = json::items(list@);
    let mut r: Json = list;
    let mut i: usize = 0;
    assert(before + more.take(0) =~= before);
    while i < found.len()
        invariant
            i <= found@.len(),
            more == found@.map_values(|e: (u16, DiscoveredEntry)| found_sender(e)),
            r@ == JsonView::Array(before + more.take(i as int)),
        decreases found@.len() - i,
    {
        let e: &DiscoveredEntry = found.value(i);
        let entry: Json = json::object()
            .with_text("id", text::cat("disc-", e.session_name.as_str()).as_str())
            .with_text("name", e.session_name.as_str())
            .with_text("group", e.multicast_addr.as_str())
            .with_number("port", e.port as u64)
            .with_number("channels", e.channels as u64)
            .with_text("via", e.via);
        assert((before + more.take(i as int)).push(entry@) =~= before + more.take(i + 1));
        r = r.item(entry);
        i = i + 1;
    }
    assert(more.take(i as int) =~= more);
    r
}

/// Appends the receivers of one other node.
fn push_receivers(list: Json, p: &NmosPeer) -> (r: Json)
    requires
        list@ is Array,
    ensures
        r@ == JsonView::Array(json::items(list@) + receivers_of(*p)),
{
    let ghost more = receivers_of(*p);
    let ghost before = json::items(list@);
    let mut r: Json = list;
    let mut i: usize = 0;
    assert(before + more.take(0) =~= before);
    while i < p.receivers.len()
        invariant
            i <= p.receivers@.len(),
            more == receivers_of(*p),
            r@ == JsonView::Array(before + more.take(i as int)),
        decreases p.receivers@.len() - i,
    {
        let entry: Json = json::object()
            .with_text("id", p.receivers[i].0.as_str())
            .with_text("name", p.receivers[i].1.as_str())
            .with_text("nmos_host", p.host.as_str())
            .with_number("nmos_port", p.port as u64)
            .with_bool("connected", false)
            .with("source", Json::Null)
            .with_number("last_seen", p.last_seen);
        assert((before + more.take(i as int)).push(entry@) =~= before + more.take(i + 1));
        r = r.item(entry);
        i = i + 1;
    }
    assert(more.take(i as int) =~= more);
    r
}

/// Appends the receivers of all other nodes.
fn push_peers(list: Json, peers: &Table<String, NmosPeer>) -> (r: Json)
    requires
        list@ is Array,
    ensures
        r@ == JsonView::Array(json::items(list@) + receivers_of_all(peers@)),
{
    let ghost before = json::items(list@);
    let mut r: Json = list;
    let mut i: usize = 0;
    assert(before + receivers_of_all(peers@.take(0)) =~= before);
    while i < peers.len()
        invariant
            i <= peers@.len(),
            r@ == JsonView::Array(before + receivers_of_all(peers@.take(i as int))),
        decreases peers@.len() - i,
    {
        r = push_receivers(r, peers.value(i));
        proof {
            let all = peers@.take(i + 1);
            assert(all.drop_last() =~= peers@.take(i as int));
            assert(before + receivers_of_all(peers@.take(i as int)) + receivers_of(
                peers@[i as int].1,
            ) =~= before + receivers_of_all(all));
        }
        i = i + 1;
    }
    assert(peers@.take(i as int) =~= peers@);
    r
}

/// All senders and receivers that are known, as JSON: the own ones, those that
/// run, and those that were found.
pub fn registry<T, R>(state: &AppState<T, R>) -> (j: Json)
    ensures
        j@ == empty()
            .with("senders"@, JsonView::Array(all_senders(*state)))
            .with("receivers"@, JsonView::Array(receiver_list(*state))),
{
    let name: &str = state.node.name.as_str();
    let own: Json = json::object()
        .with_text("id", ids::uuid_from(text::cat(name, ":sender").as_str()).as_str())
        .with_text("name", name)
        .with_text("group", "239.69.83.67")
        .with_number("port", 5004)
        .with_number("channels", state.node.profile.channels as u64)
        .with_text("via", "self");
    let first: Json = json::array().item(own);
    assert(json::items(first@) =~= seq![
        own_sender(state.node.name@, state.node.profile.channels),
    ]);
    let senders: Json = push_found(push_live(first, name, &state.tx), &state.discovered);
    let sink: Option<&RxControl<R>> = state.rx.get(&text::text(NMOS_RX_ID));
    let connected: bool = sink.is_some();
    let source: Json = match sink {
        Some(c) => json::optional_text(&c.source),
        None => Json::Null,
    };
    let sink_entry: Json = json::object()
        .with_text("id", ids::uuid_from(text::cat(name, ":receiver").as_str()).as_str())
        .with_text("name", text::cat(name, " (self)").as_str())
        .with_text("nmos_host", state.node.nmos_host.as_str())
        .with_number("nmos_port", state.node.nmos_port as u64)
        .with_bool("connected", connected)
        .with("source", source);
    let head: Json = json::array().item(sink_entry);
    assert(json::items(head@) =~= seq![
        own_receiver(
            state.node.name@,
            state.node.nmos_host@,
            state.node.nmos_port,
            table::holds(state.rx@, NMOS_RX_ID@),
            sink_source(state.rx@),
        ),
    ]);
    let receivers: Json = push_peers(head, &state.nmos_peers);
    assert(json::items(senders@) =~= all_senders(*state));
    assert(json::items(receivers@) =~= receiver_list(*state));
    json::object().with("senders", senders).with("receivers", receivers)
}

/// What a request routes is what the receiver then receives: the description that
/// is built for a group, a port and a number of channels asks a sink for just
/// that group and port, at the profile of that number of channels.
pub proof fn routed_stream_is_received(host: Seq<char>, group: Seq<u8>, port: u16, channels: u8)
    requires
        group.len() == 4,
        text::laws::free_of(host, '\n'),
    ensures
        sink_for(
            text::joined(routed_session(host, ipv4::dotted(group), port, channels).sdp_lines()),
        ) == Ok::<(Seq<u8>, u16, StreamProfile), Seq<char>>(
            (group, port, StreamProfile::spec_aes67(channels)),
        ),
{
    let g = ipv4::dotted(group);
    let s = routed_session(host, g, port, channels);
    reveal_strlit("route ");
    reveal_strlit(":");
    text::laws::lemma_decimal_plain(port as nat);
    ipv4::lemma_dotted_plain(group);
    ipv4::dotted_reads_back(group);
    assert(s.session_name.last() == text::decimal(port as nat).last());
    sdp::laws::built_stream_parses_back(s);
}

/// What connects a sink is seen in the list, and what parts it, too: after it was
/// set the sink is connected, with the description that it was set with, and
/// after it was released it is not.
pub proof fn sink_state_follows<H>(
    before: Seq<(String, RxControl<H>)>,
    key: String,
    control: RxControl<H>,
)
    requires
        table::one_each(before),
        key@ == NMOS_RX_ID@,
    ensures
        ({
            let set = table::put(before, key, control);
            &&& table::holds(set, NMOS_RX_ID@)
            &&& sink_description(set) == text::optional(control.active_sdp)
            &&& sink_source(set) == text::optional(control.source)
        }),
        ({
            let released = table::without(before, NMOS_RX_ID@);
            &&& !table::holds(released, NMOS_RX_ID@)
            &&& sink_description(released) is None
        }),
{
    table::put_is_found(before, key, control, key@);
    table::removed_is_gone(before, NMOS_RX_ID@, NMOS_RX_ID@);
}

/// A request to connect makes a description from which the sink takes the group
/// of the request, its port, 5004 where it names none, and its channels, two where
/// it names none.
pub proof fn asked_stream_is_received(req: RouteRequest, a: Seq<u8>)
    requires
        a.len() == 4,
        text::laws::free_of(req.host@, '\n'),
    ensures
        sink_for(text::joined(asked_session(req, ipv4::dotted(a)).sdp_lines())) == Ok::<
            (Seq<u8>, u16, StreamProfile),
            Seq<char>,
        >(
            (
                a,
                if req.media_port is Some {
                    req.media_port->0
                } else {
                    5004u16
                },
                StreamProfile::spec_aes67(
                    if req.channels is Some {
                        req.channels->0
                    } else {
                        2u8
                    },
                ),
            ),
        ),
{
    let s = asked_session(req, ipv4::dotted(a));
    routed_stream_is_received(
        req.host@,
        a,
        match req.media_port {
            Some(p) => p,
            None => 5004,
        },
        match req.channels {
            Some(n) => n,
            None => 2,
        },
    );
}

/// The answer says the status, and that it went well just where the status is one
/// of success.
pub proof fn reply_says_whether_it_went_well(status: u16)
    ensures
        json::says(reply_view(status), "status"@, num(status as int)),
        json::says(reply_view(status), "ok"@, JsonView::Bool(status / 100 == 2)),
{
    reveal_strlit("status");
    reveal_strlit("ok");
    let o = reply_view(status);
    json::lemma_said(o, 0, 0);
    json::lemma_said(o, 1, 0);
}

/// Every receiver of a list that has an id is read, with its label where it has
/// one; and nothing else is read.
pub proof fn receivers_with_an_id_are_read(body: Seq<char>, n: nat, i: nat, id: Seq<char>)
    requires
        i < n,
        json::text_in(body, "/"@ + text::decimal(i) + "/id"@) == Some(id),
    ensures
        receivers_in(body, n).contains(
            (
                id,
                match json::text_in(body, "/"@ + text::decimal(i) + "/label"@) {
                    Some(l) => l,
                    None => Seq::empty(),
                },
            ),
        ),
        receivers_in(body, n).len() <= n,
    decreases n,
{
    reveal_strlit("");
    assert(""@ =~= Seq::<char>::empty());
    let label = match json::text_in(body, "/"@ + text::decimal(i) + "/label"@) {
        Some(l) => l,
        None => Seq::empty(),
    };
    lemma_no_more_receivers(body, n);
    let r = receivers_in(body, n);
    let before = receivers_in(body, (n - 1) as nat);
    if i == n - 1 {
        assert(r.last() == (id, label));
    } else {
        receivers_with_an_id_are_read(body, (n - 1) as nat, i, id);
        let k = choose|k: int| 0 <= k < before.len() && before[k] == (id, label);
        assert(r[k] == (id, label));
    }
}

proof fn lemma_no_more_receivers(body: Seq<char>, n: nat)
    ensures
        receivers_in(body, n).len() <= n,
    decreases n,
{
    if n > 0 {
        lemma_no_more_receivers(body, (n - 1) as nat);
    }
}

/// A node that was found is reached at its address, and by its name where no
/// address is known.
pub proof fn node_is_reached_at_its_address(found: ResolvedService)
    ensures
        found.addr matches Some(a) ==> service_host(found) == a@,
        found.addr is None ==> service_host(found) == mdns::without_dots(found.host@),
{
}

/// A description is received just where it can be read and its group is an
/// address.
pub proof fn unreadable_description_is_not_received(d: Seq<char>)
    ensures
        sink_for(d) is Ok <==> (sdp::parsed(d) matches Ok(s) && ipv4::address(s.multicast_addr)
            is Some),
        sink_for(d) matches Ok((a, p, profile)) ==> (sdp::parsed(d) matches Ok(s) && p == s.port
            && profile == s.profile && ipv4::address(s.multicast_addr) == Some(a)),
{
}

/// All of the receivers in a list are read, as many as it has; what is no list
/// holds none.
pub proof fn whole_list_is_read(body: Seq<char>)
    ensures
        json::array_len_in(body, Seq::empty()) matches Some(n) ==> all_receivers(body)
            == receivers_in(body, n),
        json::array_len_in(body, Seq::empty()) is None ==> all_receivers(body).len() == 0,
{
    reveal_strlit("");
    assert(""@ =~= Seq::<char>::empty());
}

} // verus!
