//! What the REST interface answers: the node, PTP, the streams that were found,
//! and the streams that run. Requests to start one are checked here.

pub mod laws;

use super::identity;
use super::state::{DiscoveredEntry, EntryModel, NodeInfo, RxControl, TxControl};
use super::table;
use super::table::Table;
use super::tasks::{stream_id, stream_key, TxParams};
use crate::ipv4;
use crate::json;
use crate::json::{empty, num, text_or_null, txt, Json, JsonView};
use crate::net::ptp::master::PtpMasterStatus;
use crate::net::ptp::slave::PtpSlaveStatus;
use crate::order;
use crate::profile::{StreamProfile, MAX_CHANNELS};
use crate::ptp::ClockIdentity;
use crate::sdp::{clock_view, PtpRefClock};
use crate::text;
use vstd::prelude::*;

verus! {

/// The payload type of streams.
pub const PAYLOAD_TYPE: u8 = 97;

/// The source of the streams of this node: the bytes of `TAKT`.
pub const STREAM_SSRC: u32 = 0x5441_4B54;

/// Which stream to stop; without an id, all.
#[derive(Debug)]
pub struct StreamIdQuery {
    pub id: Option<String>,
}

fn copy_text(s: &Option<String>) -> (r: Option<String>)
    ensures
        text::optional(r) == text::optional(*s),
{
    match s {
        Some(t) => Some(text::text(t.as_str())),
        None => None,
    }
}

// ---------------------------------------------------------------------------
// Node
// ---------------------------------------------------------------------------
/// A profile, for display.
#[derive(Debug)]
pub struct ProfileDto {
    pub channels: u8,
    pub sample_rate: u32,
    pub ptime_us: u32,
    pub encoding: String,
}

/// A profile, as JSON.
pub open spec fn profile_json(p: StreamProfile) -> JsonView {
    empty()
        .with("channels"@, num(p.channels as int))
        .with("sample_rate"@, num(p.sample_rate as int))
        .with("ptime_us"@, num(p.ptime_us as int))
        .with("encoding"@, txt(p.encoding.name()))
}

impl ProfileDto {
    /// A profile, for display.
    pub fn of(p: StreamProfile) -> (d: Self)
        ensures
            d.channels == p.channels,
            d.sample_rate == p.sample_rate,
            d.ptime_us == p.ptime_us,
            d.encoding@ == p.encoding.name(),
    {
        ProfileDto {
            channels: p.channels,
            sample_rate: p.sample_rate,
            ptime_us: p.ptime_us,
            encoding: text::text(p.encoding.rtpmap_name()),
        }
    }

    /// The profile, as JSON.
    pub fn json(&self) -> (j: Json)
        ensures
            j@ == empty()
                .with("channels"@, num(self.channels as int))
                .with("sample_rate"@, num(self.sample_rate as int))
                .with("ptime_us"@, num(self.ptime_us as int))
                .with("encoding"@, txt(self.encoding@)),
    {
        json::object()
            .with_number("channels", self.channels as u64)
            .with_number("sample_rate", self.sample_rate as u64)
            .with_number("ptime_us", self.ptime_us as u64)
            .with_text("encoding", self.encoding.as_str())
    }
}

/// The node, for display.
#[derive(Debug)]
pub struct NodeDto {
    pub name: String,
    pub interface: String,
    pub profile: ProfileDto,
}

impl NodeDto {
    /// The node, for display.
    pub fn of(node: &NodeInfo) -> (d: Self)
        ensures
            d.name@ == node.name@,
            d.interface@ == ipv4::dotted(node.interface@),
            d.profile.channels == node.profile.channels,
            d.profile.sample_rate == node.profile.sample_rate,
            d.profile.ptime_us == node.profile.ptime_us,
            d.profile.encoding@ == node.profile.encoding.name(),
    {
        NodeDto {
            name: text::text(node.name.as_str()),
            interface: ipv4::dotted_text(node.interface),
            profile: ProfileDto::of(node.profile),
        }
    }
}

/// The node, as JSON.
pub open spec fn node_view(node: NodeInfo) -> JsonView {
    empty()
        .with("name"@, txt(node.name@))
        .with("interface"@, txt(ipv4::dotted(node.interface@)))
        .with("profile"@, profile_json(node.profile))
}

/// The node, as JSON.
pub fn node_json(node: &NodeInfo) -> (j: Json)
    ensures
        j@ == empty()
            .with("name"@, txt(node.name@))
            .with("interface"@, txt(ipv4::dotted(node.interface@)))
            .with("profile"@, profile_json(node.profile)),
        j@ == node_view(*node),
{
    let d: NodeDto = NodeDto::of(node);
    json::object()
        .with_text("name", d.name.as_str())
        .with_text("interface", d.interface.as_str())
        .with("profile", d.profile.json())
}

/// The sign of life, as JSON.
pub open spec fn health_view(node: NodeInfo) -> JsonView {
    empty().with("status"@, txt("ok"@)).with("node"@, txt(node.name@))
}

/// The sign of life, as JSON.
pub fn health_json(node: &NodeInfo) -> (j: Json)
    ensures
        j@ == empty().with("status"@, txt("ok"@)).with("node"@, txt(node.name@)),
        j@ == health_view(*node),
{
    json::object().with_text("status", "ok").with_text("node", node.name.as_str())
}

// ---------------------------------------------------------------------------
// PTP
// ---------------------------------------------------------------------------
/// The role of the node in PTP.
pub open spec fn ptp_role(node: NodeInfo) -> Seq<char> {
    if node.ptp_master {
        "master"@
    } else if node.ptp_slave {
        "slave"@
    } else {
        "off"@
    }
}

/// An identity for display, or null.
pub open spec fn identity_json(id: Option<ClockIdentity>) -> JsonView {
    match id {
        Some(x) => txt(identity::marked(x@, ':', false)),
        None => JsonView::Null,
    }
}

fn identity_value(id: Option<ClockIdentity>) -> (j: Json)
    ensures
        j@ == identity_json(id),
{
    match id {
        Some(x) => json::text_of(identity::fmt_id(&x).as_str()),
        None => Json::Null,
    }
}

/// PTP, as JSON: the role, and what slave and master know.
pub open spec fn ptp_view(
    node: NodeInfo,
    slave: PtpSlaveStatus,
    master: PtpMasterStatus,
) -> JsonView {
    empty()
        .with("role"@, txt(ptp_role(node)))
        .with("enabled"@, JsonView::Bool(node.ptp_slave || node.ptp_master))
        .with("synced"@, JsonView::Bool(slave.synced))
        .with("offset_ns"@, num(slave.offset_ns as int))
        .with("path_delay_ns"@, num(slave.path_delay_ns as int))
        .with("grandmaster"@, identity_json(slave.grandmaster))
        .with("master_active"@, JsonView::Bool(master.active))
        .with("announces_sent"@, num(master.announces_sent as int))
        .with("syncs_sent"@, num(master.syncs_sent as int))
        .with("delay_resps_sent"@, num(master.delay_resps_sent as int))
        .with("better_master"@, identity_json(master.better_master))
}

/// PTP, as JSON: the role, and what slave and master know.
pub fn ptp_json(node: &NodeInfo, slave: &PtpSlaveStatus, master: &PtpMasterStatus) -> (j: Json)
    ensures
        j@ == empty()
            .with("role"@, txt(ptp_role(*node)))
            .with("enabled"@, JsonView::Bool(node.ptp_slave || node.ptp_master))
            .with("synced"@, JsonView::Bool(slave.synced))
            .with("offset_ns"@, num(slave.offset_ns as int))
            .with("path_delay_ns"@, num(slave.path_delay_ns as int))
            .with("grandmaster"@, identity_json(slave.grandmaster))
            .with("master_active"@, JsonView::Bool(master.active))
            .with("announces_sent"@, num(master.announces_sent as int))
            .with("syncs_sent"@, num(master.syncs_sent as int))
            .with("delay_resps_sent"@, num(master.delay_resps_sent as int))
            .with("better_master"@, identity_json(master.better_master)),
        j@ == ptp_view(*node, *slave, *master),
{
    let role: &str = if node.ptp_master {
        "master"
    } else if node.ptp_slave {
        "slave"
    } else {
        "off"
    };
    json::object()
        .with_text("role", role)
        .with_bool("enabled", node.ptp_slave || node.ptp_master)
        .with_bool("synced", slave.synced)
        .with("offset_ns", json::signed(slave.offset_ns))
        .with("path_delay_ns", json::signed(slave.path_delay_ns))
        .with("grandmaster", identity_value(slave.grandmaster))
        .with_bool("master_active", master.active)
        .with_number("announces_sent", master.announces_sent)
        .with_number("syncs_sent", master.syncs_sent)
        .with_number("delay_resps_sent", master.delay_resps_sent)
        .with("better_master", identity_value(master.better_master))
}

// ---------------------------------------------------------------------------
// Streams that were found
// ---------------------------------------------------------------------------
/// A stream that was found, for display.
#[derive(Debug)]
pub struct DiscoveredDto {
    pub msg_id_hash: u16,
    pub session_name: String,
    pub multicast_addr: String,
    pub port: u16,
    pub channels: u8,
    pub sample_rate: u32,
    pub source: String,
    /// How it was found: `SAP` or `RAVENNA`.
    pub via: &'static str,
    pub last_seen: u64,
}

/// A stream that was found, as JSON.
pub open spec fn discovered_json(id: u16, e: EntryModel) -> JsonView {
    empty()
        .with("msg_id_hash"@, num(id as int))
        .with("session_name"@, txt(e.session_name))
        .with("multicast_addr"@, txt(e.multicast_addr))
        .with("port"@, num(e.port as int))
        .with("channels"@, num(e.channels as int))
        .with("sample_rate"@, num(e.sample_rate as int))
        .with("source"@, txt(ipv4::dotted(e.source@)))
        .with("via"@, txt(e.via))
        .with("last_seen"@, num(e.last_seen as int))
}

impl DiscoveredDto {
    /// Whether this shows an entry of the list.
    pub open spec fn shows(&self, id: u16, e: EntryModel) -> bool {
        &&& self.msg_id_hash == id
        &&& self.session_name@ == e.session_name
        &&& self.multicast_addr@ == e.multicast_addr
        &&& self.port == e.port
        &&& self.channels == e.channels
        &&& self.sample_rate == e.sample_rate
        &&& self.source@ == ipv4::dotted(e.source@)
        &&& self.via@ == e.via
        &&& self.last_seen == e.last_seen
    }

    /// An entry of the list, for display.
    pub fn of(id: u16, e: &DiscoveredEntry) -> (d: Self)
        ensures
            d.shows(id, e@),
    {
        DiscoveredDto {
            msg_id_hash: id,
            session_name: text::text(e.session_name.as_str()),
            multicast_addr: text::text(e.multicast_addr.as_str()),
            port: e.port,
            channels: e.channels,
            sample_rate: e.sample_rate,
            source: ipv4::dotted_text(e.source),
            via: e.via,
            last_seen: e.last_seen,
        }
    }

    /// The stream, as JSON.
    pub fn json(&self) -> (j: Json)
        ensures
            forall|id: u16, e: EntryModel|
                #[trigger] self.shows(id, e) ==> j@ == discovered_json(id, e),
    {
        json::object()
            .with_number("msg_id_hash", self.msg_id_hash as u64)
            .with_text("session_name", self.session_name.as_str())
            .with_text("multicast_addr", self.multicast_addr.as_str())
            .with_number("port", self.port as u64)
            .with_number("channels", self.channels as u64)
            .with_number("sample_rate", self.sample_rate as u64)
            .with_text("source", self.source.as_str())
            .with_text("via", self.via)
            .with_number("last_seen", self.last_seen)
    }
}

/// The names of the streams that were found.
pub open spec fn session_names(s: Seq<(u16, DiscoveredEntry)>) -> Seq<String> {
    s.map_values(|e: (u16, DiscoveredEntry)| e.1.session_name)
}

/// Whether a list shows all streams that were found, in this order.
pub open spec fn shows_all(
    s: Seq<(u16, DiscoveredEntry)>,
    r: Seq<usize>,
    list: Seq<DiscoveredDto>,
) -> bool {
    &&& list.len() == r.len()
    &&& forall|i: int|
        0 <= i < list.len() ==> (#[trigger] list[i]).shows(
            s[r[i] as int].0,
            s[r[i] as int].1@,
        )
}

/// The streams that were found, by their names.
pub fn discovered(streams: &Table<u16, DiscoveredEntry>) -> (list: Vec<DiscoveredDto>)
    ensures
        exists|r: Seq<usize>|
            order::is_order(session_names(streams@), r) && #[trigger] shows_all(
                streams@,
                r,
                list@,
            ),
{
    let mut keys: Vec<String> = Vec::new();
    let mut i: usize = 0;
    while i < streams.len()
        invariant
            i <= streams@.len(),
            keys@ == session_names(streams@).take(i as int),
        decreases streams@.len() - i,
    {
        keys.push(streams.value(i).session_name.clone());
        i = i + 1;
        assert(keys@ =~= session_names(streams@).take(i as int));
    }
    assert(keys@ =~= session_names(streams@));
    let r: Vec<usize> = order::order(&keys);
    let mut list: Vec<DiscoveredDto> = Vec::new();
    while list.len() < r.len()
        invariant
            order::is_order(session_names(streams@), r@),
            list@.len() <= r@.len(),
            forall|k: int|
                0 <= k < list@.len() ==> (#[trigger] list@[k]).shows(
                    streams@[r@[k] as int].0,
                    streams@[r@[k] as int].1@,
                ),
        decreases r@.len() - list@.len(),
    {
        let at: usize = r[list.len()];
        list.push(DiscoveredDto::of(*streams.key(at), streams.value(at)));
    }
    assert(shows_all(streams@, r@, list@));
    list
}

// ---------------------------------------------------------------------------
// Streams that run
// ---------------------------------------------------------------------------
/// A stream that runs, as a value: `peer` is where it goes to or comes from.
pub struct StreamModel {
    pub id: Seq<char>,
    pub running: bool,
    pub peer: Option<Seq<char>>,
    pub channels: u8,
    pub packets: u64,
}

/// A sending stream, for display.
#[derive(Debug)]
pub struct TxStatusDto {
    /// Key of the stream: `group:port`.
    pub id: String,
    pub running: bool,
    pub dest: Option<String>,
    pub channels: u8,
    pub packets_sent: u64,
}

impl View for TxStatusDto {
    type V = StreamModel;

    open spec fn view(&self) -> StreamModel {
        StreamModel {
            id: self.id@,
            running: self.running,
            peer: text::optional(self.dest),
            channels: self.channels,
            packets: self.packets_sent,
        }
    }
}

/// A subscription, for display.
#[derive(Debug)]
pub struct RxStatusDto {
    /// Key of the subscription.
    pub id: String,
    pub running: bool,
    pub source: Option<String>,
    pub channels: u8,
    pub packets_recv: u64,
}

impl View for RxStatusDto {
    type V = StreamModel;

    open spec fn view(&self) -> StreamModel {
        StreamModel {
            id: self.id@,
            running: self.running,
            peer: text::optional(self.source),
            channels: self.channels,
            packets: self.packets_recv,
        }
    }
}

/// A sending stream, as JSON.
pub open spec fn tx_view(m: StreamModel) -> JsonView {
    empty()
        .with("id"@, txt(m.id))
        .with("running"@, JsonView::Bool(m.running))
        .with("dest"@, text_or_null(m.peer))
        .with("channels"@, num(m.channels as int))
        .with("packets_sent"@, num(m.packets as int))
}

/// A subscription, as JSON.
pub open spec fn rx_view(m: StreamModel) -> JsonView {
    empty()
        .with("id"@, txt(m.id))
        .with("running"@, JsonView::Bool(m.running))
        .with("source"@, text_or_null(m.peer))
        .with("channels"@, num(m.channels as int))
        .with("packets_recv"@, num(m.packets as int))
}

impl TxStatusDto {
    /// The stream, as JSON.
    pub fn json(&self) -> (j: Json)
        ensures
            j@ == empty()
                .with("id"@, txt(self@.id))
                .with("running"@, JsonView::Bool(self@.running))
                .with("dest"@, text_or_null(self@.peer))
                .with("channels"@, num(self@.channels as int))
                .with("packets_sent"@, num(self@.packets as int)),
            j@ == tx_view(self@),
    {
        json::object()
            .with_text("id", self.id.as_str())
            .with_bool("running", self.running)
            .with("dest", json::optional_text(&self.dest))
            .with_number("channels", self.channels as u64)
            .with_number("packets_sent", self.packets_sent)
    }
}

impl RxStatusDto {
    /// The subscription, as JSON.
    pub fn json(&self) -> (j: Json)
        ensures
            j@ == empty()
                .with("id"@, txt(self@.id))
                .with("running"@, JsonView::Bool(self@.running))
                .with("source"@, text_or_null(self@.peer))
                .with("channels"@, num(self@.channels as int))
                .with("packets_recv"@, num(self@.packets as int)),
            j@ == rx_view(self@),
    {
        json::object()
            .with_text("id", self.id.as_str())
            .with_bool("running", self.running)
            .with("source", json::optional_text(&self.source))
            .with_number("channels", self.channels as u64)
            .with_number("packets_recv", self.packets_recv)
    }
}

/// The keys of a table of streams.
pub open spec fn stream_keys<V>(s: Seq<(String, V)>) -> Seq<String> {
    s.map_values(|e: (String, V)| e.0)
}

/// The keys of a table of streams.
fn keys_of<V>(t: &Table<String, V>) -> (keys: Vec<String>)
    ensures
        keys@ == stream_keys(t@),
{
    let mut keys: Vec<String> = Vec::new();
    let mut i: usize = 0;
    while i < t.len()
        invariant
            i <= t@.len(),
            keys@ == stream_keys(t@).take(i as int),
        decreases t@.len() - i,
    {
        keys.push(t.key(i).clone());
        i = i + 1;
        assert(keys@ =~= stream_keys(t@).take(i as int));
    }
    assert(keys@ =~= stream_keys(t@));
    keys
}

/// A sending stream in a table, with the packets that it has sent.
pub open spec fn tx_model<H>(e: (String, TxControl<H>), packets: u64) -> StreamModel {
    StreamModel {
        id: e.0@,
        running: e.1.running,
        peer: text::optional(e.1.dest),
        channels: e.1.channels,
        packets,
    }
}

/// A subscription in a table, with the packets that it has received.
pub open spec fn rx_model<H>(e: (String, RxControl<H>), packets: u64) -> StreamModel {
    StreamModel {
        id: e.0@,
        running: e.1.running,
        peer: text::optional(e.1.source),
        channels: e.1.channels,
        packets,
    }
}

/// Whether a list shows all sending streams, in this order.
pub open spec fn shows_tx<H>(
    s: Seq<(String, TxControl<H>)>,
    packets: Seq<u64>,
    r: Seq<usize>,
    list: Seq<TxStatusDto>,
) -> bool {
    &&& list.len() == r.len()
    &&& forall|i: int|
        0 <= i < list.len() ==> (#[trigger] list[i])@ == tx_model(
            s[r[i] as int],
            packets[r[i] as int],
        )
}

/// Whether a list shows all subscriptions, in this order.
pub open spec fn shows_rx<H>(
    s: Seq<(String, RxControl<H>)>,
    packets: Seq<u64>,
    r: Seq<usize>,
    list: Seq<RxStatusDto>,
) -> bool {
    &&& list.len() == r.len()
    &&& forall|i: int|
        0 <= i < list.len() ==> (#[trigger] list[i])@ == rx_model(
            s[r[i] as int],
            packets[r[i] as int],
        )
}

/// All sending streams, by their keys. `packets` holds the packets that each has
/// sent, in the order of the table.
pub fn list_tx<H>(t: &Table<String, TxControl<H>>, packets: &Vec<u64>) -> (list: Vec<TxStatusDto>)
    requires
        packets@.len() == t@.len(),
    ensures
        exists|r: Seq<usize>|
            order::is_order(stream_keys(t@), r) && #[trigger] shows_tx(t@, packets@, r, list@),
{
    let keys: Vec<String> = keys_of(t);
    let r: Vec<usize> = order::order(&keys);
    let mut list: Vec<TxStatusDto> = Vec::new();
    while list.len() < r.len()
        invariant
            order::is_order(stream_keys(t@), r@),
            packets@.len() == t@.len(),
            list@.len() <= r@.len(),
            forall|k: int|
                0 <= k < list@.len() ==> (#[trigger] list@[k])@ == tx_model(
                    t@[r@[k] as int],
                    packets@[r@[k] as int],
                ),
        decreases r@.len() - list@.len(),
    {
        let at: usize = r[list.len()];
        let c: &TxControl<H> = t.value(at);
        list.push(
            TxStatusDto {
                id: text::text(t.key(at).as_str()),
                running: c.running,
                dest: copy_text(&c.dest),
                channels: c.channels,
                packets_sent: packets[at],
            },
        );
    }
    assert(shows_tx(t@, packets@, r@, list@));
    list
}

/// All subscriptions, by their keys. `packets` holds the packets that each has
/// received, in the order of the table.
pub fn list_rx<H>(t: &Table<String, RxControl<H>>, packets: &Vec<u64>) -> (list: Vec<RxStatusDto>)
    requires
        packets@.len() == t@.len(),
    ensures
        exists|r: Seq<usize>|
            order::is_order(stream_keys(t@), r) && #[trigger] shows_rx(t@, packets@, r, list@),
{
    let keys: Vec<String> = keys_of(t);
    let r: Vec<usize> = order::order(&keys);
    let mut list: Vec<RxStatusDto> = Vec::new();
    while list.len() < r.len()
        invariant
            order::is_order(stream_keys(t@), r@),
            packets@.len() == t@.len(),
            list@.len() <= r@.len(),
            forall|k: int|
                0 <= k < list@.len() ==> (#[trigger] list@[k])@ == rx_model(
                    t@[r@[k] as int],
                    packets@[r@[k] as int],
                ),
        decreases r@.len() - list@.len(),
    {
        let at: usize = r[list.len()];
        let c: &RxControl<H> = t.value(at);
        list.push(
            RxStatusDto {
                id: text::text(t.key(at).as_str()),
                running: c.running,
                source: copy_text(&c.source),
                channels: c.channels,
                packets_recv: packets[at],
            },
        );
    }
    assert(shows_rx(t@, packets@, r@, list@));
    list
}

// ---------------------------------------------------------------------------
// Requests
// ---------------------------------------------------------------------------
/// A request to start a sending stream.
#[derive(Debug)]
pub struct TxStartRequest {
    /// Multicast group; without one, 239.69.83.67.
    pub group: Option<String>,
    /// Port; without one, 5004.
    pub port: Option<u16>,
    /// Channels; without a number, 2.
    pub channels: Option<u8>,
}

/// A request to subscribe to a stream.
#[derive(Debug)]
pub struct RxSubscribeRequest {
    /// Multicast group.
    pub group: String,
    /// Port; without one, 5004.
    pub port: Option<u16>,
    /// Channels; without a number, 2.
    pub channels: Option<u8>,
}

/// A stream that is asked for.
#[derive(Debug, Clone, Copy, PartialEq, Eq)]
pub struct StreamPlan {
    pub group: [u8; 4],
    pub port: u16,
    pub channels: u8,
}

/// A refusal: a status and a message.
pub struct Refusal {
    pub status: u16,
    pub message: Seq<char>,
}

/// The stream that a request asks for, or why it is refused: a group that is no
/// address, or a number of channels that no stream can have. Where a stream with
/// the same key runs, the request conflicts with it.
pub open spec fn asked(
    group: Seq<char>,
    port: Option<u16>,
    channels: Option<u8>,
    kind: Seq<char>,
    runs: spec_fn(Seq<char>) -> bool,
) -> Result<(Seq<u8>, u16, u8), Refusal> {
    let p = match port {
        Some(x) => x,
        None => 5004,
    };
    let n = match channels {
        Some(x) => x,
        None => 2,
    };
    match ipv4::address(group) {
        None => Err(Refusal { status: 400, message: "ungültige group-Adresse"@ }),
        Some(a) => if n == 0 || n > MAX_CHANNELS {
            Err(
                Refusal {
                    status: 400,
                    message: "channels muss 1..="@ + text::decimal(MAX_CHANNELS as nat)
                        + " sein"@,
                },
            )
        } else if runs(stream_key(a, p)) {
            Err(
                Refusal {
                    status: 409,
                    message: kind + stream_key(a, p) + " läuft bereits"@,
                },
            )
        } else {
            Ok((a, p, n))
        },
    }
}

/// Which streams a table holds.
pub open spec fn runs_in<V>(s: Seq<(String, V)>) -> spec_fn(Seq<char>) -> bool {
    |id: Seq<char>| table::holds(s, id)
}

/// Whether a plan is the one that was asked for.
pub open spec fn plan_for(
    r: Result<StreamPlan, (u16, String)>,
    asked: Result<(Seq<u8>, u16, u8), Refusal>,
) -> bool {
    match asked {
        Ok((a, p, n)) => r matches Ok(plan) && plan.group@ == a && plan.port == p && plan.channels
            == n,
        Err(why) => r matches Err(e) && e.0 == why.status && e.1@ == why.message,
    }
}

/// Checks a request for a stream.
fn plan_stream<V>(
    t: &Table<String, V>,
    group: &str,
    port: Option<u16>,
    channels: Option<u8>,
    kind: &str,
) -> (r: Result<StreamPlan, (u16, String)>)
    ensures
        plan_for(r, asked(group@, port, channels, kind@, runs_in(t@))),
{
    let address: [u8; 4] = match ipv4::parse_ipv4(group) {
        Some(a) => a,
        None => {
            return Err((400, text::text("ungültige group-Adresse")));
        },
    };
    let port: u16 = match port {
        Some(p) => p,
        None => 5004,
    };
    let channels: u8 = match channels {
        Some(n) => n,
        None => 2,
    };
    if channels == 0 || channels > MAX_CHANNELS {
        let mut message: String = text::text("channels muss 1..=");
        text::push_decimal(&mut message, MAX_CHANNELS as u64);
        text::push_text(&mut message, " sein");
        return Err((400, message));
    }
    let id: String = stream_id(address, port);
    if t.contains(&id) {
        let mut message: String = text::cat(kind, id.as_str());
        text::push_text(&mut message, " läuft bereits");
        return Err((409, message));
    }
    Ok(StreamPlan { group: address, port, channels })
}

/// The group that a request for a sending stream names.
pub open spec fn tx_group(req: TxStartRequest) -> Seq<char> {
    match req.group {
        Some(g) => g@,
        None => "239.69.83.67"@,
    }
}

/// Checks a request for a sending stream.
pub fn tx_plan<H>(t: &Table<String, TxControl<H>>, req: &TxStartRequest) -> (r: Result<
    StreamPlan,
    (u16, String),
>)
    ensures
        plan_for(r, asked(tx_group(*req), req.port, req.channels, "TX "@, runs_in(t@))),
{
    match &req.group {
        Some(g) => plan_stream(t, g.as_str(), req.port, req.channels, "TX "),
        None => plan_stream(t, "239.69.83.67", req.port, req.channels, "TX "),
    }
}

/// Checks a request for a subscription.
pub fn rx_plan<H>(t: &Table<String, RxControl<H>>, req: &RxSubscribeRequest) -> (r: Result<
    StreamPlan,
    (u16, String),
>)
    ensures
        plan_for(r, asked(req.group@, req.port, req.channels, "RX "@, runs_in(t@))),
{
    plan_stream(t, req.group.as_str(), req.port, req.channels, "RX ")
}

/// Whether `p` are the parameters of a planned sending stream.
pub open spec fn is_params_of(
    node: NodeInfo,
    plan: StreamPlan,
    refclk: Option<PtpRefClock>,
    p: TxParams,
) -> bool {
    &&& p.iface == node.interface
    &&& p.group == plan.group
    &&& p.port == plan.port
    &&& p.profile == StreamProfile::spec_aes67(plan.channels)
    &&& p.payload_type == PAYLOAD_TYPE
    &&& p.ssrc == STREAM_SSRC
    &&& p.node_name@ == node.name@
    &&& clock_view(p.refclk) == clock_view(refclk)
}

/// The parameters of a planned sending stream. The packet time follows the
/// number of channels.
pub fn tx_params(node: &NodeInfo, plan: StreamPlan, refclk: Option<PtpRefClock>) -> (p: TxParams)
    ensures
        p.iface == node.interface,
        p.group == plan.group,
        p.port == plan.port,
        p.profile == StreamProfile::spec_aes67(plan.channels),
        p.payload_type == PAYLOAD_TYPE,
        p.ssrc == STREAM_SSRC,
        p.node_name@ == node.name@,
        clock_view(p.refclk) == clock_view(refclk),
        is_params_of(*node, plan, refclk, p),
{
    TxParams {
        iface: node.interface,
        group: plan.group,
        port: plan.port,
        profile: StreamProfile::aes67(plan.channels),
        payload_type: PAYLOAD_TYPE,
        ssrc: STREAM_SSRC,
        node_name: text::text(node.name.as_str()),
        refclk,
    }
}

/// Enters a sending stream that was started, and gives its state for display.
/// `handle` is what it takes to stop it.
pub fn tx_started<H>(
    t: &mut Table<String, TxControl<H>>,
    plan: StreamPlan,
    packets: u64,
    handle: H,
) -> (d: TxStatusDto)
    requires
        table::one_each(old(t)@),
        !table::holds(old(t)@, stream_key(plan.group@, plan.port)),
    ensures
        table::one_each(final(t)@),
        d@ == (StreamModel {
            id: stream_key(plan.group@, plan.port),
            running: true,
            peer: Some(stream_key(plan.group@, plan.port)),
            channels: plan.channels,
            packets,
        }),
        final(t)@.len() == old(t)@.len() + 1,
        final(t)@.drop_last() == old(t)@,
        tx_model(final(t)@.last(), packets) == d@,
        final(t)@.last().1.handle == handle,
{
    let id: String = stream_id(plan.group, plan.port);
    let dto = TxStatusDto {
        id: text::text(id.as_str()),
        running: true,
        dest: Some(text::text(id.as_str())),
        channels: plan.channels,
        packets_sent: packets,
    };
    let control = TxControl {
        running: true,
        dest: Some(text::text(id.as_str())),
        channels: plan.channels,
        handle,
    };
    t.insert(id, control);
    assert(t@.drop_last() =~= old(t)@);
    dto
}

/// Enters a subscription that was started, and gives its state for display.
pub fn rx_started<H>(
    t: &mut Table<String, RxControl<H>>,
    plan: StreamPlan,
    packets: u64,
    handle: H,
) -> (d: RxStatusDto)
    requires
        table::one_each(old(t)@),
        !table::holds(old(t)@, stream_key(plan.group@, plan.port)),
    ensures
        table::one_each(final(t)@),
        d@ == (StreamModel {
            id: stream_key(plan.group@, plan.port),
            running: true,
            peer: Some(stream_key(plan.group@, plan.port)),
            channels: plan.channels,
            packets,
        }),
        final(t)@.len() == old(t)@.len() + 1,
        final(t)@.drop_last() == old(t)@,
        rx_model(final(t)@.last(), packets) == d@,
        final(t)@.last().1.handle == handle,
        final(t)@.last().1.active_sdp is None,
{
    let id: String = stream_id(plan.group, plan.port);
    let dto = RxStatusDto {
        id: text::text(id.as_str()),
        running: true,
        source: Some(text::text(id.as_str())),
        channels: plan.channels,
        packets_recv: packets,
    };
    let control = RxControl {
        running: true,
        source: Some(text::text(id.as_str())),
        channels: plan.channels,
        handle,
        active_sdp: None,
    };
    t.insert(id, control);
    assert(t@.drop_last() =~= old(t)@);
    dto
}

/// A stream that runs is not started a second time: a request for it is answered
/// with status 409 until the stream is taken out, and then it succeeds.
pub proof fn stream_runs_once<V>(
    s: Seq<(String, V)>,
    key: String,
    value: V,
    group: Seq<char>,
    port: Option<u16>,
    channels: Option<u8>,
    kind: Seq<char>,
)
    requires
        table::one_each(s),
        asked(group, port, channels, kind, runs_in(s)) matches Ok((a, p, n)) && key@
            == stream_key(a, p),
    ensures
        ({
            let running = table::put(s, key, value);
            let again = asked(group, port, channels, kind, runs_in(running));
            let stopped = table::without(running, key@);
            &&& again matches Err(why) && why.status == 409
            &&& asked(group, port, channels, kind, runs_in(stopped)) is Ok
        }),
{
    table::put_is_found(s, key, value, key@);
    let running = table::put(s, key, value);
    table::lemma_place(s, key@);
    assert(table::one_each(running)) by {
        assert forall|a: int, b: int|
            #![trigger running[a], running[b]]
            0 <= a < b < running.len() implies table::Key::id(&running[a].0) != table::Key::id(
            &running[b].0,
        ) by {
            assert(running[a] == s[a]);
            if b < s.len() {
                assert(running[b] == s[b]);
            }
        }
    }
    table::removed_is_gone(running, key@, key@);
}

} // verus!
