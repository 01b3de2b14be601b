//! The state of the node that the tasks and the REST interface share.

use super::clockmon::{DriftStatus, GnssStatus};
use super::identity;
use super::monitor::TrafficMonitor;
use super::table;
use super::table::Table;
use crate::clock;
use crate::net::ptp::master::PtpMasterStatus;
use crate::net::ptp::slave::PtpSlaveStatus;
use crate::net::sap::SapEvent;
use crate::profile::StreamProfile;
use crate::ptp::ClockIdentity;
use crate::sdp::{clock_view, AudioSession, ClockModel, PtpRefClock, SessionModel};
use crate::text;
use vstd::prelude::*;

verus! {

/// Key of the receiver that the matrix controls: one sink whose source changes.
/// Other subscriptions have `group:port` as their key.
pub const NMOS_RX_ID: &'static str = "nmos-receiver";

/// The configuration of the node.
#[derive(Debug, Clone)]
pub struct NodeInfo {
    pub name: String,
    /// Address of the interface; 0.0.0.0 lets the system choose.
    pub interface: [u8; 4],
    pub profile: StreamProfile,
    /// Whether the node locks to a grandmaster.
    pub ptp_slave: bool,
    /// Whether the node offers itself as grandmaster.
    pub ptp_master: bool,
    /// PTP domain of the node (127 is common in broadcast, AES67 has 0).
    pub ptp_domain: u8,
    /// Host at which the own receiver is reached.
    pub nmos_host: String,
    /// Port at which the own receiver is reached.
    pub nmos_port: u16,
}

/// Another node that was found, with its receivers.
#[derive(Debug, Clone)]
pub struct NmosPeer {
    /// Host of its APIs.
    pub host: String,
    /// Port of its APIs.
    pub port: u16,
    /// Its receivers: id and label.
    pub receivers: Vec<(String, String)>,
    pub last_seen: u64,
}

/// A stream of somebody else that was found.
#[derive(Debug, Clone)]
pub struct DiscoveredEntry {
    pub session_name: String,
    pub multicast_addr: String,
    pub port: u16,
    pub channels: u8,
    pub sample_rate: u32,
    pub source: [u8; 4],
    /// How it was found: `SAP` or `RAVENNA`.
    pub via: &'static str,
    /// Unix time of the last announcement, in seconds.
    pub last_seen: u64,
}

/// A stream that was found, as a value.
pub struct EntryModel {
    pub session_name: Seq<char>,
    pub multicast_addr: Seq<char>,
    pub port: u16,
    pub channels: u8,
    pub sample_rate: u32,
    pub source: [u8; 4],
    pub via: Seq<char>,
    pub last_seen: u64,
}

impl View for DiscoveredEntry {
    type V = EntryModel;

    open spec fn view(&self) -> EntryModel {
        EntryModel {
            session_name: self.session_name@,
            multicast_addr: self.multicast_addr@,
            port: self.port,
            channels: self.channels,
            sample_rate: self.sample_rate,
            source: self.source,
            via: self.via@,
            last_seen: self.last_seen,
        }
    }
}

/// A sending stream that runs. `H` is what it takes to stop it.
#[derive(Debug)]
pub struct TxControl<H> {
    pub running: bool,
    pub dest: Option<String>,
    pub channels: u8,
    pub handle: H,
}

/// A subscription that runs. `H` is what it takes to stop it.
#[derive(Debug)]
pub struct RxControl<H> {
    pub running: bool,
    pub source: Option<String>,
    pub channels: u8,
    pub handle: H,
    /// The description that it was set with, if the matrix set it.
    pub active_sdp: Option<String>,
}

/// The clock reference that goes into descriptions: as a master, the own
/// identity; as a slave, that of the grandmaster, once it is known.
pub open spec fn reference(node: NodeInfo, grandmaster: Option<ClockIdentity>) -> Option<
    ClockModel,
> {
    if node.ptp_master {
        Some(
            ClockModel {
                gmid: identity::marked(identity::identity_of(node.name@), '-', true),
                domain: node.ptp_domain,
            },
        )
    } else if node.ptp_slave {
        match grandmaster {
            Some(id) => Some(
                ClockModel { gmid: identity::marked(id@, '-', true), domain: node.ptp_domain },
            ),
            None => None,
        }
    } else {
        None
    }
}

impl NodeInfo {
    /// The clock reference that goes into descriptions. `grandmaster` is the
    /// identity that the slave has learnt. Without PTP there is none.
    pub fn ptp_refclk(&self, grandmaster: Option<ClockIdentity>) -> (r: Option<PtpRefClock>)
        ensures
            clock_view(r) == reference(*self, grandmaster),
    {
        let id: ClockIdentity = if self.ptp_master {
            identity::clock_identity_from(self.name.as_str())
        } else if self.ptp_slave {
            match grandmaster {
                Some(id) => id,
                None => {
                    return None;
                },
            }
        } else {
            return None;
        };
        Some(PtpRefClock { gmid: identity::fmt_eui64(&id), domain: self.ptp_domain })
    }
}

/// What the node knows and does. `T` and `R` are what it takes to stop a sending
/// stream and a subscription.
#[derive(Debug)]
pub struct AppState<T, R> {
    pub node: NodeInfo,
    /// Streams that were found, by their message id.
    pub discovered: Table<u16, DiscoveredEntry>,
    /// Sending streams that run, by `group:port`.
    pub tx: Table<String, TxControl<T>>,
    /// Subscriptions that run, by `group:port`, or [`NMOS_RX_ID`] for the one
    /// that the matrix controls.
    pub rx: Table<String, RxControl<R>>,
    pub monitor: TrafficMonitor,
    /// State of the PTP slave.
    pub ptp: PtpSlaveStatus,
    /// State of the PTP master.
    pub ptp_master: PtpMasterStatus,
    pub gnss: GnssStatus,
    pub drift: DriftStatus,
    /// The chosen reference source.
    pub clock_ref: String,
    /// Other nodes, by the name of their instance.
    pub nmos_peers: Table<String, NmosPeer>,
}

impl<T, R> AppState<T, R> {
    /// Every table has one entry for each key, and the monitor is well-formed.
    pub open spec fn wf(&self) -> bool {
        &&& table::one_each(self.discovered@)
        &&& table::one_each(self.tx@)
        &&& table::one_each(self.rx@)
        &&& table::one_each(self.nmos_peers@)
        &&& self.monitor.wf()
    }

    /// A node at its start: nothing runs, and nothing was seen.
    pub fn new(node: NodeInfo) -> (s: Self)
        ensures
            s.wf(),
            s.node == node,
            s.discovered@.len() == 0,
            s.tx@.len() == 0,
            s.rx@.len() == 0,
            s.nmos_peers@.len() == 0,
            s.monitor.senders().len() == 0,
            s.monitor.traffic() == super::monitor::Stats::zero(),
            s.ptp == (PtpSlaveStatus {
                synced: false,
                offset_ns: 0,
                path_delay_ns: 0,
                grandmaster: None,
            }),
            s.ptp_master == PtpMasterStatus::blank(),
            !s.gnss.connected && s.gnss.mode == 0 && s.gnss.time is None,
            s.gnss.sats@.len() == 0 && s.gnss.sats_visible == 0 && s.gnss.sats_used == 0,
            s.drift == (DriftStatus {
                valid: false,
                ppm: 0,
                hz_at_48k: 0,
                percent: 0,
                window_s: 0,
                samples: 0,
            }),
            s.clock_ref@ == "auto"@,
    {
        AppState {
            node,
            discovered: Table::new(),
            tx: Table::new(),
            rx: Table::new(),
            monitor: TrafficMonitor::default(),
            ptp: PtpSlaveStatus::default(),
            ptp_master: PtpMasterStatus::default(),
            gnss: GnssStatus::default(),
            drift: DriftStatus::default(),
            clock_ref: text::text("auto"),
            nmos_peers: Table::new(),
        }
    }

    /// The clock reference that goes into descriptions.
    pub fn ptp_refclk(&self) -> (r: Option<PtpRefClock>)
        ensures
            clock_view(r) == reference(self.node, self.ptp.grandmaster),
    {
        self.node.ptp_refclk(self.ptp.grandmaster)
    }
}

/// Whole seconds of a span in nanoseconds.
pub fn whole_seconds(nanos: i128) -> (s: u64)
    requires
        0 <= nanos < 0x1_0000_0000_0000_0000 * 1_000_000_000,
    ensures
        s == nanos as int / 1_000_000_000,
{
    (nanos / 1_000_000_000) as u64
}

/// Unix time in seconds, 0 before the epoch.
pub fn now_unix() -> (s: u64) {
    whole_seconds(clock::now_nanos())
}

/// What a session found on the network becomes.
pub open spec fn found(
    session: SessionModel,
    source: [u8; 4],
    via: Seq<char>,
    now: u64,
) -> EntryModel {
    EntryModel {
        session_name: session.session_name,
        multicast_addr: session.multicast_addr,
        port: session.port,
        channels: session.profile.channels,
        sample_rate: session.profile.sample_rate,
        source,
        via,
        last_seen: now,
    }
}

/// The entry for a session found on the network.
pub fn entry_of(session: AudioSession, source: [u8; 4], via: &'static str, now: u64) -> (e:
    DiscoveredEntry)
    ensures
        e@ == found(session@, source, via@, now),
{
    DiscoveredEntry {
        session_name: session.session_name,
        multicast_addr: session.multicast_addr,
        port: session.port,
        channels: session.profile.channels,
        sample_rate: session.profile.sample_rate,
        source,
        via,
        last_seen: now,
    }
}

/// Whether `after` is what a SAP packet makes of the streams that were found.
pub open spec fn sap_noted(
    before: Seq<(u16, DiscoveredEntry)>,
    event: SapEvent,
    now: u64,
    after: Seq<(u16, DiscoveredEntry)>,
) -> bool {
    if !event.announce {
        after == table::without(before, event.msg_id_hash)
    } else {
        match event.session {
            Some(s) => exists|e: DiscoveredEntry|
                #![trigger table::put(before, event.msg_id_hash, e)]
                e@ == found(s@, event.source, "SAP"@, now) && after == table::put(
                    before,
                    event.msg_id_hash,
                    e,
                ),
            None => after == before,
        }
    }
}

/// Takes a SAP packet into the list of streams found: an announcement whose
/// session could be read is put in under its message id, one that could not
/// changes nothing, and a deletion takes the stream out.
pub fn note_sap(streams: &mut Table<u16, DiscoveredEntry>, event: SapEvent, now: u64)
    requires
        table::one_each(old(streams)@),
    ensures
        table::one_each(final(streams)@),
        match (event.announce, event.session) {
            (true, Some(s)) => exists|e: DiscoveredEntry|
                #![trigger table::put(old(streams)@, event.msg_id_hash, e)]
                e@ == found(s@, event.source, "SAP"@, now) && final(streams)@ == table::put(
                    old(streams)@,
                    event.msg_id_hash,
                    e,
                ),
            (true, None) => final(streams)@ == old(streams)@,
            (false, _) => final(streams)@ == table::without(old(streams)@, event.msg_id_hash),
        },
        sap_noted(old(streams)@, event, now, final(streams)@),
{
    if event.announce {
        match event.session {
            Some(s) => {
                let e: DiscoveredEntry = entry_of(s, event.source, "SAP", now);
                streams.insert(event.msg_id_hash, e);
            },
            None => {},
        }
    } else {
        let _ = streams.remove(&event.msg_id_hash);
    }
}

/// The streams that are taken out of a table of streams: the one with this id,
/// or all.
pub open spec fn taken<V>(s: Seq<(String, V)>, id: Option<Seq<char>>) -> Seq<V> {
    match id {
        Some(k) => if table::holds(s, k) {
            seq![table::at(s, k)]
        } else {
            Seq::empty()
        },
        None => s.map_values(|e: (String, V)| e.1),
    }
}

/// Takes the stream with this id out, or all where no id is given, for an orderly
/// stop.
pub fn take_streams<V>(streams: &mut Table<String, V>, id: &Option<String>) -> (v: Vec<V>)
    requires
        table::one_each(old(streams)@),
    ensures
        table::one_each(final(streams)@),
        v@ == taken(
            old(streams)@,
            match *id {
                Some(k) => Some(k@),
                None => None,
            },
        ),
        final(streams)@ == (match *id {
            Some(k) => table::without(old(streams)@, k@),
            None => Seq::empty(),
        }),
{
    match id {
        Some(k) => {
            let mut v: Vec<V> = Vec::new();
            match streams.remove(k) {
                Some(c) => {
                    v.push(c);
                },
                None => {},
            }
            assert(v@ =~= taken(old(streams)@, Some(k@)));
            v
        },
        None => streams.take_all(),
    }
}

/// A master refers to its own clock, whatever it has heard of; a slave that is no
/// master refers to the grandmaster that it follows and to nothing before it
/// knows one; and without PTP there is no reference. The domain is that of the
/// node.
pub proof fn reference_is_the_clock_that_is_followed(node: NodeInfo, id: ClockIdentity)
    ensures
        node.ptp_master ==> reference(node, None) == reference(node, Some(id)),
        node.ptp_master ==> (reference(node, None) matches Some(rc) && rc.gmid == identity::marked(
            identity::identity_of(node.name@),
            '-',
            true,
        ) && rc.domain == node.ptp_domain),
        !node.ptp_master ==> reference(node, None) is None,
        !node.ptp_master && node.ptp_slave ==> (reference(node, Some(id)) matches Some(rc)
            && rc.gmid == identity::marked(id@, '-', true) && rc.domain == node.ptp_domain),
        !node.ptp_master && !node.ptp_slave ==> reference(node, Some(id)) is None,
{
}

/// What is entered of a session that was found is what its description says.
pub proof fn found_session_is_entered_as_described(
    s: SessionModel,
    source: [u8; 4],
    via: Seq<char>,
    now: u64,
)
    ensures
        found(s, source, via, now).session_name == s.session_name,
        found(s, source, via, now).multicast_addr == s.multicast_addr,
        found(s, source, via, now).port == s.port,
        found(s, source, via, now).channels == s.profile.channels,
        found(s, source, via, now).sample_rate == s.profile.sample_rate,
        found(s, source, via, now).source == source,
        found(s, source, via, now).via == via,
        found(s, source, via, now).last_seen == now,
{
}

/// Without an id all streams are taken out, in their order; with one, that stream
/// and no other.
pub proof fn stopped_streams_are_those_asked_for<V>(s: Seq<(String, V)>, i: int)
    requires
        table::one_each(s),
        0 <= i < s.len(),
    ensures
        taken(s, None).len() == s.len(),
        taken(s, None)[i] == s[i].1,
        taken(s, Some(s[i].0@)) == seq![s[i].1],
        forall|id: Seq<char>|
            (forall|k: int| 0 <= k < s.len() ==> (#[trigger] s[k]).0@ != id) ==> (#[trigger] taken(
                s,
                Some(id),
            )).len() == 0,
{
    table::lemma_place_is(s, s[i].0@, i);
    assert forall|id: Seq<char>|
        (forall|k: int| 0 <= k < s.len() ==> (#[trigger] s[k]).0@ != id) implies (#[trigger] taken(
        s,
        Some(id),
    )).len() == 0 by {
        table::lemma_place(s, id);
        let p = table::place(s, id);
        if p < s.len() {
            assert(s[p].0@ == id);
        }
    }
}

/// An announcement that can be read makes its stream known, under its message id,
/// as its description says; one that cannot be read changes nothing; and a
/// deletion makes the stream unknown. Other streams stay as they were.
pub proof fn announced_stream_is_known_until_deleted(
    before: Seq<(u16, DiscoveredEntry)>,
    event: SapEvent,
    now: u64,
    after: Seq<(u16, DiscoveredEntry)>,
    other: u16,
)
    requires
        table::one_each(before),
        sap_noted(before, event, now, after),
        other != event.msg_id_hash,
    ensures
        event.announce && event.session is Some ==> table::holds(after, event.msg_id_hash) && ({
            let e = table::at(after, event.msg_id_hash);
            let s = event.session->0;
            &&& e.session_name@ == s.session_name@
            &&& e.multicast_addr@ == s.multicast_addr@
            &&& e.port == s.port
            &&& e.channels == s.profile.channels
            &&& e.sample_rate == s.profile.sample_rate
            &&& e.source == event.source
            &&& e.via@ == "SAP"@
            &&& e.last_seen == now
        }),
        event.announce && event.session is None ==> after == before,
        !event.announce ==> !table::holds(after, event.msg_id_hash),
        table::holds(after, other) == table::holds(before, other),
        table::holds(before, other) ==> table::at(after, other) == table::at(before, other),
{
    if !event.announce {
        table::removed_is_gone(before, event.msg_id_hash, other);
    } else if let Some(s) = event.session {
        let e = choose|e: DiscoveredEntry|
            #![trigger table::put(before, event.msg_id_hash, e)]
            e@ == found(s@, event.source, "SAP"@, now) && after == table::put(
                before,
                event.msg_id_hash,
                e,
            );
        table::put_is_found(before, event.msg_id_hash, e, other);
    }
}

} // verus!
