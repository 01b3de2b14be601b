//! The PTP master: what it sends on each tick of its timers and on each message.
//! The caller receives and sends.

use super::{
    log_interval, PtpMessage, PtpProfile, FLAG_PTP_TIMESCALE, FLAG_TWO_STEP, PTP_EVENT_PORT,
    PTP_GENERAL_PORT,
};
use crate::bytes;
use crate::ptp::wire::{
    Announce, DelayResp, MessageType, PortIdentity, PtpHeader, PtpTimestamp, TimestampedMsg,
};
use crate::ptp::{BmcaOrder, ClockDataset, ClockIdentity};
use vstd::prelude::*;

verus! {

/// Status of the master.
#[derive(Debug, Clone, Copy, PartialEq, Eq)]
pub struct PtpMasterStatus {
    /// The node is the active grandmaster: no better one is known.
    pub active: bool,
    pub announces_sent: u64,
    pub syncs_sent: u64,
    pub delay_resps_sent: u64,
    /// A better grandmaster, if one was seen.
    pub better_master: Option<ClockIdentity>,
}

impl PtpMasterStatus {
    /// No counter is at the end of its 64 bits.
    pub open spec fn room(self) -> bool {
        &&& self.announces_sent < u64::MAX
        &&& self.syncs_sent < u64::MAX
        &&& self.delay_resps_sent < u64::MAX
    }

    /// The status before anything happened.
    pub open spec fn blank() -> PtpMasterStatus {
        PtpMasterStatus {
            active: false,
            announces_sent: 0,
            syncs_sent: 0,
            delay_resps_sent: 0,
            better_master: None,
        }
    }
}

impl Default for PtpMasterStatus {
    fn default() -> (s: Self)
        ensures
            s == PtpMasterStatus::blank(),
    {
        PtpMasterStatus {
            active: false,
            announces_sent: 0,
            syncs_sent: 0,
            delay_resps_sent: 0,
            better_master: None,
        }
    }
}

/// A datagram to be sent to the PTP group.
#[derive(Debug)]
pub struct Outgoing {
    pub port: u16,
    pub bytes: Vec<u8>,
}

/// What the master goes by.
pub struct MasterModel {
    pub our_identity: ClockIdentity,
    pub profile: PtpProfile,
    pub status: PtpMasterStatus,
    pub announce_seq: u16,
    pub sync_seq: u16,
    /// The best foreign grandmaster that is known.
    pub best_foreign: Option<ClockDataset>,
    /// Own announce intervals since it announced itself last.
    pub foreign_stale: u8,
}

/// How many announce intervals a foreign grandmaster may be silent: about three
/// seconds, at least three intervals, at most 255.
pub open spec fn stale_limit(announce_ns: u64) -> int {
    let n = if announce_ns == 0 {
        255
    } else {
        (3_000_000_000 + announce_ns - 1) / announce_ns as int
    };
    if n < 3 {
        3
    } else if n > 255 {
        255
    } else {
        n
    }
}

impl MasterModel {
    /// The own dataset: class and priorities by the profile, a software clock.
    pub open spec fn dataset(self) -> ClockDataset {
        ClockDataset {
            priority1: self.profile.priority1,
            clock_class: self.profile.clock_class,
            clock_accuracy: 0xFE,
            offset_scaled_log_variance: 0xFFFF,
            priority2: self.profile.priority2,
            clock_identity: self.our_identity,
            steps_removed: 0,
        }
    }

    /// Whether the node is the active grandmaster: no foreign one is known, or it
    /// is worse.
    pub open spec fn active(self) -> bool {
        match self.best_foreign {
            Some(f) => ClockDataset::ordered(self.dataset(), f) == BmcaOrder::ABetter,
            None => true,
        }
    }

    /// The header of an own message.
    pub open spec fn header(self, t: MessageType, seq: u16, log: i8, flags: u16) -> PtpHeader {
        PtpHeader {
            message_type: t,
            version: 2,
            message_length: 0,
            domain: self.profile.domain,
            flags,
            correction: 0,
            source_port: PortIdentity { clock_identity: self.our_identity, port: 1 },
            sequence_id: seq,
            control: 0,
            log_message_interval: log,
        }
    }

    /// The Announce that is sent at the time `now`.
    pub open spec fn announce(self, now: i128) -> Announce {
        Announce {
            header: self.header(
                MessageType::Announce,
                self.announce_seq,
                super::nearest_log(self.profile.announce_interval),
                FLAG_PTP_TIMESCALE,
            ),
            origin_timestamp: PtpTimestamp::of_nanos(now),
            current_utc_offset: 37,
            gm_priority1: self.profile.priority1,
            gm_clock_class: self.profile.clock_class,
            gm_clock_accuracy: 0xFE,
            gm_offset_scaled_log_variance: 0xFFFF,
            gm_priority2: self.profile.priority2,
            gm_identity: self.our_identity,
            steps_removed: 0,
            time_source: 0xA0,
        }
    }

    /// The Sync that is sent at the time `now`: two-step.
    pub open spec fn sync(self, now: i128) -> TimestampedMsg {
        TimestampedMsg {
            header: self.header(
                MessageType::Sync,
                self.sync_seq,
                super::nearest_log(self.profile.sync_interval),
                FLAG_TWO_STEP,
            ),
            timestamp: PtpTimestamp::of_nanos(now),
        }
    }

    /// The Follow_Up to that Sync, with the same time.
    pub open spec fn follow_up(self, now: i128) -> TimestampedMsg {
        TimestampedMsg {
            header: self.header(
                MessageType::FollowUp,
                self.sync_seq,
                super::nearest_log(self.profile.sync_interval),
                0,
            ),
            timestamp: PtpTimestamp::of_nanos(now),
        }
    }

    /// The answer to the Delay_Req with the header `req`, received at `now`.
    pub open spec fn delay_resp(self, req: PtpHeader, now: i128) -> DelayResp {
        DelayResp {
            header: self.header(MessageType::DelayResp, req.sequence_id, 0, 0),
            receive_timestamp: PtpTimestamp::of_nanos(now),
            requesting_port: req.source_port,
        }
    }

    /// Whether an Announce comes from another clock.
    pub open spec fn foreign(self, a: Announce) -> bool {
        a.gm_identity@ != self.our_identity@
    }

    /// Whether the known grandmaster stays the best one when `d` announces itself:
    /// it is another clock, and better.
    pub open spec fn outranks(self, d: ClockDataset) -> bool {
        self.best_foreign matches Some(f) && ClockDataset::ordered(f, d) == BmcaOrder::ABetter
    }

    /// The identity of the best foreign grandmaster, where it is better than the
    /// own clock.
    pub open spec fn better(self) -> Option<ClockIdentity> {
        match self.best_foreign {
            Some(f) => if ClockDataset::ordered(self.dataset(), f) == BmcaOrder::BBetter {
                Some(f.clock_identity)
            } else {
                None
            },
            None => None,
        }
    }

    /// After an Announce of the own domain. The own one is passed over. The better
    /// of the known grandmaster and the new one is kept; a new Announce of the
    /// known one takes the place of its last one.
    pub open spec fn noted(self, a: Announce) -> MasterModel {
        if !self.foreign(a) {
            self
        } else {
            let m = if self.outranks(a.dataset()) {
                self
            } else {
                MasterModel { best_foreign: Some(a.dataset()), foreign_stale: 0, ..self }
            };
            MasterModel {
                status: PtpMasterStatus { better_master: m.better(), ..m.status },
                ..m
            }
        }
    }

    /// After the Announces of `h`, one after the other.
    pub open spec fn heard(self, h: Seq<Announce>) -> MasterModel
        decreases h.len(),
    {
        if h.len() == 0 {
            self
        } else {
            self.heard(h.drop_last()).noted(h.last())
        }
    }

    /// One announce interval on: a foreign grandmaster that has been silent for
    /// too long is forgotten, and the status says whether the node is active.
    pub open spec fn aged(self) -> MasterModel {
        let m = if self.best_foreign is Some {
            let stale: u8 = if self.foreign_stale < 255 {
                (self.foreign_stale + 1) as u8
            } else {
                255
            };
            if stale >= stale_limit(self.profile.announce_interval) {
                MasterModel {
                    foreign_stale: stale,
                    best_foreign: None,
                    status: PtpMasterStatus { better_master: None, ..self.status },
                    ..self
                }
            } else {
                MasterModel { foreign_stale: stale, ..self }
            }
        } else {
            self
        };
        MasterModel { status: PtpMasterStatus { active: m.active(), ..m.status }, ..m }
    }
}

/// A datagram to be sent, as a value: its port and its bytes.
pub type OutgoingModel = (u16, Seq<u8>);

/// The datagram that an option holds.
pub open spec fn outgoing_view(o: Option<Outgoing>) -> Option<OutgoingModel> {
    match o {
        Some(x) => Some((x.port, x.bytes@)),
        None => None,
    }
}

impl MasterModel {
    /// After a message that was received at the time `now`, and what is sent.
    pub open spec fn received(self, msg: PtpMessage, now: i128) -> (
        MasterModel,
        Option<OutgoingModel>,
    ) {
        if msg.header().domain != self.profile.domain {
            (self, None)
        } else {
            match msg {
                PtpMessage::Announce(a) => (self.noted(a), None),
                PtpMessage::Other(h) => if h.message_type == MessageType::DelayReq
                    && self.active() {
                    (
                        MasterModel {
                            status: PtpMasterStatus {
                                delay_resps_sent: (self.status.delay_resps_sent + 1) as u64,
                                ..self.status
                            },
                            ..self
                        },
                        Some((PTP_GENERAL_PORT, self.delay_resp(h, now).wire())),
                    )
                } else {
                    (self, None)
                },
                _ => (self, None),
            }
        }
    }

    /// After the announce timer ticked at the time `now`, and what is sent.
    pub open spec fn announced(self, now: i128) -> (MasterModel, Option<OutgoingModel>) {
        let m = self.aged();
        if m.active() {
            (
                MasterModel {
                    announce_seq: ((m.announce_seq + 1) % 0x1_0000) as u16,
                    status: PtpMasterStatus {
                        announces_sent: (m.status.announces_sent + 1) as u64,
                        ..m.status
                    },
                    ..m
                },
                Some((PTP_GENERAL_PORT, m.announce(now).wire())),
            )
        } else {
            (m, None)
        }
    }

    /// After the sync timer ticked at the time `now`.
    pub open spec fn synced(self) -> MasterModel {
        if self.active() {
            MasterModel {
                sync_seq: ((self.sync_seq + 1) % 0x1_0000) as u16,
                status: PtpMasterStatus {
                    syncs_sent: (self.status.syncs_sent + 1) as u64,
                    ..self.status
                },
                ..self
            }
        } else {
            self
        }
    }
}

/// PTP **master**: sends Announce, and Sync with Follow_Up, and answers
/// Delay_Req. It steps back as soon as a better grandmaster announces itself, so
/// that no two masters compete.
#[derive(Debug)]
pub struct PtpMaster {
    our_identity: ClockIdentity,
    profile: PtpProfile,
    status: PtpMasterStatus,
    announce_seq: u16,
    sync_seq: u16,
    best_foreign: Option<ClockDataset>,
    foreign_stale: u8,
}

impl View for PtpMaster {
    type V = MasterModel;

    closed spec fn view(&self) -> MasterModel {
        MasterModel {
            our_identity: self.our_identity,
            profile: self.profile,
            status: self.status,
            announce_seq: self.announce_seq,
            sync_seq: self.sync_seq,
            best_foreign: self.best_foreign,
            foreign_stale: self.foreign_stale,
        }
    }
}

/// The stale limit for an announce interval.
fn stale_after(announce_ns: u64) -> (n: u8)
    ensures
        n == stale_limit(announce_ns),
{
    if announce_ns == 0 {
        return 255;
    }
    let n: u64 = if announce_ns >= 3_000_000_000 {
        proof {
            let a = announce_ns as int;
            assert((3_000_000_000 + a - 1) / a <= 1) by (nonlinear_arith)
                requires
                    a >= 3_000_000_000,
            ;
        }
        1
    } else {
        (3_000_000_000 + announce_ns - 1) / announce_ns
    };
    if n < 3 {
        3
    } else if n > 255 {
        255
    } else {
        n as u8
    }
}

impl PtpMaster {
    /// A master with its own identity, by a profile.
    pub fn new(our_identity: ClockIdentity, profile: PtpProfile) -> (m: Self)
        ensures
            m@ == (MasterModel {
                our_identity,
                profile,
                status: PtpMasterStatus::blank(),
                announce_seq: 0,
                sync_seq: 0,
                best_foreign: None,
                foreign_stale: 0,
            }),
    {
        PtpMaster {
            our_identity,
            profile,
            status: PtpMasterStatus::default(),
            announce_seq: 0,
            sync_seq: 0,
            best_foreign: None,
            foreign_stale: 0,
        }
    }

    /// The status.
    pub fn status(&self) -> (s: PtpMasterStatus)
        ensures
            s == self@.status,
    {
        self.status
    }

    /// The own dataset.
    pub fn our_dataset(&self) -> (d: ClockDataset)
        ensures
            d == self@.dataset(),
    {
        ClockDataset {
            priority1: self.profile.priority1,
            clock_class: self.profile.clock_class,
            clock_accuracy: 0xFE,
            offset_scaled_log_variance: 0xFFFF,
            priority2: self.profile.priority2,
            clock_identity: self.our_identity,
            steps_removed: 0,
        }
    }

    /// Whether the node is the active grandmaster.
    pub fn is_active(&self) -> (b: bool)
        ensures
            b == self@.active(),
    {
        match &self.best_foreign {
            Some(f) => {
                let own: ClockDataset = self.our_dataset();
                match ClockDataset::compare(&own, f) {
                    BmcaOrder::ABetter => true,
                    _ => false,
                }
            },
            None => true,
        }
    }

    /// The header of an own message.
    fn base_header(&self, t: MessageType, seq: u16, log: i8, flags: u16) -> (h: PtpHeader)
        ensures
            h == self@.header(t, seq, log, flags),
    {
        PtpHeader {
            message_type: t,
            version: 2,
            message_length: 0,
            domain: self.profile.domain,
            flags,
            correction: 0,
            source_port: PortIdentity { clock_identity: self.our_identity, port: 1 },
            sequence_id: seq,
            control: 0,
            log_message_interval: log,
        }
    }

    /// The Announce for the time `now`.
    fn announce_bytes(&self, now: i128) -> (b: Vec<u8>)
        ensures
            b@ == self@.announce(now).wire(),
    {
        let announce = Announce {
            header: self.base_header(
                MessageType::Announce,
                self.announce_seq,
                log_interval(self.profile.announce_interval),
                FLAG_PTP_TIMESCALE,
            ),
            origin_timestamp: PtpTimestamp::from_nanos(now),
            current_utc_offset: 37,
            gm_priority1: self.profile.priority1,
            gm_clock_class: self.profile.clock_class,
            gm_clock_accuracy: 0xFE,
            gm_offset_scaled_log_variance: 0xFFFF,
            gm_priority2: self.profile.priority2,
            gm_identity: self.our_identity,
            steps_removed: 0,
            time_source: 0xA0,
        };
        let mut buf: [u8; 64] = [0; 64];
        let ghost zeros = buf@;
        let _ = announce.write(&mut buf);
        assert(announce == self@.announce(now));
        assert(zeros.skip(64) =~= Seq::<u8>::empty());
        assert(announce.wire() + zeros.skip(64) =~= announce.wire());
        bytes::copy_bytes(&buf)
    }

    /// A Sync or Follow_Up as bytes.
    fn timestamped_bytes(msg: &TimestampedMsg) -> (b: Vec<u8>)
        requires
            msg.header.message_type == MessageType::Sync || msg.header.message_type
                == MessageType::FollowUp,
        ensures
            b@ == msg.wire(),
    {
        let mut buf: [u8; 44] = [0; 44];
        let ghost zeros = buf@;
        let _ = msg.write(&mut buf);
        assert(zeros.skip(44) =~= Seq::<u8>::empty());
        assert(msg.wire() + zeros.skip(44) =~= msg.wire());
        bytes::copy_bytes(&buf)
    }

    /// The answer to a Delay_Req as bytes.
    fn delay_resp_bytes(&self, req: &PtpHeader, now: i128) -> (b: Vec<u8>)
        ensures
            b@ == self@.delay_resp(*req, now).wire(),
    {
        let resp = DelayResp {
            header: self.base_header(MessageType::DelayResp, req.sequence_id, 0, 0),
            receive_timestamp: PtpTimestamp::from_nanos(now),
            requesting_port: req.source_port,
        };
        let mut buf: [u8; 54] = [0; 54];
        let ghost zeros = buf@;
        let _ = resp.write(&mut buf);
        assert(resp == self@.delay_resp(*req, now));
        assert(zeros.skip(54) =~= Seq::<u8>::empty());
        assert(resp.wire() + zeros.skip(54) =~= resp.wire());
        bytes::copy_bytes(&buf)
    }

    /// Takes in a foreign Announce.
    fn note_foreign_announce(&mut self, a: &Announce)
        ensures
            final(self)@ == old(self)@.noted(*a),
    {
        if bytes::same_bytes(&a.gm_identity, &self.our_identity) {
            return;
        }
        let foreign: ClockDataset = a.to_clock_dataset();
        let known: Option<ClockDataset> = self.best_foreign;
        let best: ClockDataset = match known {
            Some(f) => match ClockDataset::compare(&f, &foreign) {
                BmcaOrder::ABetter => f,
                _ => {
                    self.foreign_stale = 0;
                    foreign
                },
            },
            None => {
                self.foreign_stale = 0;
                foreign
            },
        };
        self.best_foreign = Some(best);
        let own: ClockDataset = self.our_dataset();
        self.status.better_master = match ClockDataset::compare(&own, &best) {
            BmcaOrder::BBetter => Some(best.clock_identity),
            _ => None,
        };
    }

    /// Takes in a message that was received at the time `now`, and gives what is
    /// to be sent. Messages of other domains change nothing; only the active
    /// master answers a Delay_Req.
    pub fn on_message(&mut self, msg: &PtpMessage, now: i128) -> (out: Option<Outgoing>)
        requires
            old(self)@.status.room(),
        ensures
            out matches Some(o) ==> o.port == 320,
            (final(self)@, outgoing_view(out)) == old(self)@.received(*msg, now),
            ({
                let m = old(self)@;
                let own = msg.header().domain == m.profile.domain;
                match *msg {
                    PtpMessage::Announce(a) => {
                        &&& out is None
                        &&& final(self)@ == if own {
                            m.noted(a)
                        } else {
                            m
                        }
                    },
                    PtpMessage::Other(h) => {
                        let answer = own && h.message_type == MessageType::DelayReq && m.active();
                        &&& answer ==> {
                            &&& out matches Some(o) && o.port == PTP_GENERAL_PORT && o.bytes@
                                == m.delay_resp(h, now).wire()
                            &&& final(self)@ == (MasterModel {
                                status: PtpMasterStatus {
                                    delay_resps_sent: (m.status.delay_resps_sent + 1) as u64,
                                    ..m.status
                                },
                                ..m
                            })
                        }
                        &&& !answer ==> out is None && final(self)@ == m
                    },
                    _ => out is None && final(self)@ == m,
                }
            }),
    {
        if msg.domain() != self.profile.domain {
            return None;
        }
        match msg {
            PtpMessage::Announce(a) => {
                self.note_foreign_announce(a);
                None
            },
            PtpMessage::Other(h) => {
                match h.message_type {
                    MessageType::DelayReq => {
                        if self.is_active() {
                            let bytes: Vec<u8> = self.delay_resp_bytes(h, now);
                            self.status.delay_resps_sent = self.status.delay_resps_sent + 1;
                            Some(Outgoing { port: PTP_GENERAL_PORT, bytes })
                        } else {
                            None
                        }
                    },
                    _ => None,
                }
            },
            _ => None,
        }
    }

    /// The announce timer ticked at the time `now`: ages the foreign grandmaster,
    /// and gives the Announce to be sent where the node is active.
    pub fn on_announce_tick(&mut self, now: i128) -> (out: Option<Outgoing>)
        requires
            old(self)@.status.room(),
        ensures
            out matches Some(o) ==> o.port == 320,
            (final(self)@, outgoing_view(out)) == old(self)@.announced(now),
            ({
                let m = old(self)@.aged();
                &&& m.active() ==> {
                    &&& out matches Some(o) && o.port == PTP_GENERAL_PORT && o.bytes@ == m.announce(
                        now,
                    ).wire()
                    &&& final(self)@ == (MasterModel {
                        announce_seq: ((m.announce_seq + 1) % 0x1_0000) as u16,
                        status: PtpMasterStatus {
                            announces_sent: (m.status.announces_sent + 1) as u64,
                            ..m.status
                        },
                        ..m
                    })
                }
                &&& !m.active() ==> out is None && final(self)@ == m
            }),
    {
        if self.best_foreign.is_some() {
            self.foreign_stale = self.foreign_stale.saturating_add(1);
            if self.foreign_stale >= stale_after(self.profile.announce_interval) {
                self.best_foreign = None;
                self.status.better_master = None;
            }
        }
        let active: bool = self.is_active();
        self.status.active = active;
        assert(self@ == old(self)@.aged());
        if active {
            let bytes: Vec<u8> = self.announce_bytes(now);
            self.announce_seq = self.announce_seq.wrapping_add(1);
            self.status.announces_sent = self.status.announces_sent + 1;
            Some(Outgoing { port: PTP_GENERAL_PORT, bytes })
        } else {
            None
        }
    }

    /// The sync timer ticked at the time `now`: gives the Sync and the Follow_Up
    /// to be sent, in this order, where the node is active.
    pub fn on_sync_tick(&mut self, now: i128) -> (out: Option<(Outgoing, Outgoing)>)
        requires
            old(self)@.status.room(),
        ensures
            out matches Some((s, f)) ==> s.port == 319 && f.port == 320,
            final(self)@ == old(self)@.synced(),
            ({
                let m = old(self)@;
                &&& m.active() ==> {
                    &&& out matches Some((s, f)) && {
                        &&& s.port == PTP_EVENT_PORT
                        &&& s.bytes@ == m.sync(now).wire()
                        &&& f.port == PTP_GENERAL_PORT
                        &&& f.bytes@ == m.follow_up(now).wire()
                    }
                    &&& final(self)@ == (MasterModel {
                        sync_seq: ((m.sync_seq + 1) % 0x1_0000) as u16,
                        status: PtpMasterStatus {
                            syncs_sent: (m.status.syncs_sent + 1) as u64,
                            ..m.status
                        },
                        ..m
                    })
                }
                &&& !m.active() ==> out is None && final(self)@ == m
            }),
    {
        if !self.is_active() {
            return None;
        }
        let log: i8 = log_interval(self.profile.sync_interval);
        let sync = TimestampedMsg {
            header: self.base_header(MessageType::Sync, self.sync_seq, log, FLAG_TWO_STEP),
            timestamp: PtpTimestamp::from_nanos(now),
        };
        let follow_up = TimestampedMsg {
            header: self.base_header(MessageType::FollowUp, self.sync_seq, log, 0),
            timestamp: PtpTimestamp::from_nanos(now),
        };
        assert(sync == self@.sync(now));
        assert(follow_up == self@.follow_up(now));
        let first = Outgoing { port: PTP_EVENT_PORT, bytes: Self::timestamped_bytes(&sync) };
        let second = Outgoing {
            port: PTP_GENERAL_PORT,
            bytes: Self::timestamped_bytes(&follow_up),
        };
        self.sync_seq = self.sync_seq.wrapping_add(1);
        self.status.syncs_sent = self.status.syncs_sent + 1;
        Some((first, second))
    }
}

/// Whether every clock announces the same dataset throughout.
pub open spec fn steady(h: Seq<Announce>) -> bool {
    forall|i: int, j: int|
        #![trigger h[i], h[j]]
        0 <= i < h.len() && 0 <= j < h.len() && h[i].gm_identity@ == h[j].gm_identity@
            ==> h[i].dataset() == h[j].dataset()
}

/// What is known after any history of Announces is the best foreign grandmaster
/// in it: one of those heard, and none of the others is better.
pub proof fn best_heard_is_kept(m: MasterModel, h: Seq<Announce>)
    requires
        m.best_foreign is None,
        steady(h),
    ensures
        m.heard(h).our_identity == m.our_identity,
        m.heard(h).profile == m.profile,
        m.heard(h).best_foreign is None <==> forall|i: int|
            0 <= i < h.len() ==> !m.foreign(#[trigger] h[i]),
        m.heard(h).best_foreign matches Some(f) ==> exists|i: int|
            0 <= i < h.len() && m.foreign(#[trigger] h[i]) && f == h[i].dataset(),
        m.heard(h).best_foreign matches Some(f) ==> forall|i: int|
            0 <= i < h.len() && m.foreign(#[trigger] h[i]) ==> ClockDataset::ordered(
                f,
                h[i].dataset(),
            ) != BmcaOrder::BBetter,
    decreases h.len(),
{
    if h.len() > 0 {
        let init = h.drop_last();
        let last = h.last();
        assert(forall|i: int| 0 <= i < init.len() ==> init[i] == h[i]);
        best_heard_is_kept(m, init);
        let before = m.heard(init);
        let after = m.heard(h);
        assert(before.foreign(last) == m.foreign(last));
        assert(h[h.len() - 1] == last);
        if m.foreign(last) {
            let f = after.best_foreign->0;
            if before.outranks(last.dataset()) {
                let w = choose|i: int|
                    0 <= i < init.len() && m.foreign(#[trigger] init[i]) && f
                        == init[i].dataset();
                assert(m.foreign(h[w]) && f == h[w].dataset());
            } else {
                assert(m.foreign(h[h.len() - 1]) && f == h[h.len() - 1].dataset());
            }
            assert forall|i: int|
                0 <= i < h.len() && m.foreign(#[trigger] h[i]) implies ClockDataset::ordered(
                f,
                h[i].dataset(),
            ) != BmcaOrder::BBetter by {
                let d = h[i].dataset();
                if i < init.len() {
                    assert(m.foreign(init[i]));
                    let g = before.best_foreign->0;
                    assert(ClockDataset::ordered(g, d) != BmcaOrder::BBetter);
                    if !before.outranks(last.dataset()) {
                        let w = choose|k: int|
                            0 <= k < init.len() && m.foreign(#[trigger] init[k]) && g
                                == init[k].dataset();
                        assert(g == h[w].dataset());
                        crate::ptp::compare_is_antisymmetric(f, g);
                        crate::ptp::compare_is_antisymmetric(f, d);
                        if f.same_clock(g) {
                            assert(h[w].gm_identity@ == h[h.len() - 1].gm_identity@);
                        } else if g.same_clock(d) {
                            assert(h[w].gm_identity@ == h[i].gm_identity@);
                        } else if !f.same_clock(d) {
                            crate::ptp::compare_is_transitive(f, g, d);
                        }
                    }
                }
            }
        } else if before.best_foreign is Some {
            let f = after.best_foreign->0;
            let w = choose|i: int|
                0 <= i < init.len() && m.foreign(#[trigger] init[i]) && f == init[i].dataset();
            assert(m.foreign(h[w]) && f == h[w].dataset());
            assert forall|i: int|
                0 <= i < h.len() && m.foreign(#[trigger] h[i]) implies ClockDataset::ordered(
                f,
                h[i].dataset(),
            ) != BmcaOrder::BBetter by {
                assert(m.foreign(init[i]));
            }
        } else {
            assert forall|i: int| 0 <= i < h.len() implies !m.foreign(#[trigger] h[i]) by {
                if i < init.len() {
                    assert(!m.foreign(init[i]));
                }
            }
        }
    }
}

/// The node is active exactly as long as it has heard of no better grandmaster,
/// whatever else it has heard, and in whatever order; the status names a better
/// one exactly where there is one.
pub proof fn active_unless_a_better_one_was_heard(m: MasterModel, h: Seq<Announce>)
    requires
        m.best_foreign is None,
        m.status.better_master is None,
        steady(h),
    ensures
        m.heard(h).active() <==> forall|i: int|
            0 <= i < h.len() && m.foreign(#[trigger] h[i]) ==> ClockDataset::ordered(
                m.dataset(),
                h[i].dataset(),
            ) == BmcaOrder::ABetter,
        m.heard(h).status.better_master == m.heard(h).better(),
        m.heard(h).active() <==> m.heard(h).status.better_master is None,
{
    best_heard_is_kept(m, h);
    lemma_status_follows(m, h);
    let after = m.heard(h);
    let own = m.dataset();
    if let Some(f) = after.best_foreign {
        let w = choose|i: int|
            0 <= i < h.len() && m.foreign(#[trigger] h[i]) && f == h[i].dataset();
        assert(!own.same_clock(f));
        if after.active() {
            assert forall|i: int|
                0 <= i < h.len() && m.foreign(#[trigger] h[i]) implies ClockDataset::ordered(
                own,
                h[i].dataset(),
            ) == BmcaOrder::ABetter by {
                let d = h[i].dataset();
                if f.same_clock(d) {
                    assert(h[w].gm_identity@ == h[i].gm_identity@);
                } else {
                    crate::ptp::compare_is_transitive(own, f, d);
                }
            }
        } else {
            assert(m.foreign(h[w]));
        }
    }
}

/// The status names what is kept.
proof fn lemma_status_follows(m: MasterModel, h: Seq<Announce>)
    requires
        m.status.better_master == m.better(),
    ensures
        m.heard(h).status.better_master == m.heard(h).better(),
    decreases h.len(),
{
    if h.len() > 0 {
        lemma_status_follows(m, h.drop_last());
    }
}

/// No two masters compete: of two different clocks that have both heard the
/// other's Announce, among whatever else, never both are active. Exactly one is
/// where neither has heard of a third clock that is better than itself.
pub proof fn exactly_one_master_is_active(
    a: MasterModel,
    heard_by_a: Seq<Announce>,
    b: MasterModel,
    heard_by_b: Seq<Announce>,
)
    requires
        a.best_foreign is None,
        a.status.better_master is None,
        b.best_foreign is None,
        b.status.better_master is None,
        a.our_identity@ != b.our_identity@,
        steady(heard_by_a),
        steady(heard_by_b),
        exists|i: int|
            0 <= i < heard_by_a.len() && (#[trigger] heard_by_a[i]).dataset() == b.dataset(),
        exists|i: int|
            0 <= i < heard_by_b.len() && (#[trigger] heard_by_b[i]).dataset() == a.dataset(),
    ensures
        ({
            let a1 = a.heard(heard_by_a);
            let b1 = b.heard(heard_by_b);
            &&& !(a1.active() && b1.active())
            &&& no_better_third(a, heard_by_a, b) && no_better_third(b, heard_by_b, a)
                ==> a1.active() != b1.active()
        }),
{
    active_unless_a_better_one_was_heard(a, heard_by_a);
    active_unless_a_better_one_was_heard(b, heard_by_b);
    crate::ptp::compare_is_antisymmetric(a.dataset(), b.dataset());
    let i = choose|i: int|
        0 <= i < heard_by_a.len() && (#[trigger] heard_by_a[i]).dataset() == b.dataset();
    let j = choose|j: int|
        0 <= j < heard_by_b.len() && (#[trigger] heard_by_b[j]).dataset() == a.dataset();
    assert(heard_by_a[i].gm_identity@ == b.our_identity@) by {
        assert(heard_by_a[i].dataset().clock_identity == b.dataset().clock_identity);
    }
    assert(heard_by_b[j].gm_identity@ == a.our_identity@) by {
        assert(heard_by_b[j].dataset().clock_identity == a.dataset().clock_identity);
    }
    assert(a.foreign(heard_by_a[i]));
    assert(b.foreign(heard_by_b[j]));
    if no_better_third(a, heard_by_a, b) && no_better_third(b, heard_by_b, a) {
        assert forall|k: int|
            0 <= k < heard_by_a.len() && a.foreign(#[trigger] heard_by_a[k])
                && ClockDataset::ordered(a.dataset(), b.dataset())
                == BmcaOrder::ABetter implies ClockDataset::ordered(
            a.dataset(),
            heard_by_a[k].dataset(),
        ) == BmcaOrder::ABetter by {
            if heard_by_a[k].gm_identity@ == b.our_identity@ {
                assert(heard_by_a[i].gm_identity@ == heard_by_a[k].gm_identity@);
            }
        }
        assert forall|k: int|
            0 <= k < heard_by_b.len() && b.foreign(#[trigger] heard_by_b[k])
                && ClockDataset::ordered(b.dataset(), a.dataset())
                == BmcaOrder::ABetter implies ClockDataset::ordered(
            b.dataset(),
            heard_by_b[k].dataset(),
        ) == BmcaOrder::ABetter by {
            if heard_by_b[k].gm_identity@ == a.our_identity@ {
                assert(heard_by_b[j].gm_identity@ == heard_by_b[k].gm_identity@);
            }
        }
    }
}

/// Whether a clock has heard of none better than itself but, maybe, `other`.
pub open spec fn no_better_third(m: MasterModel, h: Seq<Announce>, other: MasterModel) -> bool {
    forall|i: int|
        0 <= i < h.len() && m.foreign(#[trigger] h[i]) && h[i].gm_identity@ != other.our_identity@
            ==> ClockDataset::ordered(m.dataset(), h[i].dataset()) == BmcaOrder::ABetter
}

/// While a better grandmaster is known, no Announce of a third clock makes the
/// node active, and the status goes on to name a better one.
pub proof fn third_clock_brings_no_return(m: MasterModel, a: Announce)
    requires
        m.best_foreign matches Some(f) && ClockDataset::ordered(m.dataset(), f)
            == BmcaOrder::BBetter && f.clock_identity@ != a.gm_identity@,
    ensures
        !m.noted(a).active(),
        m.foreign(a) ==> m.noted(a).status.better_master is Some,
{
    let own = m.dataset();
    let f = m.best_foreign->0;
    let d = a.dataset();
    crate::ptp::compare_is_antisymmetric(own, f);
    crate::ptp::compare_is_antisymmetric(f, d);
    crate::ptp::compare_is_antisymmetric(own, d);
    if m.foreign(a) && !m.outranks(d) {
        crate::ptp::compare_is_transitive(d, f, own);
    }
}

/// The Announce of a master carries its dataset, so a node that hears it holds
/// that dataset against its own.
pub proof fn announce_carries_the_dataset(m: MasterModel, now: i128)
    requires
        PtpTimestamp::of_nanos(now).seconds < 0x1_0000_0000_0000,
    ensures
        ({
            let sent = Announce {
                header: m.announce(now).sent_header(),
                ..m.announce(now)
            };
            &&& super::classified(m.announce(now).wire()) == Some(PtpMessage::Announce(sent))
            &&& sent.dataset() == m.dataset()
            &&& sent.header.domain == m.profile.domain
        }),
{
    let a = m.announce(now);
    crate::ptp::wire::announce_write_parse(a, Seq::empty());
    assert(a.wire() + Seq::<u8>::empty() =~= a.wire());
}

/// A better grandmaster makes the node step back at once: it is not active, and
/// the status names a better one, which is the new one where none better than
/// that is known.
pub proof fn better_master_takes_over(m: MasterModel, a: Announce)
    requires
        ClockDataset::ordered(m.dataset(), a.dataset()) == BmcaOrder::BBetter,
        m.best_foreign matches Some(f) ==> f.clock_identity@ != m.our_identity@,
    ensures
        !m.noted(a).active(),
        m.noted(a).status.better_master is Some,
        !m.outranks(a.dataset()) ==> m.noted(a).status.better_master == Some(a.gm_identity),
{
    if let Some(f) = m.best_foreign {
        let own = m.dataset();
        let d = a.dataset();
        crate::ptp::compare_is_antisymmetric(own, f);
        crate::ptp::compare_is_antisymmetric(own, d);
        if m.outranks(d) {
            crate::ptp::compare_is_transitive(f, d, own);
        }
    }
}

/// After `n` announce intervals without a foreign Announce.
pub open spec fn aged_times(m: MasterModel, n: nat) -> MasterModel
    decreases n,
{
    if n == 0 {
        m
    } else {
        aged_times(m, (n - 1) as nat).aged()
    }
}

/// A foreign grandmaster that falls silent is forgotten after the stale limit,
/// not earlier, and the node is active again.
pub proof fn silent_master_is_forgotten(m: MasterModel, n: nat)
    requires
        m.best_foreign is Some,
        m.foreign_stale == 0,
        n <= stale_limit(m.profile.announce_interval),
    ensures
        n < stale_limit(m.profile.announce_interval) ==> aged_times(m, n).best_foreign
            == m.best_foreign && aged_times(m, n).active() == m.active() && aged_times(
            m,
            n,
        ).foreign_stale == n,
        n == stale_limit(m.profile.announce_interval) ==> aged_times(m, n).best_foreign is None
            && aged_times(m, n).active() && aged_times(m, n).status.better_master is None,
        aged_times(m, n).profile == m.profile,
        aged_times(m, n).our_identity == m.our_identity,
    decreases n,
{
    if n > 0 {
        silent_master_is_forgotten(m, (n - 1) as nat);
    }
}

/// A slave in the domain of an active master locks to it: the Sync is taken for
/// a two-step Sync, and the Follow_Up brings the send time for its sequence.
pub proof fn sync_pair_is_understood(m: MasterModel, now: i128)
    requires
        0 <= now,
        PtpTimestamp::of_nanos(now).seconds < 0x1_0000_0000_0000,
        now < 0x1_0000_0000_0000 * 1_000_000_000,
    ensures
        super::classified(m.sync(now).wire()) matches Some(PtpMessage::Sync(s)) && {
            &&& s.header.domain == m.profile.domain
            &&& s.header.sequence_id == m.sync_seq
            &&& super::slave::two_step(s.header.flags)
        },
        super::classified(m.follow_up(now).wire()) matches Some(PtpMessage::FollowUp(f)) && {
            &&& f.header.domain == m.profile.domain
            &&& f.header.sequence_id == m.sync_seq
            &&& f.timestamp.total() == now
        },
{
    let s = m.sync(now);
    let f = m.follow_up(now);
    crate::ptp::wire::timestamped_write_parse(s, Seq::empty());
    assert(s.wire() + Seq::<u8>::empty() =~= s.wire());
    crate::ptp::wire::timestamped_write_parse(f, Seq::empty());
    assert(f.wire() + Seq::<u8>::empty() =~= f.wire());
    crate::ptp::wire::timestamp_of_nanos_total(now);
}

} // verus!
