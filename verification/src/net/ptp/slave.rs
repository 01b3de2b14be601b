//! The PTP slave: what it does on each message and on each tick of its delay
//! timer. The caller receives, sends, and runs the servo filter.

use super::{PtpMessage, FLAG_TWO_STEP};
use crate::bytes;
use crate::ptp::servo::{ServoStep, SyncReference};
use crate::ptp::slave::SlaveState;
use crate::ptp::wire::{build_delay_req, delay_req_header, DelayResp, PortIdentity};
use crate::ptp::ClockIdentity;
use vstd::prelude::*;

verus! {

/// Status of the slave.
#[derive(Debug, Clone, Copy, PartialEq, Eq)]
pub struct PtpSlaveStatus {
    pub synced: bool,
    pub offset_ns: i64,
    pub path_delay_ns: i64,
    /// Identity of the grandmaster, once an Announce was seen.
    pub grandmaster: Option<ClockIdentity>,
}

impl Default for PtpSlaveStatus {
    fn default() -> (s: Self)
        ensures
            s == (PtpSlaveStatus {
                synced: false,
                offset_ns: 0,
                path_delay_ns: 0,
                grandmaster: None,
            }),
    {
        PtpSlaveStatus { synced: false, offset_ns: 0, path_delay_ns: 0, grandmaster: None }
    }
}

/// What the caller has to do after a message.
#[derive(Debug, Clone, Copy, PartialEq, Eq, Structural)]
pub enum SlaveAction {
    /// Nothing.
    Ignore,
    /// A grandmaster announced itself; it is noted.
    NoteGrandmaster,
    /// Hand the step to the servo, if there is one, and publish its state.
    Publish { step: Option<ServoStep> },
}

/// A **slave** that locks to a grandmaster by Sync, Follow_Up and the delay
/// exchange.
#[derive(Debug)]
pub struct PtpSlave {
    our_identity: ClockIdentity,
    /// Messages of other domains are ignored.
    domain: u8,
    state: SlaveState,
    grandmaster: Option<ClockIdentity>,
    seq: u16,
}

/// Whether a time of the local clock is one that the clock can show.
pub open spec fn local_time(t: int) -> bool {
    0 <= t < 0x1_0000_0000_0000_0000 * 1_000_000_000
}

/// Whether the two-step flag is set.
pub open spec fn two_step(flags: u16) -> bool {
    (flags / FLAG_TWO_STEP) % 2 == 1
}

/// A slave, as a value.
#[verifier::ext_equal]
pub struct SlaveModel {
    pub identity: ClockIdentity,
    /// Messages of other domains are ignored.
    pub domain: u8,
    /// The grandmaster that was announced last.
    pub master: Option<ClockIdentity>,
    /// Sequence number of the next Delay_Req.
    pub next_seq: u16,
    /// Receive times of the Syncs that wait for a Follow_Up, by sequence.
    pub waiting: Map<u16, i128>,
    /// Sequence and send time of the Delay_Req that waits for an answer.
    pub request: Option<(u16, i128)>,
    /// The last Sync pair.
    pub reference: SyncReference,
}

impl SlaveModel {
    /// A slave that has received nothing.
    pub open spec fn fresh(identity: ClockIdentity, domain: u8) -> SlaveModel {
        SlaveModel {
            identity,
            domain,
            master: None,
            next_seq: 0,
            waiting: Map::empty(),
            request: None,
            reference: SyncReference { have_sync: false, last_t1: 0, last_t2: 0 },
        }
    }

    /// After a Sync whose send time `t1` and receive time `t2` are known, and the
    /// step for the servo.
    pub open spec fn paired(self, t1: i128, t2: i128) -> (SlaveModel, SlaveAction) {
        (
            SlaveModel {
                reference: SyncReference { have_sync: true, last_t1: t1, last_t2: t2 },
                ..self
            },
            SlaveAction::Publish { step: Some(ServoStep::Offset { sync_diff: (t2 - t1) as i128 }) },
        )
    }

    /// Whether the answer is to this slave, and to the request that waits.
    pub open spec fn answered_by(self, d: DelayResp) -> bool {
        d.requesting_port.clock_identity@ == self.identity@ && (self.request matches Some(p) && p.0
            == d.header.sequence_id)
    }

    /// After a message that was received at the local time `now`, and what the
    /// caller has to do.
    pub open spec fn received(self, msg: PtpMessage, now: i128) -> (SlaveModel, SlaveAction) {
        if msg.header().domain != self.domain {
            (self, SlaveAction::Ignore)
        } else {
            match msg {
                PtpMessage::Announce(a) => (
                    SlaveModel { master: Some(a.gm_identity), ..self },
                    SlaveAction::NoteGrandmaster,
                ),
                PtpMessage::Sync(m) => if two_step(m.header.flags) {
                    (
                        SlaveModel {
                            waiting: self.waiting.insert(m.header.sequence_id, now),
                            ..self
                        },
                        SlaveAction::Publish { step: None },
                    )
                } else {
                    self.paired(m.timestamp.total() as i128, now)
                },
                PtpMessage::FollowUp(m) => {
                    let seq = m.header.sequence_id;
                    if self.waiting.contains_key(seq) {
                        SlaveModel { waiting: self.waiting.remove(seq), ..self }.paired(
                            m.timestamp.total() as i128,
                            self.waiting[seq],
                        )
                    } else {
                        (self, SlaveAction::Publish { step: None })
                    }
                },
                PtpMessage::DelayResp(d) => if self.answered_by(d) {
                    let r = self.reference;
                    let step = if r.have_sync {
                        Some(
                            ServoStep::Delay {
                                sync_diff: (r.last_t2 - r.last_t1) as i128,
                                delay_diff: (d.receive_timestamp.total() as i128 - (
                                self.request->0).1) as i128,
                            },
                        )
                    } else {
                        None
                    };
                    (SlaveModel { request: None, ..self }, SlaveAction::Publish { step })
                } else {
                    (self, SlaveAction::Publish { step: None })
                },
                PtpMessage::Other(_) => (self, SlaveAction::Ignore),
            }
        }
    }

    /// After the delay timer ticked at the local time `now`.
    pub open spec fn ticked(self, now: i128) -> SlaveModel {
        SlaveModel {
            next_seq: ((self.next_seq + 1) % 0x1_0000) as u16,
            request: Some((self.next_seq, now)),
            ..self
        }
    }
}

impl View for PtpSlave {
    type V = SlaveModel;

    open spec fn view(&self) -> SlaveModel {
        SlaveModel {
            identity: self.identity(),
            domain: self.home_domain(),
            master: self.master(),
            next_seq: self.next_seq(),
            waiting: self.exchange().waiting(),
            request: self.exchange().request(),
            reference: self.exchange().sync_reference(),
        }
    }
}

impl PtpSlave {
    pub closed spec fn identity(&self) -> ClockIdentity {
        self.our_identity
    }

    pub closed spec fn home_domain(&self) -> u8 {
        self.domain
    }

    /// The exchange that is followed.
    pub closed spec fn exchange(&self) -> SlaveState {
        self.state
    }

    pub closed spec fn master(&self) -> Option<ClockIdentity> {
        self.grandmaster
    }

    /// Sequence number of the next Delay_Req.
    pub closed spec fn next_seq(&self) -> u16 {
        self.seq
    }

    /// All kept times are times of the local clock.
    pub open spec fn wf(&self) -> bool {
        &&& self.exchange().wf()
        &&& forall|k: u16|
            self.exchange().waiting().contains_key(k) ==> local_time(
                #[trigger] self.exchange().waiting()[k] as int,
            )
        &&& (self.exchange().request() matches Some(p) ==> local_time(p.1 as int))
    }

    /// A slave with its own identity, in a domain.
    pub fn new(our_identity: ClockIdentity, domain: u8) -> (s: Self)
        ensures
            s.wf(),
            s@ == SlaveModel::fresh(our_identity, domain),
    {
        PtpSlave { our_identity, domain, state: SlaveState::new(), grandmaster: None, seq: 0 }
    }

    /// Whether at least one Sync was paired.
    pub fn is_synced(&self) -> (b: bool)
        ensures
            b == self@.reference.have_sync,
    {
        self.state.is_synced()
    }

    /// The grandmaster that was announced last.
    pub fn grandmaster(&self) -> (g: Option<ClockIdentity>)
        ensures
            g == self@.master,
    {
        self.grandmaster
    }

    /// Takes in a message that was received at the local time `now`. Messages of
    /// other domains change nothing.
    pub fn on_message(&mut self, msg: &PtpMessage, now: i128) -> (action: SlaveAction)
        requires
            old(self).wf(),
            local_time(now as int),
        ensures
            final(self).wf(),
            (final(self)@, action) == old(self)@.received(*msg, now),
            msg.header().domain != old(self)@.domain ==> *final(self) == *old(self),
    {
        if msg.domain() != self.domain {
            return SlaveAction::Ignore;
        }
        match msg {
            PtpMessage::Announce(a) => {
                self.grandmaster = Some(a.gm_identity);
                SlaveAction::NoteGrandmaster
            },
            PtpMessage::Sync(m) => {
                let step: bool = (m.header.flags / FLAG_TWO_STEP) % 2 == 1;
                let t1: i128 = m.timestamp.total_nanos() as i128;
                let done: Option<ServoStep> = self.state.on_sync(
                    m.header.sequence_id,
                    t1,
                    step,
                    now,
                );
                SlaveAction::Publish { step: done }
            },
            PtpMessage::FollowUp(m) => {
                let t1: i128 = m.timestamp.total_nanos() as i128;
                let done: Option<ServoStep> = self.state.on_follow_up(m.header.sequence_id, t1);
                SlaveAction::Publish { step: done }
            },
            PtpMessage::DelayResp(d) => {
                let is_us: bool = bytes::same_bytes(
                    &d.requesting_port.clock_identity,
                    &self.our_identity,
                );
                let t4: i128 = d.receive_timestamp.total_nanos() as i128;
                let done: Option<ServoStep> = self.state.on_delay_resp(
                    d.header.sequence_id,
                    is_us,
                    t4,
                );
                SlaveAction::Publish { step: done }
            },
            PtpMessage::Other(_) => SlaveAction::Ignore,
        }
    }

    /// The delay timer ticked at the local time `now`: gives the Delay_Req to be
    /// sent, which from now on waits for its answer.
    pub fn on_delay_tick(&mut self, now: i128) -> (request: [u8; 44])
        requires
            old(self).wf(),
            local_time(now as int),
        ensures
            final(self).wf(),
            final(self)@ == old(self)@.ticked(now),
            request@ == delay_req_header(
                (PortIdentity { clock_identity: old(self)@.identity, port: 1 }),
                old(self)@.next_seq,
                old(self)@.domain,
            ).wire() + Seq::new(10, |k: int| 0u8),
    {
        let port = PortIdentity { clock_identity: self.our_identity, port: 1 };
        let request: [u8; 44] = match build_delay_req(port, self.seq, self.domain) {
            Ok(b) => b,
            Err(_) => [0; 44],
        };
        self.state.on_delay_req_sent(self.seq, now);
        self.seq = self.seq.wrapping_add(1);
        request
    }
}

/// Something that happens to a slave.
pub enum SlaveEvent {
    /// A message is received at a local time.
    Message(PtpMessage, i128),
    /// The delay timer ticks at a local time.
    Tick(i128),
}

impl SlaveModel {
    /// After all that happened, and what the caller had to do, in order.
    pub open spec fn ran(self, h: Seq<SlaveEvent>) -> (SlaveModel, Seq<SlaveAction>)
        decreases h.len(),
    {
        if h.len() == 0 {
            (self, Seq::empty())
        } else {
            let (m, done) = self.ran(h.drop_last());
            match h.last() {
                SlaveEvent::Message(msg, now) => {
                    let (end, action) = m.received(msg, now);
                    if action == SlaveAction::Ignore {
                        (end, done)
                    } else {
                        (end, done.push(action))
                    }
                },
                SlaveEvent::Tick(now) => (m.ticked(now), done),
            }
        }
    }
}

/// What is left of a history without the messages of other domains.
pub open spec fn at_home(h: Seq<SlaveEvent>, domain: u8) -> Seq<SlaveEvent>
    decreases h.len(),
{
    if h.len() == 0 {
        Seq::empty()
    } else {
        let rest = at_home(h.drop_last(), domain);
        match h.last() {
            SlaveEvent::Message(msg, _) if msg.header().domain != domain => rest,
            _ => rest.push(h.last()),
        }
    }
}

/// Messages of other domains make no difference.
proof fn lemma_at_home(m: SlaveModel, h: Seq<SlaveEvent>)
    ensures
        m.ran(h) == m.ran(at_home(h, m.domain)),
        m.ran(h).0.domain == m.domain,
    decreases h.len(),
{
    if h.len() > 0 {
        let g = h.drop_last();
        let rest = at_home(g, m.domain);
        lemma_at_home(m, g);
        assert(rest.push(h.last()).drop_last() =~= rest);
    }
}

/// A slave follows its own domain: two histories that differ in nothing but
/// messages of other domains leave a slave in the same state and have its caller
/// do the same, and so does a history without any of these.
pub proof fn other_domains_make_no_difference(
    m: SlaveModel,
    h: Seq<SlaveEvent>,
    k: Seq<SlaveEvent>,
)
    requires
        at_home(h, m.domain) == at_home(k, m.domain),
    ensures
        m.ran(h) == m.ran(k),
        m.ran(h) == m.ran(at_home(h, m.domain)),
{
    lemma_at_home(m, h);
    lemma_at_home(m, k);
}

} // verus!
