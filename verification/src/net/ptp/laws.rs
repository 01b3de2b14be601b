//! How slave and master go together on the network.

use super::master::{aged_times, MasterModel, OutgoingModel};
use super::slave::{SlaveAction, SlaveModel};
use super::{classified, PtpMessage};
use crate::ptp::servo::ServoStep;
use crate::ptp::wire::{
    delay_req_header, Announce, DelayResp, MessageType, PortIdentity, PtpHeader, PtpTimestamp,
    TimestampedMsg,
};
use vstd::arithmetic::power2::pow2;
use vstd::prelude::*;

verus! {

/// A Sync counts as two-step exactly where the bit 0x0200 of its flags is set.
pub proof fn two_step_is_one_bit(flags: u16)
    ensures
        super::slave::two_step(flags) <==> flags & 0x0200 != 0,
{
    assert((flags / 0x0200) % 2 == 1 <==> flags & 0x0200 != 0) by (bit_vector);
}

/// A one-step Sync, whose bit 0x0200 is not set, locks the slave at once: its
/// timestamp is the send time, so the offset is measured against it, and nothing
/// waits for a Follow_Up.
pub proof fn one_step_sync_locks_at_once(m: SlaveModel, s: TimestampedMsg, now: i128)
    requires
        s.header.domain == m.domain,
        s.header.flags & 0x0200 == 0,
        0 <= now < 0x1_0000_0000_0000_0000 * 1_000_000_000,
    ensures
        ({
            let t1 = s.timestamp.seconds * 1_000_000_000 + s.timestamp.nanos;
            let (a, action) = m.received(PtpMessage::Sync(s), now);
            &&& action matches SlaveAction::Publish { step: Some(ServoStep::Offset { sync_diff }) }
            &&& sync_diff == now - t1
            &&& a.reference.have_sync
            &&& a.reference.last_t1 == t1
            &&& a.reference.last_t2 == now
            &&& a.waiting == m.waiting
            &&& a.request == m.request
            &&& a.master == m.master
            &&& a.next_seq == m.next_seq
        }),
{
    two_step_is_one_bit(s.header.flags);
}

/// A two-step Sync, whose bit 0x0200 is set, locks the slave with the Follow_Up
/// of its sequence and not before: the send time is that of the Follow_Up, the
/// receive time that of the Sync. A Follow_Up of another sequence, before or
/// after, does nothing to that.
pub proof fn two_step_sync_locks_with_its_follow_up(
    m: SlaveModel,
    s: TimestampedMsg,
    now: i128,
    other: TimestampedMsg,
    f: TimestampedMsg,
    later: i128,
)
    requires
        s.header.domain == m.domain,
        s.header.flags & 0x0200 != 0,
        f.header.domain == m.domain,
        f.header.sequence_id == s.header.sequence_id,
        other.header.domain == m.domain,
        other.header.sequence_id != s.header.sequence_id,
        !m.waiting.contains_key(other.header.sequence_id),
        0 <= now < 0x1_0000_0000_0000_0000 * 1_000_000_000,
    ensures
        ({
            let (w, first) = m.received(PtpMessage::Sync(s), now);
            let (v, second) = w.received(PtpMessage::FollowUp(other), later);
            let (a, third) = v.received(PtpMessage::FollowUp(f), later);
            let t1 = f.timestamp.seconds * 1_000_000_000 + f.timestamp.nanos;
            &&& first == (SlaveAction::Publish { step: None })
            &&& w.reference == m.reference
            &&& second == (SlaveAction::Publish { step: None })
            &&& v == w
            &&& third matches SlaveAction::Publish { step: Some(ServoStep::Offset { sync_diff }) }
            &&& sync_diff == now - t1
            &&& a.reference.have_sync && a.reference.last_t1 == t1 && a.reference.last_t2 == now
            &&& a.waiting == m.waiting.remove(s.header.sequence_id)
            &&& a.request == m.request
            &&& a.received(PtpMessage::FollowUp(f), later) == (
                a,
                SlaveAction::Publish { step: None },
            )
        }),
{
    two_step_is_one_bit(s.header.flags);
    let w = m.received(PtpMessage::Sync(s), now).0;
    assert(w.waiting.remove(s.header.sequence_id) =~= m.waiting.remove(s.header.sequence_id));
}

/// The delay exchange measures the way to the master and back: the answer to the
/// request that was sent last, addressed to this clock, gives the times of both
/// ways, once. An answer to another clock or to another request gives nothing and
/// changes nothing, and the own one still counts afterwards.
pub proof fn own_answer_measures_the_delay(
    m: SlaveModel,
    sent: i128,
    stray: DelayResp,
    d: DelayResp,
    now: i128,
)
    requires
        m.reference.have_sync,
        0 <= sent < 0x1_0000_0000_0000_0000 * 1_000_000_000,
        m.reference.wf(),
        stray.header.domain == m.domain,
        stray.requesting_port.clock_identity@ != m.identity@ || stray.header.sequence_id
            != m.next_seq,
        d.header.domain == m.domain,
        d.requesting_port.clock_identity@ == m.identity@,
        d.header.sequence_id == m.next_seq,
    ensures
        ({
            let w = m.ticked(sent);
            let (v, none) = w.received(PtpMessage::DelayResp(stray), now);
            let (a, action) = v.received(PtpMessage::DelayResp(d), now);
            let t4 = d.receive_timestamp.seconds * 1_000_000_000 + d.receive_timestamp.nanos;
            &&& w.next_seq == (m.next_seq + 1) % 0x1_0000
            &&& none == (SlaveAction::Publish { step: None })
            &&& v == w
            &&& action matches SlaveAction::Publish { step: Some(ServoStep::Delay { sync_diff, delay_diff }) }
            &&& sync_diff == m.reference.last_t2 - m.reference.last_t1
            &&& delay_diff == t4 - sent
            &&& a.reference == m.reference
            &&& a.waiting == m.waiting
            &&& a.received(PtpMessage::DelayResp(d), now) == (
                a,
                SlaveAction::Publish { step: None },
            )
        }),
{
}

/// An Announce names the grandmaster and does nothing else; the last one counts.
pub proof fn announce_names_the_grandmaster(m: SlaveModel, a: Announce, now: i128)
    requires
        a.header.domain == m.domain,
    ensures
        ({
            let (n, action) = m.received(PtpMessage::Announce(a), now);
            &&& n == (SlaveModel { master: Some(a.gm_identity), ..m })
            &&& action == SlaveAction::NoteGrandmaster
        }),
{
}

/// A slave and an active master of its domain understand each other, down to the
/// bytes: Sync and Follow_Up of one tick lock the slave to the send time, and the
/// request of the slave is answered to it, with the time at which the master got
/// it. So the slave learns `t2 - t1` on the way there and `t4 - t3` on the way
/// back.
pub proof fn slave_locks_to_master(
    master: MasterModel,
    slave: SlaveModel,
    t1: i128,
    t2: i128,
    t3: i128,
    t4: i128,
)
    requires
        master.profile.domain == slave.domain,
        0 <= t1 < 0x1_0000_0000_0000 * 1_000_000_000,
        0 <= t2 < 0x1_0000_0000_0000 * 1_000_000_000,
        0 <= t3 < 0x1_0000_0000_0000 * 1_000_000_000,
        0 <= t4 < 0x1_0000_0000_0000 * 1_000_000_000,
    ensures
        classified(master.sync(t1).wire()) matches Some(sync) && classified(
            master.follow_up(t1).wire(),
        ) matches Some(follow_up) && ({
            let (s1, a1) = slave.received(sync, t2);
            let (s2, a2) = s1.received(follow_up, t2);
            let s3 = s2.ticked(t3);
            let request = delay_req_header(
                PortIdentity { clock_identity: s2.identity, port: 1 },
                s2.next_seq,
                s2.domain,
            ).wire() + Seq::new(10, |k: int| 0u8);
            &&& a1 == (SlaveAction::Publish { step: None })
            &&& a2 matches SlaveAction::Publish { step: Some(ServoStep::Offset { sync_diff }) }
            &&& sync_diff == t2 - t1
            &&& s2.reference.have_sync
            &&& classified(request) matches Some(PtpMessage::Other(h))
            &&& h.message_type == MessageType::DelayReq
            &&& h.domain == master.profile.domain
            &&& classified(master.delay_resp(h, t4).wire()) matches Some(reply)
            &&& s3.received(reply, t4).1 matches SlaveAction::Publish { step: Some(ServoStep::Delay { sync_diff, delay_diff }) }
            &&& sync_diff == t2 - t1
            &&& delay_diff == t4 - t3
        }),
{
    let s = master.sync(t1);
    let f = master.follow_up(t1);
    crate::ptp::wire::timestamped_write_parse(s, Seq::empty());
    assert(s.wire() + Seq::<u8>::empty() =~= s.wire());
    crate::ptp::wire::timestamped_write_parse(f, Seq::empty());
    assert(f.wire() + Seq::<u8>::empty() =~= f.wire());
    crate::ptp::wire::timestamp_of_nanos_total(t1);
    crate::ptp::wire::timestamp_of_nanos_total(t4);
    let sync = TimestampedMsg { header: s.sent_header(), ..s };
    let follow_up = TimestampedMsg { header: f.sent_header(), ..f };
    assert(classified(s.wire()) == Some(PtpMessage::Sync(sync)));
    assert(classified(f.wire()) == Some(PtpMessage::FollowUp(follow_up)));
    assert(0x0200u16 & 0x0200 != 0) by (bit_vector);
    assert(sync.header.flags == 0x0200);
    two_step_is_one_bit(sync.header.flags);
    let s2 = slave.received(PtpMessage::Sync(sync), t2).0.received(
        PtpMessage::FollowUp(follow_up),
        t2,
    ).0;
    let h = delay_req_header(
        PortIdentity { clock_identity: s2.identity, port: 1 },
        s2.next_seq,
        s2.domain,
    );
    let tail = Seq::new(10, |k: int| 0u8);
    crate::ptp::wire::header_write_parse(h, tail);
    let d = master.delay_resp(h, t4);
    crate::ptp::wire::delay_resp_write_parse(d, Seq::empty());
    assert(d.wire() + Seq::<u8>::empty() =~= d.wire());
}

/// What a master says of itself: its Announce carries the domain, the priorities
/// and the class of its profile and its own identity, tells that the time is on
/// the PTP scale (bit 0x0008), 37 seconds ahead of UTC, and counts in sequence;
/// Sync and Follow_Up carry one sequence number, and only the Sync the two-step
/// bit.
pub proof fn master_says_what_it_is(m: MasterModel, now: i128)
    ensures
        ({
            let a = m.announce(now);
            &&& a.header.domain == m.profile.domain
            &&& a.header.flags == 0x0008
            &&& a.header.sequence_id == m.announce_seq
            &&& a.header.source_port.clock_identity == m.our_identity
            &&& a.header.source_port.port == 1
            &&& a.header.version == 2
            &&& a.header.log_message_interval == super::nearest_log(m.profile.announce_interval)
            &&& a.origin_timestamp == PtpTimestamp::of_nanos(now)
            &&& a.gm_priority1 == m.profile.priority1
            &&& a.gm_priority2 == m.profile.priority2
            &&& a.gm_clock_class == m.profile.clock_class
            &&& a.gm_clock_accuracy == 0xFE
            &&& a.gm_offset_scaled_log_variance == 0xFFFF
            &&& a.gm_identity == m.our_identity
            &&& a.steps_removed == 0
            &&& a.current_utc_offset == 37
            &&& a.time_source == 0xA0
            &&& a.dataset() == m.dataset()
        }),
        ({
            let s = m.sync(now);
            let f = m.follow_up(now);
            &&& s.header.flags == 0x0200 && f.header.flags == 0
            &&& s.header.sequence_id == m.sync_seq && f.header.sequence_id == m.sync_seq
            &&& s.header.domain == m.profile.domain && f.header.domain == m.profile.domain
            &&& s.timestamp == f.timestamp
            &&& s.timestamp == PtpTimestamp::of_nanos(now)
            &&& s.header.log_message_interval == super::nearest_log(m.profile.sync_interval)
            &&& f.header.log_message_interval == super::nearest_log(m.profile.sync_interval)
            &&& s.header.source_port.clock_identity == m.our_identity
            &&& f.header.source_port.clock_identity == m.our_identity
        }),
{
}

/// A foreign grandmaster may be silent for three seconds, and for three announce
/// intervals at least: that long it is still known, and as soon as both are over
/// it is forgotten, and the node is active again.
pub proof fn silence_is_borne_for_three_seconds(m: MasterModel, n: nat)
    requires
        m.best_foreign is Some,
        m.foreign_stale == 0,
        m.profile.announce_interval > 0,
        n < 255,
    ensures
        n < 3 || n * m.profile.announce_interval < 3_000_000_000 ==> aged_times(m, n).best_foreign
            == m.best_foreign,
        n >= 3 && n * m.profile.announce_interval >= 3_000_000_000 ==> aged_times(
            m,
            n,
        ).best_foreign is None && aged_times(m, n).active(),
{
    let i = m.profile.announce_interval as int;
    let q = (3_000_000_000 + i - 1) / i;
    assert(n * i < 3_000_000_000 <==> n < q) by (nonlinear_arith)
        requires
            i > 0,
            q == (3_000_000_000 + i - 1) / i,
    ;
    let limit = super::master::stale_limit(m.profile.announce_interval);
    if n <= limit {
        super::master::silent_master_is_forgotten(m, n);
    } else {
        lemma_forgotten_stays(m, limit as nat, n);
    }
}

/// What was forgotten stays so.
proof fn lemma_forgotten_stays(m: MasterModel, k: nat, n: nat)
    requires
        m.best_foreign is Some,
        m.foreign_stale == 0,
        k == super::master::stale_limit(m.profile.announce_interval),
        k <= n,
    ensures
        aged_times(m, n).best_foreign is None,
    decreases n,
{
    if k == n {
        super::master::silent_master_is_forgotten(m, k);
    } else {
        lemma_forgotten_stays(m, k, (n - 1) as nat);
    }
}

/// PTP goes to its well-known group, event messages to port 319 and general ones
/// to port 320.
pub proof fn ptp_has_its_own_group_and_ports()
    ensures
        crate::ipv4::dotted(super::PTP_GROUP@) == super::PTP_MULTICAST@,
        super::PTP_MULTICAST@ == "224.0.1.129"@,
        super::PTP_EVENT_PORT == 319,
        super::PTP_GENERAL_PORT == 320,
{
    reveal_strlit("224.0.1.129");
    reveal_strlit(".");
    reveal_with_fuel(crate::text::decimal, 4);
    let g = super::PTP_GROUP@;
    assert(g[0] == 224 && g[1] == 0 && g[2] == 1 && g[3] == 129);
    assert(crate::text::decimal(224) =~= seq!['2', '2', '4']);
    assert(crate::text::decimal(129) =~= seq!['1', '2', '9']);
    assert(crate::ipv4::dotted(g) =~= "224.0.1.129"@);
}

/// The number of an interval is the binary logarithm of its seconds: a second has
/// 0, and what lasts twice as long has one more. Between two powers of two it is
/// that of the nearer one on the scale of the logarithm: the square root of two
/// seconds parts 0 from 1.
pub proof fn doubled_interval_has_one_more(ns: u64, k: i8)
    requires
        2 * ns <= u64::MAX,
        -100 <= k < 100,
    ensures
        super::nearest(ns, k) <==> super::nearest((2 * ns) as u64, (k + 1) as i8),
        super::nearest(1_000_000_000, 0),
        super::nearest(1_414_213_562, 0),
        super::nearest(1_414_213_563, 1),
{
    lemma_twice_reaches(ns, k as int);
    lemma_twice_reaches(ns, k + 1);
    vstd::arithmetic::power2::lemma2_to64();
    assert(1_000_000_000u64 * 1_000_000_000u64 == 1_000_000_000_000_000_000int);
    assert(1_414_213_562u64 * 1_414_213_562u64 == 1_999_999_998_944_727_844int);
    assert(1_414_213_563u64 * 1_414_213_563u64 == 2_000_000_001_773_154_969int);
}

proof fn lemma_twice_reaches(ns: u64, k: int)
    requires
        2 * ns <= u64::MAX,
    ensures
        super::reaches(ns, k) <==> super::reaches((2 * ns) as u64, k + 1),
{
    let x = ns * ns;
    let y = (2 * ns) as u64;
    assert(y * y == 4 * x) by (nonlinear_arith)
        requires
            y == 2 * ns,
            x == ns * ns,
    ;
    vstd::arithmetic::power2::lemma2_to64();
    if k >= 1 {
        super::lemma_doubling((2 * k - 1) as nat);
        assert(pow2((2 * (k + 1) - 1) as nat) == 4 * pow2((2 * k - 1) as nat));
    } else if k <= -1 {
        let p = pow2((1 - 2 * (k + 1)) as nat);
        super::lemma_doubling((1 - 2 * (k + 1)) as nat);
        assert(pow2((1 - 2 * k) as nat) == 4 * p);
        assert(x * (4 * p) == (4 * x) * p) by (nonlinear_arith);
    } else {
        assert(x * pow2(1) == 2 * x) by (nonlinear_arith)
            requires
                pow2(1) == 2,
        ;
    }
}

/// A master does nothing on messages of other domains, and answers only while it
/// is active: a request of its domain is answered once, on port 320, with the
/// number of the request, to whoever asked and with the time at which it came, and
/// counted. Nothing else is answered, and a request changes nothing else.
pub proof fn request_is_answered_by_the_active_master(
    m: MasterModel,
    h: PtpHeader,
    msg: PtpMessage,
    now: i128,
)
    requires
        m.status.room(),
        h.message_type == MessageType::DelayReq,
        msg.header().domain != m.profile.domain,
    ensures
        m.received(msg, now) == (m, None::<OutgoingModel>),
        h.domain == m.profile.domain && m.active() ==> ({
            let (a, out) = m.received(PtpMessage::Other(h), now);
            let r = m.delay_resp(h, now);
            &&& out matches Some(o) && o.0 == 320 && o.1 == r.wire()
            &&& r.header.sequence_id == h.sequence_id
            &&& r.header.domain == h.domain
            &&& r.requesting_port == h.source_port
            &&& r.receive_timestamp == PtpTimestamp::of_nanos(now)
            &&& a.status.delay_resps_sent == m.status.delay_resps_sent + 1
            &&& a.status.announces_sent == m.status.announces_sent
            &&& a.status.syncs_sent == m.status.syncs_sent
            &&& a.active() && a.announce_seq == m.announce_seq && a.sync_seq == m.sync_seq
        }),
        h.domain == m.profile.domain && !m.active() ==> m.received(PtpMessage::Other(h), now) == (
            m,
            None::<OutgoingModel>,
        ),
{
}

/// An active master announces itself at every tick, on port 320, and goes through
/// the numbers of its Announces and Syncs one by one, with a count of each. One
/// that is not active is silent and counts nothing.
pub proof fn active_master_counts_what_it_sends(m: MasterModel, now: i128)
    requires
        m.status.room(),
    ensures
        m.aged().active() ==> ({
            let (a, out) = m.announced(now);
            &&& out matches Some(o) && o.0 == 320 && o.1 == m.aged().announce(now).wire()
            &&& a.announce_seq == (m.announce_seq + 1) % 0x1_0000
            &&& a.status.announces_sent == m.status.announces_sent + 1
            &&& a.status.syncs_sent == m.status.syncs_sent
            &&& a.sync_seq == m.sync_seq
            &&& a.status.active
        }),
        !m.aged().active() ==> ({
            let (a, out) = m.announced(now);
            &&& out is None
            &&& a.announce_seq == m.announce_seq
            &&& a.status.announces_sent == m.status.announces_sent
            &&& !a.status.active
        }),
        m.active() ==> m.synced().sync_seq == (m.sync_seq + 1) % 0x1_0000
            && m.synced().status.syncs_sent == m.status.syncs_sent + 1
            && m.synced().announce_seq == m.announce_seq && m.synced().status.announces_sent
            == m.status.announces_sent,
        !m.active() ==> m.synced() == m,
{
}

/// A datagram is the message that its first bytes say: of version 2, with the type
/// in the low half of the first byte, and long enough for that type. A type that
/// is not followed gives its header alone, and what is none of these gives
/// nothing.
pub proof fn datagram_is_what_its_first_bytes_say(b: Seq<u8>)
    ensures
        classified(b) is None <==> b.len() < 34 || b[1] % 16 != 2 || (b[0] % 16 == 11 && b.len()
            < 64) || ((b[0] % 16 == 0 || b[0] % 16 == 8) && b.len() < 44) || (b[0] % 16 == 9
            && b.len() < 54),
        classified(b) matches Some(m) ==> {
            &&& m is Announce <==> b[0] % 16 == 11
            &&& m is Sync <==> b[0] % 16 == 0
            &&& m is FollowUp <==> b[0] % 16 == 8
            &&& m is DelayResp <==> b[0] % 16 == 9
            &&& PtpHeader::parsed(b) == Ok::<PtpHeader, crate::ptp::wire::PtpError>(m.header())
            &&& m matches PtpMessage::Announce(a) ==> Announce::parsed(b) == Ok::<
                Announce,
                crate::ptp::wire::PtpError,
            >(a)
            &&& m matches PtpMessage::Sync(s) ==> TimestampedMsg::parsed(b) == Ok::<
                TimestampedMsg,
                crate::ptp::wire::PtpError,
            >(s)
            &&& m matches PtpMessage::FollowUp(s) ==> TimestampedMsg::parsed(b) == Ok::<
                TimestampedMsg,
                crate::ptp::wire::PtpError,
            >(s)
            &&& m matches PtpMessage::DelayResp(d) ==> DelayResp::parsed(b) == Ok::<
                DelayResp,
                crate::ptp::wire::PtpError,
            >(d)
        },
{
    if b.len() >= 34 && b[1] % 16 == 2 {
        crate::ptp::laws::header_stands_where_it_should(b);
        crate::ptp::laws::announce_stands_where_it_should(b);
        crate::ptp::laws::sync_stands_where_it_should(b);
        crate::ptp::laws::delay_resp_stands_where_it_should(b);
        crate::ptp::laws::types_have_their_numbers(b[0]);
    }
}

} // verus!
