//! PTP over the network: which message a datagram is, and the profiles.
//!
//! PTP uses two ports: 319 for event messages (Sync, Delay_Req) and 320 for
//! general ones (Announce, Follow_Up, Delay_Resp).

pub mod laws;
pub mod master;
pub mod slave;

use super::multicast::MulticastConfig;
use crate::ptp::wire::{Announce, DelayResp, MessageType, PtpHeader, TimestampedMsg};
use crate::ptp::ClockIdentity;
use vstd::arithmetic::power2::pow2;
use vstd::prelude::*;

verus! {

/// Primary multicast group of PTP.
pub const PTP_MULTICAST: &'static str = "224.0.1.129";

/// The group as bytes.
pub const PTP_GROUP: [u8; 4] = [224, 0, 1, 129];

/// Port of event messages.
pub const PTP_EVENT_PORT: u16 = 319;

/// Port of general messages.
pub const PTP_GENERAL_PORT: u16 = 320;

/// Two-step flag of a Sync: a Follow_Up brings the exact time.
pub const FLAG_TWO_STEP: u16 = 0x0200;

/// Flag of an Announce: the time is on the PTP time scale.
pub const FLAG_PTP_TIMESCALE: u16 = 0x0008;

/// Multicast settings of PTP for an interface and port.
pub fn ptp_config(interface: [u8; 4], port: u16) -> (c: MulticastConfig)
    ensures
        c.group == PTP_GROUP,
        c.port == port,
        c.interface == interface,
        c.ttl == 32,
{
    MulticastConfig::new(PTP_GROUP, port).with_interface(interface)
}

/// A received message, by its type.
#[derive(Debug, Clone, Copy)]
pub enum PtpMessage {
    Announce(Announce),
    Sync(TimestampedMsg),
    FollowUp(TimestampedMsg),
    DelayResp(DelayResp),
    /// Another type (management, signaling and so on): the header alone.
    Other(PtpHeader),
}

impl PtpMessage {
    /// The header of the message.
    pub open spec fn header(self) -> PtpHeader {
        match self {
            PtpMessage::Announce(a) => a.header,
            PtpMessage::Sync(m) => m.header,
            PtpMessage::FollowUp(m) => m.header,
            PtpMessage::DelayResp(d) => d.header,
            PtpMessage::Other(h) => h,
        }
    }

    /// PTP domain of the message.
    pub fn domain(&self) -> (d: u8)
        ensures
            d == self.header().domain,
    {
        match self {
            PtpMessage::Announce(a) => a.header.domain,
            PtpMessage::Sync(m) => m.header.domain,
            PtpMessage::FollowUp(m) => m.header.domain,
            PtpMessage::DelayResp(d) => d.header.domain,
            PtpMessage::Other(h) => h.domain,
        }
    }

    /// Short name of the message type.
    pub fn kind(&self) -> (s: &'static str)
        ensures
            s@ == match *self {
                PtpMessage::Announce(_) => "Announce"@,
                PtpMessage::Sync(_) => "Sync"@,
                PtpMessage::FollowUp(_) => "Follow_Up"@,
                PtpMessage::DelayResp(_) => "Delay_Resp"@,
                PtpMessage::Other(_) => "Other"@,
            },
    {
        match self {
            PtpMessage::Announce(_) => "Announce",
            PtpMessage::Sync(_) => "Sync",
            PtpMessage::FollowUp(_) => "Follow_Up",
            PtpMessage::DelayResp(_) => "Delay_Resp",
            PtpMessage::Other(_) => "Other",
        }
    }

    /// Clock identity of the sender.
    pub fn source_identity(&self) -> (id: ClockIdentity)
        ensures
            id == self.header().source_port.clock_identity,
    {
        match self {
            PtpMessage::Announce(a) => a.header.source_port.clock_identity,
            PtpMessage::Sync(m) => m.header.source_port.clock_identity,
            PtpMessage::FollowUp(m) => m.header.source_port.clock_identity,
            PtpMessage::DelayResp(d) => d.header.source_port.clock_identity,
            PtpMessage::Other(h) => h.source_port.clock_identity,
        }
    }
}

/// The message that a datagram is; `None` where it cannot be parsed.
pub open spec fn classified(b: Seq<u8>) -> Option<PtpMessage> {
    match PtpHeader::parsed(b) {
        Err(_) => None,
        Ok(h) => match h.message_type {
            MessageType::Announce => match Announce::parsed(b) {
                Ok(a) => Some(PtpMessage::Announce(a)),
                Err(_) => None,
            },
            MessageType::Sync => match TimestampedMsg::parsed(b) {
                Ok(m) => Some(PtpMessage::Sync(m)),
                Err(_) => None,
            },
            MessageType::FollowUp => match TimestampedMsg::parsed(b) {
                Ok(m) => Some(PtpMessage::FollowUp(m)),
                Err(_) => None,
            },
            MessageType::DelayResp => match DelayResp::parsed(b) {
                Ok(d) => Some(PtpMessage::DelayResp(d)),
                Err(_) => None,
            },
            _ => Some(PtpMessage::Other(h)),
        },
    }
}

/// Tells the message of a datagram by its header.
pub fn classify(datagram: &[u8]) -> (r: Option<PtpMessage>)
    ensures
        r == classified(datagram@),
{
    let header: PtpHeader = match PtpHeader::parse(datagram) {
        Ok(h) => h,
        Err(_) => {
            return None;
        },
    };
    match header.message_type {
        MessageType::Announce => match Announce::parse(datagram) {
            Ok(a) => Some(PtpMessage::Announce(a)),
            Err(_) => None,
        },
        MessageType::Sync => match TimestampedMsg::parse(datagram) {
            Ok(m) => Some(PtpMessage::Sync(m)),
            Err(_) => None,
        },
        MessageType::FollowUp => match TimestampedMsg::parse(datagram) {
            Ok(m) => Some(PtpMessage::FollowUp(m)),
            Err(_) => None,
        },
        MessageType::DelayResp => match DelayResp::parse(datagram) {
            Ok(d) => Some(PtpMessage::DelayResp(d)),
            Err(_) => None,
        },
        _ => Some(PtpMessage::Other(header)),
    }
}

/// The parameters of a PTP profile. Intervals are in nanoseconds.
#[derive(Debug, Clone, Copy, PartialEq, Eq, Structural)]
pub struct PtpProfile {
    /// PTP domain (broadcast and ST 2059: mostly 127).
    pub domain: u8,
    /// Smaller is stronger; 128 is neutral.
    pub priority1: u8,
    pub priority2: u8,
    /// 248 is free-running, 6 is locked to a primary reference.
    pub clock_class: u8,
    /// Interval of Sync and Follow_Up in nanoseconds.
    pub sync_interval: u64,
    /// Interval of Announce in nanoseconds.
    pub announce_interval: u64,
}

/// The AES67 media profile: domain 0, Sync every 250 ms, Announce every second,
/// free-running.
pub open spec fn media_profile() -> PtpProfile {
    PtpProfile {
        domain: 0,
        priority1: 128,
        priority2: 128,
        clock_class: 248,
        sync_interval: 250_000_000,
        announce_interval: 1_000_000_000,
    }
}

impl Default for PtpProfile {
    fn default() -> (p: Self)
        ensures
            p == media_profile(),
    {
        PtpProfile {
            domain: 0,
            priority1: 128,
            priority2: 128,
            clock_class: 248,
            sync_interval: 250_000_000,
            announce_interval: 1_000_000_000,
        }
    }
}

/// The profile of ST 2059-2: domain 127, 8 Syncs and 4 Announces a second, and
/// the rest as in the media profile.
pub open spec fn broadcast_profile() -> PtpProfile {
    PtpProfile {
        domain: 127,
        sync_interval: 125_000_000,
        announce_interval: 250_000_000,
        ..media_profile()
    }
}

impl PtpProfile {
    /// The preset of SMPTE ST 2059-2 (broadcast): domain 127, 8 Syncs and 4
    /// Announces a second.
    pub fn st2059() -> (p: Self)
        ensures
            p == broadcast_profile(),
    {
        PtpProfile {
            domain: 127,
            priority1: 128,
            priority2: 128,
            clock_class: 248,
            sync_interval: 125_000_000,
            announce_interval: 250_000_000,
        }
    }
}

/// Whether a period of `ns` nanoseconds is at least half a step, on a
/// logarithmic scale, below 2^k seconds: `(ns / 10^9)^2 >= 2^(2k - 1)`.
pub open spec fn reaches(ns: u64, k: int) -> bool {
    if k >= 1 {
        ns * ns >= 1_000_000_000_000_000_000 * pow2((2 * k - 1) as nat)
    } else {
        ns * ns * pow2((1 - 2 * k) as nat) >= 1_000_000_000_000_000_000
    }
}

/// Whether 2^k seconds is the power of two nearest to the period.
pub open spec fn nearest(ns: u64, k: i8) -> bool {
    reaches(ns, k as int) && !reaches(ns, k + 1)
}

/// The binary logarithm of a period in seconds, rounded to the nearest integer;
/// the smallest value for an empty period.
pub open spec fn nearest_log(ns: u64) -> i8 {
    if ns == 0 {
        -128i8
    } else {
        choose|k: i8| nearest(ns, k)
    }
}

/// The binary logarithm of a period in seconds, rounded to the nearest integer:
/// 125 ms give -3, 250 ms give -2, 1 s gives 0. An empty period gives the
/// smallest value.
pub fn log_interval(ns: u64) -> (k: i8)
    ensures
        k == nearest_log(ns),
        ns == 0 ==> k == -128,
        ns > 0 ==> nearest(ns, k),
{
    if ns == 0 {
        return -128;
    }
    assert(0 < ns * ns <= 0xffff_ffff_ffff_ffff * 0xffff_ffff_ffff_ffff) by (nonlinear_arith)
        requires
            0 < ns <= 0xffff_ffff_ffff_ffff,
    ;
    let x: u128 = ns as u128 * ns as u128;
    proof {
        vstd::arithmetic::power2::lemma2_to64();
        assert(reaches(ns, 0) <==> x * 2 >= 1_000_000_000_000_000_000);
    }
    if x >= 500_000_000_000_000_000 {
        let mut k: i8 = 0;
        let mut y: u128 = x / 2;
        while y >= 1_000_000_000_000_000_000
            invariant
                0 <= k < 64,
                x == ns * ns,
                y == x as int / pow2((2 * k + 1) as nat) as int,
                reaches(ns, k as int),
            decreases y,
        {
            proof {
                lemma_step_up(ns, k as int);
                lemma_reaches_bound(ns, k + 1);
            }
            y = y / 4;
            k = k + 1;
        }
        proof {
            lemma_step_up(ns, k as int);
            assert(nearest(ns, k));
            lemma_one_nearest(ns, k, nearest_log(ns));
        }
        k
    } else {
        let mut k: i8 = -1;
        let mut y: u128 = x * 8;
        while y < 1_000_000_000_000_000_000
            invariant
                -30 <= k <= -1,
                0 < x == ns * ns,
                x < 500_000_000_000_000_000,
                y == x * pow2((1 - 2 * k) as nat),
                !reaches(ns, k + 1),
            decreases 40 + k,
        {
            proof {
                vstd::arithmetic::power2::lemma2_to64_rest();
                assert(k == -30 ==> y >= 0x2000_0000_0000_0000) by {
                    assert(x * 0x2000_0000_0000_0000 >= 0x2000_0000_0000_0000);
                }
                lemma_doubling((1 - 2 * k) as nat);
                assert(x * (4 * pow2((1 - 2 * k) as nat)) == 4 * (x * pow2((1 - 2 * k) as nat)))
                    by (nonlinear_arith);
            }
            y = y * 4;
            k = k - 1;
        }
        proof {
            assert(nearest(ns, k));
            lemma_one_nearest(ns, k, nearest_log(ns));
        }
        k
    }
}

/// One step up: the next power of two is reached where the quotient is large
/// enough, and a quarter of the quotient serves for the one after it.
proof fn lemma_step_up(ns: u64, k: int)
    requires
        k >= 0,
    ensures
        ({
            let q = pow2((2 * k + 1) as nat) as int;
            &&& reaches(ns, k + 1) <==> ns * ns / q >= 1_000_000_000_000_000_000
            &&& (ns * ns / q) / 4 == ns * ns / pow2((2 * (k + 1) + 1) as nat) as int
        }),
{
    let q = pow2((2 * k + 1) as nat) as int;
    let x = ns * ns;
    vstd::arithmetic::power2::lemma_pow2_pos((2 * k + 1) as nat);
    lemma_doubling((2 * k + 1) as nat);
    assert(x >= 0) by (nonlinear_arith)
        requires
            x == ns * ns,
    ;
    assert(x / q >= 1_000_000_000_000_000_000 <==> x >= 1_000_000_000_000_000_000 * q) by (nonlinear_arith)
        requires
            q > 0,
    ;
    vstd::arithmetic::div_mod::lemma_div_denominator(x, q, 4);
}

/// No 64-bit period reaches 2^60 seconds.
proof fn lemma_reaches_bound(ns: u64, k: int)
    requires
        k >= 1,
        reaches(ns, k),
    ensures
        k < 60,
{
    if k >= 60 {
        vstd::arithmetic::power2::lemma2_to64();
        vstd::arithmetic::power2::lemma2_to64_rest();
        vstd::arithmetic::power2::lemma_pow2_adds(60, 59);
        assert(ns * ns <= 0xffff_ffff_ffff_ffff * 0xffff_ffff_ffff_ffff) by (nonlinear_arith)
            requires
                ns <= 0xffff_ffff_ffff_ffff,
        ;
        if k > 60 {
            vstd::arithmetic::power2::lemma_pow2_strictly_increases(119, (2 * k - 1) as nat);
        }
    }
}

/// What a period reaches at one power of two it reaches at every smaller one, so
/// there is only one power that it reaches last.
pub proof fn reaching_goes_down(ns: u64, k: int)
    requires
        reaches(ns, k + 1),
    ensures
        reaches(ns, k),
{
    let x = ns * ns;
    assert(x >= 0) by (nonlinear_arith)
        requires
            x == ns * ns,
    ;
    vstd::arithmetic::power2::lemma2_to64();
    if k >= 1 {
        lemma_doubling((2 * k - 1) as nat);
        vstd::arithmetic::power2::lemma_pow2_pos((2 * k - 1) as nat);
        assert(pow2((2 * (k + 1) - 1) as nat) == 4 * pow2((2 * k - 1) as nat));
    } else if k <= -1 {
        let p = pow2((1 - 2 * (k + 1)) as nat);
        lemma_doubling((1 - 2 * (k + 1)) as nat);
        assert(pow2((1 - 2 * k) as nat) == 4 * p);
        assert(x * (4 * p) >= x * p) by (nonlinear_arith)
            requires
                x >= 0,
                p >= 0,
        ;
    } else {
        assert(x * pow2(1) >= x) by (nonlinear_arith)
            requires
                x >= 0,
                pow2(1) == 2,
        ;
    }
}

/// There is only one nearest power of two.
proof fn lemma_one_nearest(ns: u64, j: i8, k: i8)
    requires
        nearest(ns, j),
        nearest(ns, k),
    ensures
        j == k,
{
    if j < k {
        lemma_reaching_down_to(ns, j + 1, k as int);
    }
    if k < j {
        lemma_reaching_down_to(ns, k + 1, j as int);
    }
}

/// Reaching goes down any number of steps.
proof fn lemma_reaching_down_to(ns: u64, j: int, k: int)
    requires
        j <= k,
        reaches(ns, k),
    ensures
        reaches(ns, j),
    decreases k - j,
{
    if j < k {
        reaching_goes_down(ns, k - 1);
        lemma_reaching_down_to(ns, j, k - 1);
    }
}

/// Two doublings.
proof fn lemma_doubling(n: nat)
    ensures
        pow2(n + 2) == 4 * pow2(n),
{
    vstd::arithmetic::power2::lemma_pow2_unfold(n + 1);
    vstd::arithmetic::power2::lemma_pow2_unfold(n + 2);
}

} // verus!
