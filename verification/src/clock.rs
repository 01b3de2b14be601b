//! The media clock: the source of time that RTP timestamps come from.
//!
//! An RTP timestamp of AES67 is the media clock in sample ticks, derived from
//! the network time. Where that time comes from (a PTP slave, a PTP master, the
//! system clock) stands behind [`TimeSource`].

use std::time::{Duration, SystemTime};
use vstd::prelude::*;

verus! {

/// Sample ticks at `nanos` nanoseconds, wrapping at 2^32 as in the RTP header.
pub open spec fn media_ticks(nanos: u64, sample_rate: u32) -> u32 {
    ((nanos * sample_rate / 1_000_000_000) % 0x1_0000_0000) as u32
}

/// A source of time in nanoseconds since an epoch of its own.
pub trait TimeSource: Send + Sync {
    /// Whether the clock may show `nanos` when it is read.
    open spec fn shows(&self, nanos: u64) -> bool {
        true
    }

    /// Current time of the clock in nanoseconds.
    fn now_nanos(&self) -> (nanos: u64)
        ensures
            self.shows(nanos),
    ;

    /// RTP timestamp (sample ticks) for now at the given sample rate. Wraps at
    /// 2^32.
    fn rtp_timestamp(&self, sample_rate: u32) -> (ticks: u32)
        ensures
            exists|nanos: u64|
                #[trigger] self.shows(nanos) && ticks == media_ticks(nanos, sample_rate),
    {
        let nanos: u64 = self.now_nanos();
        ticks_at(nanos, sample_rate)
    }
}

/// The RTP timestamp of a reading of the clock.
pub fn ticks_at(nanos: u64, sample_rate: u32) -> (ticks: u32)
    ensures
        ticks == media_ticks(nanos, sample_rate),
{
    assert(nanos * sample_rate <= 0xffff_ffff_ffff_ffff * 0xffff_ffff) by (nonlinear_arith)
        requires
            nanos <= 0xffff_ffff_ffff_ffff,
            sample_rate <= 0xffff_ffff,
    ;
    assert(0 <= nanos * sample_rate) by (nonlinear_arith);
    let ticks: u128 = nanos as u128 * sample_rate as u128 / 1_000_000_000;
    (ticks % 0x1_0000_0000) as u32
}

/// `std::time::SystemTime`, a point on the system clock.
#[verifier::external_type_specification]
#[verifier::external_body]
pub struct ExSystemTime(std::time::SystemTime);

/// `std::time::SystemTime::now`: the current point on the system clock. Nothing
/// is claimed of it.
pub assume_specification[ std::time::SystemTime::now ]() -> SystemTime;

/// `std::time::Duration::as_nanos`: the length of a span in nanoseconds. A span
/// holds 64 bits of seconds and less than a second besides, so it is bounded.
pub assume_specification[ std::time::Duration::as_nanos ](span: &Duration) -> (n: u128)
    ensures
        n < 0x1_0000_0000_0000_0000 * 1_000_000_000,
;

/// `std::time::SystemTime::duration_since` on the Unix epoch: the span from the
/// epoch to `at`, and `None` where `at` lies before it. Nothing is claimed of it.
#[verifier::external_body]
fn since_epoch(at: SystemTime) -> Option<Duration> {
    at.duration_since(std::time::UNIX_EPOCH).ok()
}

/// The 64-bit nanosecond count of a span since the epoch, 0 where there is none.
pub fn clock_nanos(since: Option<u128>) -> (nanos: u64)
    ensures
        nanos == match since {
            Some(n) => n % 0x1_0000_0000_0000_0000,
            None => 0,
        },
{
    match since {
        Some(n) => (n % 0x1_0000_0000_0000_0000) as u64,
        None => 0,
    }
}

/// The full nanosecond count of a span since the epoch, 0 where there is none.
pub fn full_nanos(since: Option<u128>) -> (n: i128)
    requires
        since matches Some(k) ==> k < 0x1_0000_0000_0000_0000 * 1_000_000_000,
    ensures
        n == match since {
            Some(k) => k as int,
            None => 0,
        },
{
    match since {
        Some(k) => k as i128,
        None => 0,
    }
}

/// The system clock in nanoseconds since the Unix epoch, without bounds on the
/// seconds; 0 before the epoch. It is what [`full_nanos`] makes of a reading of
/// the clock; of the reading nothing but its range is claimed.
pub fn now_nanos() -> (n: i128)
    ensures
        0 <= n < 0x1_0000_0000_0000_0000 * 1_000_000_000,
{
    let since: Option<u128> = match since_epoch(SystemTime::now()) {
        Some(span) => Some(span.as_nanos()),
        None => None,
    };
    full_nanos(since)
}

/// The system clock. It is not synchronised to the network; it serves headless
/// operation.
#[derive(Debug, Clone, Default)]
pub struct SystemTimeSource;

impl TimeSource for SystemTimeSource {
    /// What [`clock_nanos`] makes of a reading of the clock. The clock can show
    /// any time, so nothing is claimed of the reading.
    fn now_nanos(&self) -> u64 {
        let since: Option<u128> = match since_epoch(SystemTime::now()) {
            Some(span) => Some(span.as_nanos()),
            None => None,
        };
        clock_nanos(since)
    }
}

/// A clock that stands still, for deterministic tests.
#[derive(Debug, Clone)]
pub struct FixedTimeSource(pub u64);

impl TimeSource for FixedTimeSource {
    open spec fn shows(&self, nanos: u64) -> bool {
        nanos == self.0
    }

    fn now_nanos(&self) -> u64 {
        self.0
    }
}

/// Whole seconds are whole multiples of the sample rate: after `seconds` seconds
/// the media clock has ticked `seconds * sample_rate` times, modulo 2^32.
pub proof fn ticks_of_whole_seconds(seconds: u64, sample_rate: u32)
    requires
        seconds * 1_000_000_000 <= u64::MAX,
    ensures
        media_ticks((seconds * 1_000_000_000) as u64, sample_rate) == (seconds * sample_rate)
            % 0x1_0000_0000,
{
    let a = seconds as int;
    let r = sample_rate as int;
    assert((a * 1_000_000_000) * r == (a * r) * 1_000_000_000) by (nonlinear_arith);
}

/// A later reading that is less than 2^32 ticks ahead is ahead by the ticks of
/// the full time span, rounded down at both ends: the media clock never runs
/// backwards within one turn.
pub proof fn ticks_follow_time(early: u64, late: u64, sample_rate: u32)
    requires
        early <= late,
    ensures
        early * sample_rate / 1_000_000_000 <= late * sample_rate / 1_000_000_000,
        (media_ticks(late, sample_rate) - media_ticks(early, sample_rate)) % 0x1_0000_0000 == (late
            * sample_rate / 1_000_000_000 - early * sample_rate / 1_000_000_000) % 0x1_0000_0000,
{
    assert(0 <= early * sample_rate <= late * sample_rate) by (nonlinear_arith)
        requires
            early <= late,
    ;
}

} // verus!
