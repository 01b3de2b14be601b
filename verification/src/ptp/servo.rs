//! The integer part of the PTP servo, and [`PtpTimeSource`].
//!
//! From the pairs of send and receive times the servo needs two differences:
//! that of the last Sync (`t2 - t1`) and that of the delay request
//! (`t4 - t3`). The smoothing of what follows from them is left to the caller.

use crate::clock::TimeSource;
use std::sync::atomic::AtomicI64;
use std::sync::Arc;
use vstd::prelude::*;

verus! {

/// What an exchange of messages hands to the servo filter, in nanoseconds.
#[derive(Debug, Clone, Copy, PartialEq, Eq, Structural)]
pub enum ServoStep {
    /// A Sync was paired: the raw offset is `sync_diff` less the path delay.
    Offset { sync_diff: i128 },
    /// A delay request was answered: the raw path delay is the mean of
    /// `sync_diff` and `delay_diff`.
    Delay { sync_diff: i128, delay_diff: i128 },
}

/// Whether a number of nanoseconds fits the 128 bits that times are kept in.
pub open spec fn fits(n: int) -> bool {
    i128::MIN <= n <= i128::MAX
}

/// The last Sync pair, against which path delays are measured.
#[derive(Debug, Clone, Copy, PartialEq, Eq, Structural)]
pub struct SyncReference {
    /// Whether a Sync was seen.
    pub have_sync: bool,
    /// Send time at the master.
    pub last_t1: i128,
    /// Local receive time.
    pub last_t2: i128,
}

impl SyncReference {
    /// The difference of the kept pair fits.
    pub open spec fn wf(self) -> bool {
        fits(self.last_t2 - self.last_t1)
    }

    /// No Sync seen yet.
    pub fn new() -> (s: Self)
        ensures
            s == (SyncReference { have_sync: false, last_t1: 0, last_t2: 0 }),
    {
        SyncReference { have_sync: false, last_t1: 0, last_t2: 0 }
    }

    /// A Sync pair: `t1` is the send time at the master, `t2` the local receive
    /// time. The raw offset is `t2 - t1` less the path delay.
    pub fn on_sync(&mut self, t1_master_ns: i128, t2_local_ns: i128) -> (step: ServoStep)
        requires
            fits(t2_local_ns - t1_master_ns),
        ensures
            *final(self) == (SyncReference {
                have_sync: true,
                last_t1: t1_master_ns,
                last_t2: t2_local_ns,
            }),
            step == (ServoStep::Offset { sync_diff: (t2_local_ns - t1_master_ns) as i128 }),
    {
        self.last_t1 = t1_master_ns;
        self.last_t2 = t2_local_ns;
        self.have_sync = true;
        ServoStep::Offset { sync_diff: t2_local_ns - t1_master_ns }
    }

    /// A delay pair: `t3` is the local send time, `t4` the receive time at the
    /// master. Without a Sync to measure against there is nothing to hand on.
    pub fn on_delay(&self, t3_local_ns: i128, t4_master_ns: i128) -> (step: Option<ServoStep>)
        requires
            self.wf(),
            fits(t4_master_ns - t3_local_ns),
        ensures
            step == (if self.have_sync {
                Some(
                    ServoStep::Delay {
                        sync_diff: (self.last_t2 - self.last_t1) as i128,
                        delay_diff: (t4_master_ns - t3_local_ns) as i128,
                    },
                )
            } else {
                None
            }),
    {
        if !self.have_sync {
            return None;
        }
        Some(
            ServoStep::Delay {
                sync_diff: self.last_t2 - self.last_t1,
                delay_diff: t4_master_ns - t3_local_ns,
            },
        )
    }
}

/// Master time of a local reading, given the offset slave minus master: never
/// before 0, and kept to 64 bits.
pub open spec fn corrected(local: u64, offset: i64) -> u64 {
    if local - offset < 0 {
        0
    } else {
        ((local - offset) % 0x1_0000_0000_0000_0000) as u64
    }
}

/// Corrects a local reading by the offset from the master.
pub fn master_nanos(local: u64, offset: i64) -> (n: u64)
    ensures
        n == corrected(local, offset),
{
    let t: i128 = local as i128 - offset as i128;
    if t < 0 {
        0
    } else {
        (t as u128 % 0x1_0000_0000_0000_0000) as u64
    }
}

/// A [`TimeSource`] that corrects a local clock by the offset from the PTP
/// master. The offset is shared, so that the PTP client can keep it up to date
/// while others read the time.
pub struct PtpTimeSource<C: TimeSource> {
    local: C,
    offset_from_master_ns: Arc<AtomicI64>,
}

impl<C: TimeSource> PtpTimeSource<C> {
    /// The local clock.
    pub closed spec fn local_clock(&self) -> C {
        self.local
    }

    /// The cell that holds the offset and is shared with the PTP client.
    pub closed spec fn cell(&self) -> Arc<AtomicI64> {
        self.offset_from_master_ns
    }

    /// Starts with the offset 0.
    pub fn new(local: C) -> (s: Self)
        ensures
            s.local_clock() == local,
    {
        PtpTimeSource { local, offset_from_master_ns: Arc::new(AtomicI64::new(0)) }
    }

    /// The shared offset: the PTP client writes the current offset (slave minus
    /// master) to it.
    pub fn offset_handle(&self) -> (h: Arc<AtomicI64>)
        ensures
            h == self.cell(),
    {
        self.offset_from_master_ns.clone()
    }

    /// The offset that is stored at this moment. Others write to it at any time,
    /// so nothing is claimed of it.
    fn stored_offset(&self) -> i64 {
        self.offset_from_master_ns.load(std::sync::atomic::Ordering::Relaxed)
    }
}

impl<C: TimeSource> TimeSource for PtpTimeSource<C> {
    open spec fn shows(&self, nanos: u64) -> bool {
        exists|local: u64, offset: i64|
            self.local_clock().shows(local) && nanos == #[trigger] corrected(local, offset)
    }

    fn now_nanos(&self) -> u64 {
        let local: u64 = self.local.now_nanos();
        let offset: i64 = self.stored_offset();
        master_nanos(local, offset)
    }
}

/// An offset of 0 leaves a reading as it is, and a clock that runs ahead by
/// `offset` is set back by exactly that, where the result fits.
pub proof fn correction_takes_the_offset_off(local: u64, offset: i64)
    requires
        0 <= local - offset <= u64::MAX,
    ensures
        corrected(local, 0) == local,
        corrected(local, offset) == local - offset,
{
}

/// A clock that is ahead of its master by `offset` shows the time of the master
/// once it is corrected; one that would show a time before the epoch shows the
/// epoch.
pub proof fn corrected_clock_shows_the_time_of_the_master(master: u64, offset: i64, local: u64)
    requires
        local == master + offset || (local - offset < 0 && master == 0),
    ensures
        corrected(local, offset) == master,
{
}

} // verus!
