//! The integer part of the PTP servo and the slave that feeds it.

use std::sync::atomic::Ordering;
use taktwerk::clock::{FixedTimeSource, TimeSource};
use taktwerk::ptp::servo::{master_nanos, PtpTimeSource, ServoStep, SyncReference};
use taktwerk::ptp::slave::SlaveState;

/// A filter without smoothing: every step counts in full.
struct Raw {
    offset: i128,
    delay: i128,
}

impl Raw {
    fn take(&mut self, step: Option<ServoStep>) {
        match step {
            Some(ServoStep::Offset { sync_diff }) => self.offset = sync_diff - self.delay,
            Some(ServoStep::Delay { sync_diff, delay_diff }) => {
                self.delay = (sync_diff + delay_diff) / 2;
                self.offset = sync_diff - self.delay;
            }
            None => {}
        }
    }
}

#[test]
fn offset_without_delay_is_sync_difference() {
    let mut sync = SyncReference::new();
    let mut raw = Raw { offset: 0, delay: 0 };
    raw.take(Some(sync.on_sync(1000, 1100)));
    assert_eq!(raw.offset, 100);
    assert_eq!(raw.delay, 0);
}

#[test]
fn full_offset_and_delay() {
    let mut sync = SyncReference::new();
    let mut raw = Raw { offset: 0, delay: 0 };
    raw.take(Some(sync.on_sync(1000, 1100)));
    raw.take(sync.on_delay(2000, 2050));
    assert_eq!(raw.delay, 75);
    assert_eq!(raw.offset, 25);
}

#[test]
fn master_from_local_applies_offset() {
    let mut sync = SyncReference::new();
    let mut raw = Raw { offset: 0, delay: 0 };
    raw.take(Some(sync.on_sync(1000, 1100)));
    assert_eq!(master_nanos(5000, raw.offset as i64), 4900);
}

#[test]
fn delay_before_sync_is_ignored() {
    let sync = SyncReference::new();
    assert_eq!(sync.on_delay(2000, 2050), None);
    assert!(!sync.have_sync);
}

#[test]
fn ptp_timesource_corrects_local_by_offset() {
    let ts = PtpTimeSource::new(FixedTimeSource(1_000_000_000));
    assert_eq!(ts.now_nanos(), 1_000_000_000);
    ts.offset_handle().store(200, Ordering::Relaxed);
    assert_eq!(ts.now_nanos(), 1_000_000_000 - 200);
}

#[test]
fn corrected_time_never_lies_before_zero() {
    assert_eq!(master_nanos(100, 200), 0);
    assert_eq!(master_nanos(100, -200), 300);
    assert_eq!(master_nanos(u64::MAX, -1), 0);
}

#[test]
fn two_step_sync_needs_follow_up() {
    let mut s = SlaveState::new();
    let mut raw = Raw { offset: 0, delay: 0 };
    raw.take(s.on_sync(1, 0, true, 1100));
    assert!(!s.is_synced());
    raw.take(s.on_follow_up(1, 1000));
    assert!(s.is_synced());
    assert_eq!(raw.offset, 100);
}

#[test]
fn one_step_sync_applies_directly() {
    let mut s = SlaveState::new();
    let mut raw = Raw { offset: 0, delay: 0 };
    raw.take(s.on_sync(1, 1000, false, 1100));
    assert!(s.is_synced());
    assert_eq!(raw.offset, 100);
}

#[test]
fn full_cycle_offset_and_delay() {
    let mut s = SlaveState::new();
    let mut raw = Raw { offset: 0, delay: 0 };
    raw.take(s.on_sync(1, 1000, false, 1100));
    s.on_delay_req_sent(1, 2000);
    raw.take(s.on_delay_resp(1, true, 2050));
    assert_eq!(raw.delay, 75);
    assert_eq!(raw.offset, 25);
}

#[test]
fn delay_resp_for_other_port_ignored() {
    let mut s = SlaveState::new();
    let mut raw = Raw { offset: 0, delay: 0 };
    raw.take(s.on_sync(1, 1000, false, 1100));
    s.on_delay_req_sent(1, 2000);
    raw.take(s.on_delay_resp(1, false, 2050));
    assert_eq!(raw.delay, 0);
    assert_eq!(raw.offset, 100);
}

#[test]
fn mismatched_seq_ignored() {
    let mut s = SlaveState::new();
    let mut raw = Raw { offset: 0, delay: 0 };
    raw.take(s.on_sync(1, 1000, false, 1100));
    s.on_delay_req_sent(5, 2000);
    raw.take(s.on_delay_resp(6, true, 2050));
    assert_eq!(raw.delay, 0);
}
