//! The media clock.

use taktwerk::clock::{clock_nanos, full_nanos, now_nanos, FixedTimeSource, SystemTimeSource, TimeSource};

#[test]
fn rtp_timestamp_from_fixed_time() {
    // One second makes sample_rate ticks.
    let ts = FixedTimeSource(1_000_000_000);
    assert_eq!(ts.rtp_timestamp(48_000), 48_000);
}

#[test]
fn rtp_timestamp_half_second() {
    let ts = FixedTimeSource(500_000_000);
    assert_eq!(ts.rtp_timestamp(48_000), 24_000);
}

#[test]
fn rtp_timestamp_wraps_at_2_pow_32() {
    // So late that there are more than 2^32 ticks.
    let ts = FixedTimeSource(1_000_000_000_000_000); // a million seconds
    let raw = (1_000_000_000_000_000u128 * 48_000u128) / 1_000_000_000u128;
    assert_eq!(ts.rtp_timestamp(48_000) as u128, raw & 0xFFFF_FFFF);
}

#[test]
fn system_time_source_moves_forward() {
    let ts = SystemTimeSource;
    let a = ts.now_nanos();
    assert!(a > 0);
}

#[test]
fn media_clock_follows_time() {
    let at = |nanos: u64| FixedTimeSource(nanos).rtp_timestamp(48_000);
    assert_eq!(at(0), 0);
    assert_eq!(at(20_833), 0);
    assert_eq!(at(20_834), 1);
    assert_eq!(at(7_000_000_000), 7 * 48_000);
    // Across the turn of the 32-bit counter.
    let turn = 0x1_0000_0000u64 * 1_000_000_000 / 48_000;
    assert_eq!(at(turn + 1_000_000_000).wrapping_sub(at(turn)), 48_000);
}

#[test]
fn readings_before_the_epoch_are_zero() {
    assert_eq!(clock_nanos(None), 0);
    assert_eq!(clock_nanos(Some(5)), 5);
    assert_eq!(clock_nanos(Some(0x1_0000_0000_0000_0002)), 2);
    assert_eq!(full_nanos(None), 0);
    assert_eq!(full_nanos(Some(0x1_0000_0000_0000_0002)), 0x1_0000_0000_0000_0002);
    assert!(now_nanos() > 0);
}
