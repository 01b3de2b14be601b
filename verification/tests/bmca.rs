//! The best master clock algorithm.

use taktwerk::ptp::{BmcaOrder, ClockDataset};

fn ds(priority1: u8, clock_class: u8, id_last: u8) -> ClockDataset {
    ClockDataset {
        priority1,
        clock_class,
        clock_accuracy: 0x21,
        offset_scaled_log_variance: 0,
        priority2: 128,
        clock_identity: [0, 0, 0, 0, 0, 0, 0, id_last],
        steps_removed: 0,
    }
}

#[test]
fn priority1_dominates() {
    let a = ds(10, 248, 1);
    let b = ds(128, 6, 2); // better class, but worse priority1
    assert_eq!(ClockDataset::compare(&a, &b), BmcaOrder::ABetter);
}

#[test]
fn class_breaks_tie_after_priority1() {
    let a = ds(128, 6, 1);
    let b = ds(128, 248, 2);
    assert_eq!(ClockDataset::compare(&a, &b), BmcaOrder::ABetter);
}

#[test]
fn identity_is_final_tiebreaker() {
    let a = ds(128, 248, 1);
    let b = ds(128, 248, 2);
    assert_eq!(ClockDataset::compare(&a, &b), BmcaOrder::ABetter);
}

#[test]
fn same_identity_detected() {
    let a = ds(1, 6, 9);
    let b = ds(200, 248, 9);
    assert_eq!(ClockDataset::compare(&a, &b), BmcaOrder::Same);
}

#[test]
fn best_of_set() {
    let clocks = [ds(128, 248, 3), ds(50, 248, 4), ds(50, 6, 5)];
    let best = ClockDataset::best(&clocks).unwrap();
    assert_eq!(best.clock_class, 6); // priority1 50 and class 6
}

#[test]
fn local_master_wins_with_low_priority1() {
    let external = ds(128, 6, 1); // a good grandmaster outside
    let local = ds(1, 248, 2); // this node, with priority1 at 1
    assert_eq!(ClockDataset::compare(&local, &external), BmcaOrder::ABetter);
}

#[test]
fn better_and_worse_mirror_each_other() {
    let a = ds(1, 6, 1);
    let b = ds(1, 7, 2);
    assert_eq!(ClockDataset::compare(&a, &b), BmcaOrder::ABetter);
    assert_eq!(ClockDataset::compare(&b, &a), BmcaOrder::BBetter);
}

#[test]
fn fields_count_in_their_order() {
    let base = ds(1, 6, 1);
    let mut accuracy = ds(1, 6, 2);
    accuracy.clock_accuracy = 0x20;
    accuracy.offset_scaled_log_variance = 9;
    assert_eq!(ClockDataset::compare(&accuracy, &base), BmcaOrder::ABetter);
    let mut variance = ds(1, 6, 2);
    variance.offset_scaled_log_variance = 1;
    variance.priority2 = 0;
    assert_eq!(ClockDataset::compare(&variance, &base), BmcaOrder::BBetter);
    let mut second = ds(1, 6, 2);
    second.priority2 = 127;
    assert_eq!(ClockDataset::compare(&second, &base), BmcaOrder::ABetter);
}

#[test]
fn best_of_none_is_none() {
    assert!(ClockDataset::best(&[]).is_none());
}

#[test]
fn a_clock_is_never_better_than_itself() {
    // The same clock twice: its second dataset is passed over, though it beats
    // the third clock, which wins.
    let clocks = [ds(10, 6, 1), ds(1, 6, 1), ds(5, 6, 2)];
    assert_eq!(ClockDataset::best(&clocks), Some(&clocks[2]));
}
