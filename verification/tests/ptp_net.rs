//! PTP on the network: messages, profiles, slave and master.

use taktwerk::net::ptp::master::{PtpMaster, PtpMasterStatus};
use taktwerk::net::ptp::slave::{PtpSlave, SlaveAction};
use taktwerk::net::ptp::{
    classify, log_interval, ptp_config, PtpMessage, PtpProfile, PTP_EVENT_PORT, PTP_GENERAL_PORT,
};
use taktwerk::ptp::servo::ServoStep;
use taktwerk::ptp::wire::{Announce, MessageType, PortIdentity, PtpHeader, PtpTimestamp};

const MS: u64 = 1_000_000;

fn announce_from(id: u8, priority1: u8, clock_class: u8) -> Vec<u8> {
    let ann = Announce {
        header: PtpHeader {
            message_type: MessageType::Announce,
            version: 2,
            message_length: Announce::LEN as u16,
            domain: 0,
            flags: 0,
            correction: 0,
            source_port: PortIdentity { clock_identity: [id; 8], port: 1 },
            sequence_id: 1,
            control: 5,
            log_message_interval: 1,
        },
        origin_timestamp: PtpTimestamp::default(),
        current_utc_offset: 37,
        gm_priority1: priority1,
        gm_clock_class: clock_class,
        gm_clock_accuracy: 0x21,
        gm_offset_scaled_log_variance: 0,
        gm_priority2: 128,
        gm_identity: [id; 8],
        steps_removed: 0,
        time_source: 0x20,
    };
    let mut buf = vec![0u8; Announce::LEN];
    ann.write(&mut buf).unwrap();
    buf
}

fn announce_bytes() -> Vec<u8> {
    announce_from(0xAB, 128, 6)
}

#[test]
fn classify_announce() {
    let buf = announce_bytes();
    match classify(&buf) {
        Some(PtpMessage::Announce(a)) => {
            assert_eq!(a.gm_clock_class, 6);
            assert_eq!(a.to_clock_dataset().clock_identity, [0xAB; 8]);
        }
        other => panic!("expected an Announce, got {other:?}"),
    }
}

#[test]
fn classify_ignores_garbage() {
    assert!(classify(&[0u8; 4]).is_none()); // too short for a header
}

#[test]
fn log_interval_matches_common_rates() {
    assert_eq!(log_interval(125 * MS), -3);
    assert_eq!(log_interval(250 * MS), -2);
    assert_eq!(log_interval(500 * MS), -1);
    assert_eq!(log_interval(1000 * MS), 0);
    assert_eq!(log_interval(2000 * MS), 1);
}

#[test]
fn log_interval_rounds_to_the_nearest_power() {
    assert_eq!(log_interval(0), -128);
    assert_eq!(log_interval(31_250_000), -5);
    assert_eq!(log_interval(1), -30);
    assert_eq!(log_interval(707 * MS), -1);
    assert_eq!(log_interval(708 * MS), 0);
    assert_eq!(log_interval(u64::MAX), 34);
}

#[test]
fn st2059_preset_is_broadcast_profile() {
    let p = PtpProfile::st2059();
    assert_eq!(p.domain, 127);
    assert_eq!(p.sync_interval, 125 * MS);
    assert_eq!(p.announce_interval, 250 * MS);
    // The rest stays as by default.
    assert_eq!(p.priority1, 128);
    assert_eq!(p.clock_class, 248);
}

#[test]
fn message_domain_is_exposed() {
    let mut buf = announce_bytes();
    buf[4] = 127; // the domain in the header
    match classify(&buf) {
        Some(m) => assert_eq!(m.domain(), 127),
        None => panic!("the Announce has to parse"),
    }
}

#[test]
fn messages_go_to_the_ptp_group() {
    let c = ptp_config([10, 0, 0, 1], PTP_EVENT_PORT);
    assert_eq!(c.group, [224, 0, 1, 129]);
    assert_eq!(c.port, 319);
    assert_eq!(PTP_GENERAL_PORT, 320);
}

#[test]
fn kind_and_source_of_a_message() {
    let m = classify(&announce_bytes()).unwrap();
    assert_eq!(m.kind(), "Announce");
    assert_eq!(m.source_identity(), [0xAB; 8]);
}

fn master(id: u8, priority1: u8) -> PtpMaster {
    let profile = PtpProfile { priority1, ..PtpProfile::default() };
    PtpMaster::new([id; 8], profile)
}

#[test]
fn lone_master_is_active_and_announces_itself() {
    let mut m = master(1, 128);
    assert_eq!(m.status(), PtpMasterStatus::default());
    assert!(m.is_active());
    let out = m.on_announce_tick(5_000_000_000).expect("an active master announces");
    assert_eq!(out.port, PTP_GENERAL_PORT);
    match classify(&out.bytes) {
        Some(PtpMessage::Announce(a)) => assert_eq!(a.to_clock_dataset(), m.our_dataset()),
        other => panic!("expected an Announce, got {other:?}"),
    }
    assert_eq!(m.status().announces_sent, 1);
}

#[test]
fn better_foreign_master_takes_over_until_it_falls_silent() {
    let mut m = master(1, 128);
    let foreign = classify(&announce_from(9, 10, 6)).unwrap();
    assert!(m.on_message(&foreign, 0).is_none());
    assert!(!m.is_active());
    // Three seconds at one Announce a second.
    assert!(m.on_announce_tick(0).is_none());
    assert!(m.on_sync_tick(0).is_none());
    assert!(m.on_announce_tick(0).is_none());
    assert_eq!(m.status().better_master, Some([9; 8]));
    assert!(m.on_announce_tick(0).is_some());
    assert!(m.is_active());
    assert_eq!(m.status().better_master, None);
}

#[test]
fn of_two_masters_exactly_one_is_active() {
    let mut a = master(1, 128);
    let mut b = master(2, 100);
    let from_a = a.on_announce_tick(0).unwrap();
    let from_b = b.on_announce_tick(0).unwrap();
    a.on_message(&classify(&from_b.bytes).unwrap(), 0);
    b.on_message(&classify(&from_a.bytes).unwrap(), 0);
    assert!(!a.is_active());
    assert!(b.is_active());
}

#[test]
fn slave_follows_the_sync_of_a_master() {
    let mut m = master(1, 128);
    let mut s = PtpSlave::new([7; 8], 0);
    let announce = m.on_announce_tick(0).unwrap();
    assert_eq!(
        s.on_message(&classify(&announce.bytes).unwrap(), 0),
        SlaveAction::NoteGrandmaster
    );
    assert_eq!(s.grandmaster(), Some([1; 8]));
    let (sync, follow_up) = m.on_sync_tick(1_000_000_000).unwrap();
    assert_eq!(sync.port, PTP_EVENT_PORT);
    assert_eq!(follow_up.port, PTP_GENERAL_PORT);
    let _ = s.on_message(&classify(&sync.bytes).unwrap(), 1_000_000_100);
    assert!(!s.is_synced());
    assert_eq!(
        s.on_message(&classify(&follow_up.bytes).unwrap(), 1_000_000_200),
        SlaveAction::Publish { step: Some(ServoStep::Offset { sync_diff: 100 }) }
    );
    assert!(s.is_synced());
    // The delay request is answered, and the answer is taken.
    let request = s.on_delay_tick(2_000_000_000);
    let answer = m
        .on_message(&classify(&request).unwrap(), 2_000_000_050)
        .expect("an active master answers");
    assert_eq!(
        s.on_message(&classify(&answer.bytes).unwrap(), 2_000_000_100),
        SlaveAction::Publish {
            step: Some(ServoStep::Delay { sync_diff: 100, delay_diff: 50 })
        }
    );
}

#[test]
fn other_domain_is_ignored() {
    let mut s = PtpSlave::new([7; 8], 127);
    let m = classify(&announce_bytes()).unwrap();
    assert_eq!(s.on_message(&m, 0), SlaveAction::Ignore);
    assert_eq!(s.grandmaster(), None);
}

#[test]
fn worse_third_clock_brings_no_return() {
    let mut m = master(1, 128);
    let better = classify(&announce_from(9, 10, 6)).unwrap();
    let worse = classify(&announce_from(5, 200, 6)).unwrap();
    m.on_message(&better, 0);
    m.on_message(&worse, 0);
    assert!(!m.is_active());
    assert_eq!(m.status().better_master, Some([9; 8]));
    // In the other order it is the same.
    let mut m = master(1, 128);
    m.on_message(&worse, 0);
    assert!(m.is_active());
    m.on_message(&better, 0);
    assert!(!m.is_active());
    assert_eq!(m.status().better_master, Some([9; 8]));
    // A clock in between does not take its place either.
    m.on_message(&classify(&announce_from(6, 50, 6)).unwrap(), 0);
    assert_eq!(m.status().better_master, Some([9; 8]));
}

#[test]
fn known_clock_is_refreshed() {
    let mut m = master(1, 128);
    let better = classify(&announce_from(9, 10, 6)).unwrap();
    m.on_message(&better, 0);
    for _ in 0..10 {
        assert!(m.on_announce_tick(0).is_none());
        m.on_message(&better, 0);
    }
    assert!(!m.is_active());
    // It gives up its rank: what it says now counts.
    m.on_message(&classify(&announce_from(9, 200, 6)).unwrap(), 0);
    assert!(m.is_active());
    assert_eq!(m.status().better_master, None);
}

#[test]
fn exactly_one_of_two_is_active_whatever_else_announces() {
    let mut a = master(1, 128);
    let mut b = master(2, 100);
    let from_a = a.on_announce_tick(0).unwrap();
    let from_b = b.on_announce_tick(0).unwrap();
    let third = classify(&announce_from(7, 250, 6)).unwrap();
    a.on_message(&classify(&from_b.bytes).unwrap(), 0);
    a.on_message(&third, 0);
    b.on_message(&third, 0);
    b.on_message(&classify(&from_a.bytes).unwrap(), 0);
    assert!(!a.is_active());
    assert!(b.is_active());
}

#[test]
fn messages_of_other_domains_make_no_difference() {
    let mut m = master(1, 128);
    let announce = m.on_announce_tick(0).unwrap();
    let (sync, follow_up) = m.on_sync_tick(1_000_000_000).unwrap();
    let own = [announce.bytes, sync.bytes, follow_up.bytes];
    let mut plain = PtpSlave::new([7; 8], 0);
    let mut mixed = PtpSlave::new([7; 8], 0);
    for (i, bytes) in own.iter().enumerate() {
        let now = 1_000_000_100 + i as i128;
        let mut foreign = bytes.clone();
        foreign[4] = 127;
        let foreign = classify(&foreign).unwrap();
        assert_eq!(mixed.on_message(&foreign, now), SlaveAction::Ignore);
        let msg = classify(bytes).unwrap();
        let action = plain.on_message(&msg, now);
        assert_eq!(mixed.on_message(&msg, now), action);
        assert_ne!(action, SlaveAction::Ignore);
        assert_eq!(mixed.on_message(&foreign, now), SlaveAction::Ignore);
    }
    assert_eq!(mixed.is_synced(), plain.is_synced());
    assert_eq!(mixed.grandmaster(), plain.grandmaster());
    assert_eq!(mixed.on_delay_tick(2_000_000_000), plain.on_delay_tick(2_000_000_000));
}
