//! Audio backends, and what a device driver needs besides the device.

use std::collections::VecDeque;
use taktwerk::audio::device::{
    contains_text, dir_label, max_samples, narrow, no_device, no_device_named, pick_by_name,
    pop_or_silence, push_capped, widen,
};
use taktwerk::audio::{
    open, open_default, open_with, target_frames, AudioBackend, AudioError, DeviceSelection,
    NullBackend,
};
use taktwerk::StreamProfile;

#[test]
fn null_backend_capture_size_matches_profile() {
    let mut b = NullBackend::new(StreamProfile::level_a(8));
    let block = b.read_capture(48).unwrap();
    assert_eq!(block.len(), 48 * 8);
    assert!(block.iter().all(|&s| s == 0));
}

#[test]
fn null_backend_counts_written_frames() {
    let mut b = NullBackend::new(StreamProfile::level_a(2));
    b.write_playback(&[0; 48 * 2]).unwrap();
    assert_eq!(b.frames_written(), 48);
}

#[test]
fn open_default_is_headless_in_phase0() {
    let b = open_default(StreamProfile::level_a(2)).unwrap();
    assert_eq!(b.name(), "null (headless)");
}

#[test]
fn opening_without_a_driver_is_headless() {
    let p = StreamProfile::aes67(16);
    assert_eq!(open(p, true, true, true).profile(), p);
    let sel = DeviceSelection { capture: Some("Loopback".to_string()), playback: None };
    let b = open_with(p, true, false, true, sel);
    assert_eq!(b.name(), "null (headless)");
    assert_eq!(b.frames_written(), 0);
}

#[test]
fn backend_without_channels_counts_nothing() {
    let mut p = StreamProfile::level_a(2);
    p.channels = 0;
    let mut b = NullBackend::new(p);
    b.write_playback(&[1, 2, 3]).unwrap();
    assert_eq!(b.frames_written(), 0);
    assert!(b.read_capture(48).unwrap().is_empty());
}

#[test]
fn audio_errors_say_what_happened() {
    assert_eq!(
        AudioError::Unavailable("cpal").message(),
        "Audio-Backend nicht verfuegbar: cpal"
    );
    assert_eq!(
        AudioError::Open("busy".to_string()).message(),
        "Audio-Backend Oeffnen fehlgeschlagen: busy"
    );
}

#[test]
fn max_samples_is_one_second() {
    let p = StreamProfile::level_a(2);
    assert_eq!(max_samples(&p), 96_000);
}

#[test]
fn dir_label_reads_naturally() {
    assert_eq!(dir_label(true), "Eingabegerät");
    assert_eq!(dir_label(false), "Ausgabegerät");
}

#[test]
fn unknown_device_name_is_no_device() {
    let names = vec![Some("BlackHole 2ch".to_string()), None, Some("MacBook".to_string())];
    assert_eq!(pick_by_name(&names, "::kein-solches-gerät-4711::"), None);
}

#[test]
fn exact_device_name_goes_before_a_part_of_it() {
    let names = vec![
        Some("USB Audio Pro".to_string()),
        None,
        Some("usb audio".to_string()),
        Some("Großes Gerät".to_string()),
    ];
    assert_eq!(pick_by_name(&names, "USB AUDIO"), Some(2));
    assert_eq!(pick_by_name(&names, "audio pro"), Some(0));
    // Capital letters outside ASCII are found in their small form.
    assert_eq!(pick_by_name(&names, "GERÄT"), Some(3));
}

#[test]
fn missing_devices_are_named() {
    assert!(no_device(true).contains("Eingabegerät"));
    assert!(no_device_named(false, "Foo").contains("Foo"));
    assert!(no_device_named(false, "Foo").contains("Ausgabegerät"));
}

#[test]
fn part_of_a_text_is_found() {
    assert!(contains_text("loopback", "back"));
    assert!(contains_text("loopback", ""));
    assert!(!contains_text("loop", "loopback"));
}

#[test]
fn ring_buffer_keeps_the_newest() {
    let mut buf: VecDeque<i32> = VecDeque::new();
    push_capped(&mut buf, &[1, 2, 3], 4);
    push_capped(&mut buf, &[4, 5, 6], 4);
    assert_eq!(buf, VecDeque::from(vec![3, 4, 5, 6]));
    assert_eq!(pop_or_silence(&mut buf, 3), vec![3, 4, 5]);
    assert_eq!(pop_or_silence(&mut buf, 3), vec![6, 0, 0]);
    assert!(buf.is_empty());
}

#[test]
fn short_samples_survive_the_way_through_long_ones() {
    for s in [i16::MIN, -1, 0, 1, 12345, i16::MAX] {
        assert_eq!(narrow(widen(s)), s);
    }
    assert_eq!(widen(1), 65536);
    assert_eq!(narrow(-1), -1);
}

#[test]
fn playback_is_held_at_ten_milliseconds() {
    assert_eq!(target_frames(48_000), 480);
    assert_eq!(target_frames(100), 2);
}
