//! Stream profiles.

use taktwerk::{Encoding, StreamProfile, MAX_CHANNELS};

#[test]
fn level_a_frames_and_payload() {
    let p = StreamProfile::level_a(8);
    assert_eq!(p.frames_per_packet(), 48); // 48 kHz for 1 ms
    // 48 frames of 8 channels, 3 bytes each.
    assert_eq!(p.payload_bytes(), 1152);
}

#[test]
fn aes67_high_channel_counts_fit_standard_mtu() {
    // Every step fits in a standard Ethernet frame.
    for ch in [2u8, 8, 16, 32, 64] {
        let p = StreamProfile::aes67(ch);
        assert_eq!(p.channels, ch);
        assert!(
            p.payload_bytes() <= 1440,
            "{ch} channels: {} bytes are too many",
            p.payload_bytes()
        );
    }
    // Known corners.
    assert_eq!(StreamProfile::aes67(8).ptime_us, 1_000);
    assert_eq!(StreamProfile::aes67(32).ptime_us, 250);
    assert_eq!(StreamProfile::aes67(64).ptime_us, 125);
    assert_eq!(StreamProfile::aes67(64).payload_bytes(), 1152);
    // Up to 8 channels it is Level A.
    assert_eq!(StreamProfile::aes67(2), StreamProfile::level_a(2));
    // Above the maximum it is capped.
    assert_eq!(StreamProfile::aes67(200).channels, MAX_CHANNELS);
}

#[test]
fn stereo_l16_payload() {
    let p = StreamProfile {
        sample_rate: 48_000,
        channels: 2,
        ptime_us: 1_000,
        encoding: Encoding::L16,
    };
    assert_eq!(p.frames_per_packet(), 48);
    assert_eq!(p.payload_bytes(), 48 * 2 * 2);
}
