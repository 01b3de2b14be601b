//! RTP header and payload.

use taktwerk::rtp::{decode_payload, encode_payload, RtpError, RtpHeader, RTP_HEADER_MIN_LEN, RTP_VERSION};
use taktwerk::Encoding;

#[test]
fn rtp_header_roundtrip() {
    let h = RtpHeader {
        marker: true,
        payload_type: 97,
        sequence: 0xBEEF,
        timestamp: 0x0011_2233,
        ssrc: 0xDEAD_C0DE,
    };
    let mut buf = [0u8; RTP_HEADER_MIN_LEN];
    let n = h.write(&mut buf).unwrap();
    assert_eq!(n, RTP_HEADER_MIN_LEN);
    let (parsed, off) = RtpHeader::parse(&buf).unwrap();
    assert_eq!(parsed, h);
    assert_eq!(off, RTP_HEADER_MIN_LEN);
}

#[test]
fn parse_skips_csrc() {
    // Two CSRC words (8 bytes) behind the fixed header.
    let mut buf = vec![0u8; RTP_HEADER_MIN_LEN + 8 + 4];
    buf[0] = (RTP_VERSION << 6) | 0x02; // version 2, two CSRCs
    let (_h, off) = RtpHeader::parse(&buf).unwrap();
    assert_eq!(off, RTP_HEADER_MIN_LEN + 8);
}

#[test]
fn rejects_bad_version() {
    let buf = [0u8; RTP_HEADER_MIN_LEN];
    assert_eq!(RtpHeader::parse(&buf), Err(RtpError::BadVersion));
}

#[test]
fn l24_payload_roundtrip() {
    // Left-aligned (low 8 bits clear), so that L24 keeps them exactly.
    let samples: Vec<i32> = [1i32, -1, 0x7fff_ff00, -0x8000_0000i32]
        .iter()
        .map(|&x| x & !0xff)
        .collect();
    let enc = Encoding::L24;
    let mut bytes = vec![0u8; samples.len() * enc.bytes_per_sample()];
    encode_payload(&samples, enc, &mut bytes).unwrap();
    let mut back = Vec::new();
    let n = decode_payload(&bytes, enc, &mut back).unwrap();
    assert_eq!(n, samples.len());
    assert_eq!(back, samples);
}

#[test]
fn l24_encodes_big_endian() {
    let samples = [0x12_34_56_00i32]; // bytes 12 34 56 00, highest first
    let mut bytes = [0u8; 3];
    encode_payload(&samples, Encoding::L24, &mut bytes).unwrap();
    assert_eq!(bytes, [0x12, 0x34, 0x56]);
}

#[test]
fn ragged_payload_detected() {
    let mut out = Vec::new();
    // Four bytes are no whole number of L24 samples.
    assert_eq!(
        decode_payload(&[0, 0, 0, 0], Encoding::L24, &mut out),
        Err(RtpError::RaggedPayload)
    );
}

#[test]
fn short_buffers_are_refused() {
    let h = RtpHeader { marker: false, payload_type: 0, sequence: 0, timestamp: 0, ssrc: 0 };
    assert_eq!(h.write(&mut [0u8; RTP_HEADER_MIN_LEN - 1]), Err(RtpError::TooShort));
    assert_eq!(RtpHeader::parse(&[0x80; RTP_HEADER_MIN_LEN - 1]), Err(RtpError::TooShort));
    // Room for fifteen CSRCs is announced, and not there.
    assert_eq!(RtpHeader::parse(&[0x8f; 20]), Err(RtpError::TooShort));
    assert_eq!(encode_payload(&[1, 2], Encoding::L16, &mut [0u8; 3]), Err(RtpError::TooShort));
    assert_eq!(RtpError::TooShort.message(), "RTP-Puffer zu kurz");
    assert_eq!(RtpError::BadVersion.message(), "RTP-Version != 2");
    assert_eq!(
        RtpError::RaggedPayload.message(),
        "Payload-Laenge nicht durch Frame-Groesse teilbar"
    );
}

#[test]
fn header_bytes_are_in_place() {
    let h = RtpHeader {
        marker: true,
        payload_type: 97,
        sequence: 0x0102,
        timestamp: 0x0304_0506,
        ssrc: 0x0708_090a,
    };
    let mut buf = [0u8; RTP_HEADER_MIN_LEN];
    h.write(&mut buf).unwrap();
    assert_eq!(buf, [0x80, 0xe1, 1, 2, 3, 4, 5, 6, 7, 8, 9, 10]);
}

#[test]
fn l16_payload_keeps_the_upper_half() {
    let mut bytes = [0u8; 4];
    encode_payload(&[0x1234_5678, -1], Encoding::L16, &mut bytes).unwrap();
    assert_eq!(bytes, [0x12, 0x34, 0xff, 0xff]);
    let mut back = Vec::new();
    assert_eq!(decode_payload(&bytes, Encoding::L16, &mut back), Ok(2));
    assert_eq!(back, vec![0x1234_0000, -0x1_0000]);
}
