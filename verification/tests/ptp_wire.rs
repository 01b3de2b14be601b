//! PTP messages on the wire.

use taktwerk::ptp::wire::{
    build_delay_req, Announce, DelayResp, MessageType, PortIdentity, PtpError, PtpHeader, PtpTimestamp,
    TimestampedMsg, PTP_HEADER_LEN,
};
use taktwerk::ptp::{BmcaOrder, ClockDataset};

#[test]
fn timestamp_roundtrip() {
    let ts = PtpTimestamp {
        seconds: 0x0000_1234_5678,
        nanos: 999_999_999,
    };
    let mut buf = [0u8; 10];
    ts.write(&mut buf).unwrap();
    assert_eq!(PtpTimestamp::parse(&buf).unwrap(), ts);
    assert_eq!(
        ts.total_nanos(),
        0x1234_5678u128 * 1_000_000_000 + 999_999_999
    );
}

#[test]
fn wire_header_roundtrip() {
    let h = PtpHeader {
        message_type: MessageType::Sync,
        version: 2,
        message_length: 44,
        domain: 0,
        flags: 0x0200,
        correction: 12345,
        source_port: PortIdentity {
            clock_identity: [1, 2, 3, 4, 5, 6, 7, 8],
            port: 1,
        },
        sequence_id: 42,
        control: 0x00,
        log_message_interval: -3,
    };
    let mut buf = [0u8; PTP_HEADER_LEN];
    h.write(&mut buf).unwrap();
    assert_eq!(PtpHeader::parse(&buf).unwrap(), h);
}

#[test]
fn header_rejects_wrong_version() {
    let mut buf = [0u8; PTP_HEADER_LEN];
    buf[1] = 0x01; // version 1
    assert_eq!(PtpHeader::parse(&buf), Err(PtpError::BadVersion));
}

#[test]
fn announce_roundtrip_and_bmca_dataset() {
    let ann = Announce {
        header: PtpHeader {
            message_type: MessageType::Announce,
            version: 2,
            message_length: Announce::LEN as u16,
            domain: 0,
            flags: 0,
            correction: 0,
            source_port: PortIdentity {
                clock_identity: [0xAA; 8],
                port: 1,
            },
            sequence_id: 7,
            control: 0x05,
            log_message_interval: 1,
        },
        origin_timestamp: PtpTimestamp {
            seconds: 100,
            nanos: 500,
        },
        current_utc_offset: 37,
        gm_priority1: 128,
        gm_clock_class: 6,
        gm_clock_accuracy: 0x21,
        gm_offset_scaled_log_variance: 0x4E5D,
        gm_priority2: 128,
        gm_identity: [0xDE, 0xAD, 0xBE, 0xEF, 0x00, 0x11, 0x22, 0x33],
        steps_removed: 0,
        time_source: 0x20, // GPS
    };
    let mut buf = [0u8; Announce::LEN];
    ann.write(&mut buf).unwrap();
    let parsed = Announce::parse(&buf).unwrap();
    assert_eq!(parsed, ann);

    let ds = parsed.to_clock_dataset();
    assert_eq!(ds.clock_class, 6);
    assert_eq!(
        ds.clock_identity,
        [0xDE, 0xAD, 0xBE, 0xEF, 0x00, 0x11, 0x22, 0x33]
    );
    assert_eq!(ds.priority1, 128);
}

#[test]
fn announce_rejects_wrong_type() {
    // The header of a Sync, read as an Announce.
    let mut buf = [0u8; Announce::LEN];
    buf[1] = 0x02;
    buf[0] = MessageType::Sync.to_u8();
    assert_eq!(Announce::parse(&buf), Err(PtpError::WrongType));
}

/// A real Announce of linuxptp's `ptp4l` 4.2 as a grandmaster, captured with
/// tcpdump.
#[test]
fn parse_real_linuxptp_announce() {
    // The 64 bytes of PTP, without Ethernet, IP and UDP; message type 0xB.
    let bytes: [u8; 64] = [
        0x0b, 0x12, 0x00, 0x40, 0x00, 0x00, 0x00, 0x00, 0x00, 0x00, 0x00, 0x00, 0x00, 0x00,
        0x00, 0x00, 0x00, 0x00, 0x00, 0x00, 0x90, 0x1b, 0x0e, 0xff, 0xfe, 0x4b, 0xf8, 0x6e,
        0x00, 0x01, 0x00, 0x03, 0x00, 0x01, 0x00, 0x00, 0x00, 0x00, 0x00, 0x00, 0x00, 0x00,
        0x00, 0x00, 0x00, 0x25, 0x00, 0x80, 0xf8, 0xfe, 0xff, 0xff, 0x80, 0x90, 0x1b, 0x0e,
        0xff, 0xfe, 0x4b, 0xf8, 0x6e, 0x00, 0x00, 0xa0,
    ];
    let ann = Announce::parse(&bytes).expect("echte ptp4l-Announce muss parsen");
    assert_eq!(ann.header.message_type, MessageType::Announce);
    assert_eq!(ann.header.sequence_id, 3);
    assert_eq!(ann.header.source_port.port, 1);
    let gmid = [0x90, 0x1b, 0x0e, 0xff, 0xfe, 0x4b, 0xf8, 0x6e];
    assert_eq!(ann.gm_identity, gmid);
    assert_eq!(ann.header.source_port.clock_identity, gmid);
    assert_eq!(ann.gm_priority1, 128);
    assert_eq!(ann.gm_priority2, 128);
    assert_eq!(ann.gm_clock_class, 248);
    assert_eq!(ann.gm_clock_accuracy, 0xFE);
    assert_eq!(ann.gm_offset_scaled_log_variance, 0xFFFF);
    assert_eq!(ann.current_utc_offset, 37);
    assert_eq!(ann.time_source, 0xA0); // INTERNAL_OSCILLATOR

    // The dataset is right, and loses to a better grandmaster.
    let ds = ann.to_clock_dataset();
    assert_eq!(ds.clock_class, 248);
    let better = ClockDataset {
        priority1: 1,
        clock_identity: [0x11; 8], // another clock, else the two would be the same
        ..ds
    };
    assert_eq!(ClockDataset::compare(&better, &ds), BmcaOrder::ABetter);
}

#[test]
fn delay_req_build_and_header_roundtrip() {
    let src = PortIdentity {
        clock_identity: [7; 8],
        port: 1,
    };
    let buf = build_delay_req(src, 99, 127).unwrap();
    let h = PtpHeader::parse(&buf).unwrap();
    assert_eq!(h.message_type, MessageType::DelayReq);
    assert_eq!(h.sequence_id, 99);
    assert_eq!(h.source_port, src);
    assert_eq!(h.control, 0x01);
    assert_eq!(h.domain, 127, "Domain muss durchgereicht werden");
}

#[test]
fn delay_resp_parse() {
    // A Delay_Resp by hand: header (type 0x9), timestamp, requesting port.
    let mut buf = [0u8; DelayResp::LEN];
    let h = PtpHeader {
        message_type: MessageType::DelayResp,
        version: 2,
        message_length: DelayResp::LEN as u16,
        domain: 0,
        flags: 0,
        correction: 0,
        source_port: PortIdentity {
            clock_identity: [0xAA; 8],
            port: 1,
        },
        sequence_id: 99,
        control: 0x03,
        log_message_interval: 0x7f,
    };
    h.write(&mut buf[..PTP_HEADER_LEN]).unwrap();
    PtpTimestamp {
        seconds: 5,
        nanos: 500,
    }
    .write(&mut buf[34..44])
    .unwrap();
    buf[44..52].copy_from_slice(&[7u8; 8]); // requesting clock identity
    buf[52..54].copy_from_slice(&1u16.to_be_bytes());

    let resp = DelayResp::parse(&buf).unwrap();
    assert_eq!(resp.header.sequence_id, 99);
    assert_eq!(
        resp.receive_timestamp.total_nanos(),
        5 * 1_000_000_000 + 500
    );
    assert_eq!(resp.requesting_port.clock_identity, [7u8; 8]);
}

#[test]
fn timestamp_from_nanos_roundtrip() {
    let ts = PtpTimestamp::from_nanos(42 * 1_000_000_000 + 123_456);
    assert_eq!(ts.seconds, 42);
    assert_eq!(ts.nanos, 123_456);
    assert_eq!(PtpTimestamp::from_nanos(-5).seconds, 0); // negative: 0
}

#[test]
fn timestamped_write_roundtrip() {
    for mt in [MessageType::Sync, MessageType::FollowUp] {
        let msg = TimestampedMsg {
            header: PtpHeader {
                message_type: mt,
                version: 2,
                message_length: 0,
                domain: 0,
                flags: 0x0200,
                correction: 0,
                source_port: PortIdentity {
                    clock_identity: [0x42; 8],
                    port: 1,
                },
                sequence_id: 11,
                control: 0,
                log_message_interval: -3,
            },
            timestamp: PtpTimestamp::from_nanos(7_000_000_042),
        };
        let mut buf = [0u8; TimestampedMsg::LEN];
        msg.write(&mut buf).unwrap();
        let parsed = TimestampedMsg::parse(&buf).unwrap();
        assert_eq!(parsed.header.message_type, mt);
        assert_eq!(parsed.timestamp, msg.timestamp);
        assert_eq!(parsed.header.sequence_id, 11);
    }
}

#[test]
fn delay_resp_write_roundtrip() {
    let resp = DelayResp {
        header: PtpHeader {
            message_type: MessageType::DelayResp,
            version: 2,
            message_length: 0,
            domain: 0,
            flags: 0,
            correction: 0,
            source_port: PortIdentity {
                clock_identity: [0x55; 8],
                port: 1,
            },
            sequence_id: 88,
            control: 0,
            log_message_interval: 0x7f,
        },
        receive_timestamp: PtpTimestamp::from_nanos(9_000_000_500),
        requesting_port: PortIdentity {
            clock_identity: [0x77; 8],
            port: 2,
        },
    };
    let mut buf = [0u8; DelayResp::LEN];
    resp.write(&mut buf).unwrap();
    let parsed = DelayResp::parse(&buf).unwrap();
    assert_eq!(parsed.header.sequence_id, 88);
    assert_eq!(parsed.receive_timestamp, resp.receive_timestamp);
    assert_eq!(parsed.requesting_port, resp.requesting_port);
}

#[test]
fn sync_and_followup_parse() {
    for mt in [MessageType::Sync, MessageType::FollowUp] {
        let h = PtpHeader {
            message_type: mt,
            version: 2,
            message_length: TimestampedMsg::LEN as u16,
            domain: 0,
            flags: 0,
            correction: 0,
            source_port: PortIdentity {
                clock_identity: [9; 8],
                port: 1,
            },
            sequence_id: 3,
            control: 0,
            log_message_interval: -3,
        };
        let ts = PtpTimestamp {
            seconds: 42,
            nanos: 123_456,
        };
        let mut buf = [0u8; TimestampedMsg::LEN];
        h.write(&mut buf[..PTP_HEADER_LEN]).unwrap();
        ts.write(&mut buf[34..44]).unwrap();
        let parsed = TimestampedMsg::parse(&buf).unwrap();
        assert_eq!(parsed.header.message_type, mt);
        assert_eq!(parsed.timestamp, ts);
    }
}

#[test]
fn message_types_keep_their_numbers() {
    for v in 0u8..16 {
        assert_eq!(MessageType::from_u8(v).to_u8(), v);
    }
}

#[test]
fn short_messages_are_refused() {
    assert_eq!(PtpTimestamp::parse(&[0u8; 9]), Err(PtpError::TooShort));
    assert_eq!(PtpTimestamp::default().write(&mut [0u8; 9]), Err(PtpError::TooShort));
    assert_eq!(PtpHeader::parse(&[0u8; PTP_HEADER_LEN - 1]), Err(PtpError::TooShort));
    assert!(Announce::parse(&[0u8; 10]).is_err());
    assert!(DelayResp::parse(&[0u8; 10]).is_err());
}

#[test]
fn timestamps_hold_48_bits_of_seconds() {
    let t = PtpTimestamp { seconds: 0xffff_ffff_ffff, nanos: 999_999_999 };
    let mut b = [0u8; 10];
    t.write(&mut b).unwrap();
    assert_eq!(PtpTimestamp::parse(&b), Ok(t));
    assert_eq!(t.total_nanos(), 0xffff_ffff_ffffu128 * 1_000_000_000 + 999_999_999);
}
