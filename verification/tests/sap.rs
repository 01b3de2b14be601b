//! SAP packets, and the announcements of sessions.

use taktwerk::net::sap::{fnv16, receive, sap_config};
use taktwerk::net::SapAnnouncer;
use taktwerk::sap::{SapError, SapPacket};
use taktwerk::sdp::{AudioSession, PtpRefClock};
use taktwerk::StreamProfile;

#[test]
fn announce_roundtrip_with_mime() {
    let sdp = b"v=0\r\ns=Test\r\n";
    let pkt = SapPacket {
        announce: true,
        msg_id_hash: 0xABCD,
        source: [192, 168, 1, 10],
        payload_type: Some("application/sdp"),
        payload: sdp,
    };
    let bytes = pkt.to_bytes();
    let parsed = SapPacket::parse(&bytes).unwrap();
    assert_eq!(parsed, pkt);
    assert!(parsed.announce);
}

#[test]
fn parse_without_mime() {
    let sdp = b"v=0\r\n";
    let pkt = SapPacket {
        announce: true,
        msg_id_hash: 1,
        source: [10, 0, 0, 1],
        payload_type: None,
        payload: sdp,
    };
    let bytes = pkt.to_bytes();
    let parsed = SapPacket::parse(&bytes).unwrap();
    assert_eq!(parsed.payload, sdp);
    assert!(parsed.payload_type.is_none());
}

#[test]
fn deletion_flag() {
    let pkt = SapPacket {
        announce: false,
        msg_id_hash: 7,
        source: [10, 0, 0, 2],
        payload_type: None,
        payload: b"v=0\r\n",
    };
    let bytes = pkt.to_bytes();
    let parsed = SapPacket::parse(&bytes).unwrap();
    assert!(!parsed.announce);
}

#[test]
fn rejects_encrypted() {
    let mut bytes = SapPacket {
        announce: true,
        msg_id_hash: 0,
        source: [0, 0, 0, 0],
        payload_type: None,
        payload: b"",
    }
    .to_bytes();
    bytes[0] |= 0b0000_0010; // encrypted
    assert_eq!(SapPacket::parse(&bytes), Err(SapError::Unsupported));
}

fn session() -> AudioSession {
    AudioSession {
        session_name: "Taktwerk Test".into(),
        origin_unicast: "192.168.1.20".into(),
        multicast_addr: "239.69.83.67".into(),
        port: 5004,
        payload_type: 97,
        profile: StreamProfile::level_a(2),
        refclk: Some(PtpRefClock { gmid: "00-11-22-FF-FE-33-44-55".into(), domain: 0 }),
        mediaclk_offset: 0,
    }
}

#[test]
fn hash_is_stable_and_content_sensitive() {
    let s = session();
    let a = fnv16(s.to_sdp().as_bytes());
    let b = fnv16(s.to_sdp().as_bytes());
    assert_eq!(a, b, "same content, same hash");

    let mut s2 = session();
    s2.port = 5006;
    let c = fnv16(s2.to_sdp().as_bytes());
    assert_ne!(a, c, "other content, other hash");
}

#[test]
fn announce_is_received_and_parsed() {
    let sess = session();
    let ann = SapAnnouncer::new([192, 168, 1, 20], &sess);
    let ev = receive(&ann.announce()).unwrap();
    assert!(ev.announce);
    assert_eq!(ev.msg_id_hash, ann.msg_id_hash());
    assert_eq!(ev.source, [192, 168, 1, 20]);
    let got = ev.session.expect("the description can be read");
    assert_eq!(got.multicast_addr, "239.69.83.67");
    assert_eq!(got.port, 5004);
    assert_eq!(got.profile, StreamProfile::level_a(2));
}

#[test]
fn deletion_flag_survives() {
    let sess = session();
    let ann = SapAnnouncer::new([10, 0, 0, 1], &sess);
    let ev = receive(&ann.delete()).unwrap();
    assert!(!ev.announce);
}

#[test]
fn unreadable_description_is_an_event_without_session() {
    let bytes = SapPacket {
        announce: true,
        msg_id_hash: 9,
        source: [10, 0, 0, 3],
        payload_type: Some("application/sdp"),
        payload: b"v=0\r\n\xff\xfe",
    }
    .to_bytes();
    let ev = receive(&bytes).unwrap();
    assert!(ev.announce);
    assert_eq!(ev.bytes, bytes.len());
    assert!(ev.session.is_none());
}

#[test]
fn short_packet_is_rejected() {
    assert!(SapPacket::parse(&[0x20, 0, 0]).is_err());
    assert!(receive(&[]).is_err());
}

#[test]
fn announcements_go_to_the_sap_group() {
    let c = sap_config([10, 0, 0, 5]);
    assert_eq!(c.group, [239, 255, 255, 255]);
    assert_eq!(c.port, 9875);
    assert_eq!(c.interface, [10, 0, 0, 5]);
}

#[test]
fn authentication_data_is_unsupported() {
    // One word of authentication data between header and payload.
    let bytes = [
        0x20, 1, 0x12, 0x34, 10, 0, 0, 1, 0xAA, 0xBB, 0xCC, 0xDD, b'v', b'=', b'0',
    ];
    assert_eq!(SapPacket::parse(&bytes), Err(SapError::Unsupported));
    assert!(receive(&bytes).is_err());
    // The same packet without it is read.
    let plain = [0x20, 0, 0x12, 0x34, 10, 0, 0, 1, b'v', b'=', b'0'];
    assert_eq!(SapPacket::parse(&plain).unwrap().payload, b"v=0");
}
