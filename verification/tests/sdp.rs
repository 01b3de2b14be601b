//! SDP descriptions.

use taktwerk::sdp::{AudioSession, PtpRefClock, SdpError};
use taktwerk::{Encoding, StreamProfile};

fn sample_session() -> AudioSession {
    AudioSession {
        session_name: "Taktwerk 8ch".to_string(),
        origin_unicast: "192.168.1.10".to_string(),
        multicast_addr: "239.69.83.67".to_string(),
        port: 5004,
        payload_type: 97,
        profile: StreamProfile::level_a(8),
        refclk: Some(PtpRefClock {
            gmid: "00-11-22-FF-FE-33-44-55".to_string(),
            domain: 0,
        }),
        mediaclk_offset: 0,
    }
}

#[test]
fn build_contains_level_a_lines() {
    let sdp = sample_session().to_sdp();
    assert!(sdp.contains("m=audio 5004 RTP/AVP 97"));
    assert!(sdp.contains("a=rtpmap:97 L24/48000/8"));
    assert!(sdp.contains("a=ptime:1\r\n"));
    assert!(sdp.contains("c=IN IP4 239.69.83.67/32"));
    assert!(sdp.contains("ts-refclk:ptp=IEEE1588-2008:00-11-22-FF-FE-33-44-55:0"));
}

#[test]
fn build_then_parse_roundtrip() {
    let orig = sample_session();
    let parsed = AudioSession::parse(&orig.to_sdp()).unwrap();
    assert_eq!(parsed.multicast_addr, "239.69.83.67");
    assert_eq!(parsed.port, 5004);
    assert_eq!(parsed.payload_type, 97);
    assert_eq!(parsed.profile, StreamProfile::level_a(8));
    assert_eq!(parsed.refclk, orig.refclk);
}

#[test]
fn parse_tolerates_unknown_attributes() {
    let sdp = "v=0\r\n\
               o=- 1443716955 1443716955 IN IP4 192.168.1.5\r\n\
               s=Foreign Device\r\n\
               c=IN IP4 239.1.2.3/32\r\n\
               t=0 0\r\n\
               a=x-vendor-secret:whatever\r\n\
               m=audio 5004 RTP/AVP 96\r\n\
               a=rtpmap:96 L24/48000/2\r\n\
               a=ptime:1\r\n\
               a=private-token:ignore-me\r\n\
               a=mediaclk:direct=12345\r\n";
    let parsed = AudioSession::parse(sdp).unwrap();
    assert_eq!(parsed.profile.channels, 2);
    assert_eq!(parsed.profile.encoding, Encoding::L24);
    assert_eq!(parsed.mediaclk_offset, 12345);
    assert!(parsed.refclk.is_none());
}

#[test]
fn parse_missing_media_errors() {
    let sdp = "v=0\r\ns=Nothing\r\nt=0 0\r\n";
    // Without an m=audio line it is the port that is missed first.
    assert_eq!(AudioSession::parse(sdp), Err(SdpError::Missing("m=audio")));
}

#[test]
fn parse_media_level_connection_wins() {
    let sdp = "v=0\r\n\
               c=IN IP4 239.0.0.1/32\r\n\
               m=audio 5004 RTP/AVP 96\r\n\
               c=IN IP4 239.9.9.9/32\r\n\
               a=rtpmap:96 L16/48000/2\r\n";
    let parsed = AudioSession::parse(sdp).unwrap();
    assert_eq!(parsed.multicast_addr, "239.9.9.9");
    assert_eq!(parsed.profile.encoding, Encoding::L16);
}

#[test]
fn whole_session_comes_back() {
    let mut s = sample_session();
    s.profile = StreamProfile::aes67(64);
    s.mediaclk_offset = 77;
    assert!(s.to_sdp().contains("a=ptime:0.125\r\n"));
    assert_eq!(AudioSession::parse(&s.to_sdp()), Ok(s));
}

#[test]
fn what_is_missing_is_named() {
    let no_map = "c=IN IP4 239.0.0.1/32\r\nm=audio 5004 RTP/AVP 96\r\n";
    let no_conn = "m=audio 5004 RTP/AVP 96\r\na=rtpmap:96 L16/48000/2\r\n";
    for sdp in [no_map, no_conn] {
        match AudioSession::parse(sdp) {
            Err(e) => assert!(e.message().starts_with("SDP: Pflichtangabe fehlt: ")),
            Ok(s) => panic!("must not parse: {s:?}"),
        }
    }
    assert_eq!(
        SdpError::Malformed("x").message(),
        "SDP: ungueltiger Wert: x"
    );
}

#[test]
fn packet_time_defaults_to_a_millisecond_and_is_read_in_any_form() {
    let sdp = |ptime: &str| {
        format!("c=IN IP4 239.0.0.1/32\nm=audio 5004 RTP/AVP 96\na=rtpmap:96 L24/48000/2\n{ptime}")
    };
    let us = |ptime: &str| AudioSession::parse(&sdp(ptime)).unwrap().profile.ptime_us;
    assert_eq!(us(""), 1000);
    assert_eq!(us("a=ptime:0.25\n"), 250);
    assert_eq!(us("a=ptime:.125\n"), 125);
    assert_eq!(us("a=ptime:4e0\n"), 4000);
    assert_eq!(us("a=ptime:1.33333\n"), 1333);
}

#[test]
fn unknown_attribute_is_passed_over_wherever_it_stands() {
    let orig = sample_session();
    let sdp = orig.to_sdp();
    let want = AudioSession::parse(&sdp).unwrap();
    let starts = std::iter::once(0).chain(sdp.match_indices('\n').map(|(i, _)| i + 1));
    for at in starts {
        for x in ["", "recvonly", "ptim:4", "framecount:48", "x=y=z", "mediaclk:sender"] {
            let longer = format!("{}a={x}\r\n{}", &sdp[..at], &sdp[at..]);
            assert_eq!(AudioSession::parse(&longer).unwrap(), want, "{x} at {at}");
        }
    }
    // What is missing stays missing.
    assert!(AudioSession::parse("a=x\r\nv=0\r\n").is_err());
}
