//! RAVENNA discovery: names and paths, and RTSP.

use taktwerk::discovery::mdns::{
    default_path, host_fqdn, host_name, session_fullname, session_of, ResolvedService,
};
use taktwerk::discovery::rtsp::{
    describe_request, extract_body, extract_body_lenient, handle_request, DescribeReader, ReadStep,
    ANSWER_LIMIT,
};

#[test]
fn default_path_from_fullname() {
    assert_eq!(
        default_path("Kamera 3._ravenna_session._sub._rtsp._tcp.local."),
        "/by-name/Kamera 3"
    );
}

#[test]
fn resolved_service_becomes_a_session() {
    let found = ResolvedService {
        instance: "Kamera 3._rtsp._tcp.local.".to_string(),
        host: "kamera.local.".to_string(),
        addr: Some("10.0.0.9".to_string()),
        port: 554,
        path: None,
    };
    let s = session_of(found);
    assert_eq!(s.host, "kamera.local");
    assert_eq!(s.path, "/by-name/Kamera 3");
    assert_eq!(s.addr.as_deref(), Some("10.0.0.9"));
    let with_path = ResolvedService {
        instance: "A._rtsp._tcp.local.".to_string(),
        host: "a".to_string(),
        addr: None,
        port: 554,
        path: Some("/by-id/7".to_string()),
    };
    assert_eq!(session_of(with_path).path, "/by-id/7");
}

#[test]
fn names_on_the_local_network() {
    assert_eq!(host_fqdn("studio"), "studio.local.");
    assert_eq!(host_name("studio.local."), "studio.local");
    assert!(session_fullname("Studio A").starts_with("Studio A."));
}

#[test]
fn describe_response_carries_sdp() {
    let sdp = "v=0\r\ns=Test\r\n";
    let resp = handle_request("DESCRIBE rtsp://h/p RTSP/1.0\r\nCSeq: 4\r\n\r\n", sdp);
    assert!(resp.starts_with("RTSP/1.0 200 OK"));
    assert!(resp.contains("CSeq: 4"));
    assert!(resp.contains("Content-Type: application/sdp"));
    assert!(resp.contains(&format!("Content-Length: {}", sdp.len())));
    assert!(resp.ends_with(sdp));
}

#[test]
fn options_lists_methods() {
    let resp = handle_request("OPTIONS * RTSP/1.0\r\nCSeq: 1\r\n\r\n", "");
    assert!(resp.contains("Public: OPTIONS, DESCRIBE"));
}

#[test]
fn other_methods_are_not_implemented() {
    let resp = handle_request("SETUP rtsp://h/p RTSP/1.0\r\ncseq:  12 \r\n\r\n", "");
    assert_eq!(resp, "RTSP/1.0 501 Not Implemented\r\nCSeq: 12\r\n\r\n");
    assert_eq!(
        handle_request("", ""),
        "RTSP/1.0 501 Not Implemented\r\nCSeq: 0\r\n\r\n"
    );
}

#[test]
fn client_extracts_body_with_content_length() {
    let sdp = "v=0\r\ns=X\r\n";
    let msg = format!(
        "RTSP/1.0 200 OK\r\nCSeq: 1\r\nContent-Length: {}\r\n\r\n{sdp}",
        sdp.len()
    );
    assert_eq!(extract_body(msg.as_bytes()).as_deref(), Some(sdp));
}

#[test]
fn client_waits_for_full_body() {
    // Ten bytes are announced, but only three have come.
    let msg = "RTSP/1.0 200 OK\r\nContent-Length: 10\r\n\r\nabc";
    assert!(extract_body(msg.as_bytes()).is_none());
}

#[test]
fn served_description_is_read_back() {
    let sdp = "v=0\r\ns=Größe\r\n";
    let answer = handle_request(&describe_request("10.0.0.5", 8554, "/by-name/x"), sdp);
    assert_eq!(extract_body(answer.as_bytes()).as_deref(), Some(sdp));
    let mut reader = DescribeReader::new();
    let bytes = answer.as_bytes();
    for (i, b) in bytes.iter().enumerate() {
        match reader.feed(&[*b]) {
            ReadStep::Done(got) => {
                assert_eq!(i + 1, bytes.len());
                assert_eq!(got, sdp);
            }
            ReadStep::More => assert!(i + 1 < bytes.len()),
            ReadStep::Enough => panic!("the answer is short"),
        }
    }
}

#[test]
fn answer_without_length_is_taken_as_it_ends() {
    let msg = b"RTSP/1.0 200 OK\r\n\r\nv=0\r\n";
    assert!(extract_body(msg).is_none());
    assert_eq!(extract_body_lenient(msg).as_deref(), Some("v=0\r\n"));
    assert_eq!(extract_body_lenient(b"RTSP/1.0 200 OK\r\n"), None);
    let mut reader = DescribeReader::new();
    assert!(matches!(reader.feed(msg), ReadStep::More));
    assert_eq!(reader.finish().as_deref(), Some("v=0\r\n"));
}

#[test]
fn invalid_bytes_are_replaced() {
    let msg = b"RTSP/1.0 200 OK\r\n\r\na\xffb";
    assert_eq!(extract_body_lenient(msg).as_deref(), Some("a\u{FFFD}b"));
}

#[test]
fn endless_answer_is_given_up() {
    let mut reader = DescribeReader::new();
    let chunk = vec![b'x'; ANSWER_LIMIT];
    assert!(matches!(reader.feed(&chunk), ReadStep::More));
    assert!(matches!(reader.feed(b"x"), ReadStep::Enough));
}

#[test]
fn description_is_asked_for_by_address_and_path() {
    assert_eq!(
        describe_request("h", 554, "/p"),
        "DESCRIBE rtsp://h:554/p RTSP/1.0\r\nCSeq: 1\r\nAccept: application/sdp\r\n\
         User-Agent: Taktwerk\r\n\r\n"
    );
}

#[test]
fn cut_answer_gives_nothing_wherever_it_is_cut() {
    // The sequence number and the description hold characters of several bytes.
    let sdp = "v=0\r\ns=Größe €\r\n";
    let request = "DESCRIBE rtsp://h/p RTSP/1.0\r\nCSeq: 4ä€\r\n\r\n";
    let answer = handle_request(request, sdp);
    let bytes = answer.as_bytes();
    for k in 0..bytes.len() {
        assert_eq!(extract_body(&bytes[..k]), None, "cut at {k}");
    }
    assert_eq!(extract_body(bytes).as_deref(), Some(sdp));
}
