//! The NMOS control plane: ids, resources, routes, receiver and controller.

use std::collections::BTreeSet;
use std::sync::Mutex;
use taktwerk::json::Json;
use taktwerk::router::controller::{
    connect_body, disconnect_body, get_request, patch_request, response_body, response_status,
    staged_path,
};
use taktwerk::router::ids::uuid_from;
use taktwerk::router::nmos::{accepts_patch, answer, answer_in, app, Endpoint, Reply};
use taktwerk::router::receiver::{connection, patch_of_body, patch_result, staged_patch, PatchStep};
use taktwerk::router::{NmosNode, ReceiverControl};
use taktwerk::sdp::{AudioSession, PtpRefClock};
use taktwerk::StreamProfile;

#[test]
fn format_is_uuid_shaped() {
    let u = uuid_from("taktwerk:node");
    assert_eq!(u.len(), 36);
    let parts: Vec<&str> = u.split('-').collect();
    assert_eq!(
        parts.iter().map(|p| p.len()).collect::<Vec<_>>(),
        vec![8, 4, 4, 4, 12]
    );
    // Version 5, and the variant of RFC 4122.
    assert_eq!(&u[14..15], "5");
    assert!(matches!(&u[19..20], "8" | "9" | "a" | "b"));
}

#[test]
fn deterministic_and_distinct() {
    assert_eq!(uuid_from("a"), uuid_from("a"));
    assert_ne!(uuid_from("a"), uuid_from("b"));
}

#[test]
fn uuid_of_the_empty_seed() {
    // The start values of both hashes, with version and variant set.
    assert_eq!(uuid_from(""), "cbf29ce4-8422-5325-8422-2325cbf29ce4");
}

fn node() -> NmosNode {
    NmosNode::new(
        "testnode",
        "10.0.0.5",
        7789,
        "eth0",
        StreamProfile::level_a(2),
        "239.69.83.67",
        5004,
    )
}

fn field<'a>(j: &'a Json, key: &str) -> &'a Json {
    match j.get(key) {
        Some(v) => v,
        None => panic!("no member {key}"),
    }
}

fn text(s: &str) -> Json {
    Json::Text(s.to_string())
}

#[test]
fn transport_sdp_is_valid_aes67() {
    let n = node();
    let sdp = n.transport_sdp();
    assert!(sdp.contains("m=audio 5004 RTP/AVP 97"));
    assert!(sdp.contains("a=rtpmap:97 L24/48000/2"));
}

#[test]
fn sender_references_flow_and_transportfile() {
    let n = node();
    let s = n.sender();
    assert_eq!(field(&s, "flow_id"), &text(&n.flow_id));
    assert!(field(&s, "manifest_href")
        .as_text()
        .unwrap()
        .ends_with("/transportfile/"));
    assert_eq!(field(&s, "transport").as_text(), Some("urn:x-nmos:transport:rtp.mcast"));
}

#[test]
fn device_links_sender_and_receiver() {
    let n = node();
    let d = n.device();
    assert_eq!(field(&d, "senders"), &Json::Array(vec![text(&n.sender_id)]));
    assert_eq!(field(&d, "receivers"), &Json::Array(vec![text(&n.receiver_id)]));
}

#[test]
fn ids_follow_from_the_label() {
    let n = node();
    assert_eq!(n.node_id, uuid_from("testnode:node"));
    assert_eq!(n.source_id, uuid_from("testnode:source"));
    assert_eq!(field(&n.flow(), "source_id"), &text(&n.source_id));
    assert_eq!(n.base_href(), "http://10.0.0.5:7789");
}

#[test]
fn node_shows_its_clock() {
    let clock = |n: &NmosNode| match n.node_self().get("clocks") {
        Some(Json::Array(c)) => (
            field(&c[0], "gmid").as_text().unwrap().to_string(),
            field(&c[0], "locked") == &Json::Bool(true),
        ),
        other => panic!("no clocks: {other:?}"),
    };
    assert_eq!(clock(&node()), ("00-00-00-ff-fe-00-00-00".to_string(), false));
    let locked = node().with_refclk(Some(PtpRefClock {
        gmid: "00-11-22-FF-FE-33-44-55".to_string(),
        domain: 0,
    }));
    assert_eq!(clock(&locked), ("00-11-22-ff-fe-33-44-55".to_string(), true));
    assert!(locked.transport_sdp().contains("ts-refclk:ptp=IEEE1588-2008:00-11-22-FF-FE-33-44-55:0"));
}

#[test]
fn source_lists_its_channels() {
    let s = node().source();
    match field(&s, "channels") {
        Json::Array(c) => {
            assert_eq!(c.len(), 2);
            assert_eq!(field(&c[1], "label").as_text(), Some("Channel 2"));
        }
        other => panic!("no list: {other:?}"),
    }
}

#[test]
fn no_path_is_served_twice() {
    let routes = app();
    let paths: BTreeSet<&str> = routes.iter().map(|r| r.path.as_str()).collect();
    assert_eq!(paths.len(), routes.len());
    assert_eq!(routes.len(), 51);
    let serves = |path: &str| routes.iter().find(|r| r.path == path).map(|r| r.endpoint);
    assert_eq!(serves("/x-nmos"), Some(Endpoint::Roots));
    assert_eq!(serves("/x-nmos/node/v1.3/flows/:id"), Some(Endpoint::Flow));
    assert_eq!(serves("/x-nmos/node/v1.3/flows/:id/"), None);
    assert_eq!(
        serves("/x-nmos/connection/v1.1/single/receivers/:id/staged/"),
        Some(Endpoint::ReceiverStaged)
    );
    assert!(accepts_patch(Endpoint::ReceiverStaged));
    assert!(!accepts_patch(Endpoint::SenderStaged));
}

#[test]
fn what_is_listed_is_served() {
    let n = node();
    let routes = app();
    let lists = [
        ("/x-nmos/", Endpoint::Roots),
        ("/x-nmos/node/", Endpoint::NodeVersions),
        ("/x-nmos/connection/", Endpoint::ConnectionVersions),
        ("/x-nmos/node/v1.3/", Endpoint::NodeRoot),
        ("/x-nmos/connection/v1.1/single/", Endpoint::SingleRoot),
    ];
    for (base, endpoint) in lists {
        match answer_in(&n, false, &None, endpoint, "") {
            Reply::Found(Json::Array(children)) => {
                for c in children {
                    let path = format!("{base}{}", c.as_text().unwrap());
                    assert!(routes.iter().any(|r| r.path == path), "{path}");
                }
            }
            other => panic!("no list: {other:?}"),
        }
    }
}

#[test]
fn things_are_found_under_their_own_id() {
    let n = node();
    let one = answer_in(&n, false, &None, Endpoint::Flow, &n.flow_id);
    assert_eq!(one.status(), 200);
    match one {
        Reply::Found(j) => assert_eq!(j, n.flow()),
        other => panic!("not found: {other:?}"),
    }
    let other = answer_in(&n, false, &None, Endpoint::Flow, &n.sender_id);
    assert_eq!(other.status(), 404);
    match other {
        Reply::NotFound(j) => assert_eq!(field(&j, "error").as_text(), Some("Not found")),
        other => panic!("found: {other:?}"),
    }
    match answer_in(&n, false, &None, Endpoint::TransportFile, &n.sender_id) {
        Reply::Description(s) => assert_eq!(s, n.transport_sdp()),
        other => panic!("no description: {other:?}"),
    }
}

/// A sink that remembers what it was told.
struct Sink {
    sdp: Mutex<Option<String>>,
    fails: bool,
}

impl ReceiverControl for Sink {
    fn connect(&self, sdp: &str) -> Result<(), String> {
        if self.fails {
            return Err("kein Socket".to_string());
        }
        *self.sdp.lock().unwrap() = Some(sdp.to_string());
        Ok(())
    }
    fn disconnect(&self) -> Result<(), String> {
        *self.sdp.lock().unwrap() = None;
        Ok(())
    }
    fn active_sdp(&self) -> Option<String> {
        self.sdp.lock().unwrap().clone()
    }
    fn connected(&self) -> bool {
        self.sdp.lock().unwrap().is_some()
    }
}

fn sink(fails: bool) -> Sink {
    Sink { sdp: Mutex::new(None), fails }
}

#[test]
fn staging_connects_and_parts_the_receiver() {
    let n = node();
    let s = sink(false);
    let body = r#"{"master_enable": true, "transport_file": {"data": "v=0\r\n", "type": "application/sdp"}}"#;
    let j = staged_patch(&n, &s, &n.receiver_id, body).unwrap();
    assert_eq!(field(&j, "master_enable"), &Json::Bool(true));
    assert_eq!(s.active_sdp().as_deref(), Some("v=0\r\n"));
    match answer(&n, &s, Endpoint::ReceiverActive, &n.receiver_id) {
        Reply::Found(a) => assert_eq!(a, j),
        other => panic!("not found: {other:?}"),
    }
    let j = staged_patch(&n, &s, &n.receiver_id, r#"{"master_enable": false}"#).unwrap();
    assert_eq!(j, connection(false, &None));
    assert!(!s.connected());
}

#[test]
fn staging_is_refused_with_a_reason() {
    let n = node();
    let s = sink(false);
    let refused = |id: &str, body: &str| staged_patch(&n, &s, id, body).unwrap_err();
    assert_eq!(refused("x", "{}"), (404, "unbekannter Receiver".to_string()));
    let missing = (400, "transport_file.data (SDP) fehlt".to_string());
    assert_eq!(refused(&n.receiver_id, "{}"), missing);
    assert_eq!(refused(&n.receiver_id, r#"{"transport_file": {"data": ""}}"#), missing);
    assert_eq!(refused(&n.receiver_id, "no json"), missing);
    assert!(!s.connected());
    let broken = sink(true);
    let body = r#"{"transport_file": {"data": "v=0"}}"#;
    assert_eq!(
        staged_patch(&n, &broken, &n.receiver_id, body).unwrap_err(),
        (500, "kein Socket".to_string())
    );
}

#[test]
fn body_of_a_request_is_read() {
    let n = node();
    assert!(matches!(
        patch_of_body(&n, &n.receiver_id, r#"{"transport_file":{"data":"a\nb"}}"#),
        PatchStep::Connect(s) if s == "a\nb"
    ));
    assert!(matches!(
        patch_of_body(&n, &n.receiver_id, r#"{"master_enable":false,"transport_file":{"data":"a"}}"#),
        PatchStep::Disconnect
    ));
    assert_eq!(
        patch_result(Err("x".to_string()), true, &None),
        Err((500, "x".to_string()))
    );
}

#[test]
fn controller_sends_what_the_receiver_understands() {
    let body = connect_body("v=0");
    assert_eq!(field(&body, "master_enable"), &Json::Bool(true));
    assert_eq!(field(field(&body, "transport_file"), "data").as_text(), Some("v=0"));
    assert_eq!(field(&disconnect_body(), "master_enable"), &Json::Bool(false));
    assert_eq!(
        staged_path("abc"),
        "/x-nmos/connection/v1.1/single/receivers/abc/staged"
    );
}

#[test]
fn requests_are_written_out() {
    assert_eq!(
        get_request("h", 80, "/p"),
        "GET /p HTTP/1.1\r\nHost: h:80\r\nAccept: application/json\r\nConnection: close\r\n\r\n"
    );
    assert_eq!(
        patch_request("h", 80, "/p", "\"ö\""),
        "PATCH /p HTTP/1.1\r\nHost: h:80\r\nContent-Type: application/json\r\n\
         Content-Length: 4\r\nConnection: close\r\n\r\n\"ö\""
    );
}

#[test]
fn answers_are_read() {
    let ok = b"HTTP/1.1 200 OK\r\nContent-Type: application/json\r\n\r\n[]\xff";
    assert_eq!(response_status(ok), Some(200));
    assert_eq!(response_body(ok).as_deref(), Some("[]\u{FFFD}"));
    assert_eq!(response_status(b""), None);
    assert_eq!(response_status(b"HTTP/1.1 70000 X\r\n"), None);
    assert_eq!(response_body(b"HTTP/1.1 200 OK\r\n"), None);
}

#[test]
fn transport_file_reads_back() {
    let n = node();
    let s = AudioSession::parse(&n.transport_sdp()).unwrap();
    assert_eq!(s.session_name, "testnode");
    assert_eq!(s.multicast_addr, "239.69.83.67");
    assert_eq!(s.profile, StreamProfile::level_a(2));
}

#[test]
fn uuid_is_made_of_small_hexadecimal_digits() {
    for seed in ["", "a", "taktwerk:node", "Größe"] {
        for (i, c) in uuid_from(seed).chars().enumerate() {
            if matches!(i, 8 | 13 | 18 | 23) {
                assert_eq!(c, '-');
            } else {
                assert!(c.is_ascii_digit() || ('a'..='f').contains(&c), "{c} at {i}");
            }
        }
    }
}

#[test]
fn every_path_with_an_id_knows_its_own_only() {
    let n = node();
    for r in app() {
        let reply = answer_in(&n, false, &None, r.endpoint, "no such id");
        assert_eq!(reply.status(), if r.path.contains(":id") { 404 } else { 200 }, "{}", r.path);
        let file = r.path.trim_end_matches('/').ends_with("/:id/transportfile");
        match answer_in(&n, false, &None, r.endpoint, &n.sender_id) {
            Reply::Description(s) => {
                assert!(file, "{}", r.path);
                assert_eq!(s, n.transport_sdp());
            }
            _ => assert!(!file, "{}", r.path),
        }
        let staged = r.path.trim_end_matches('/').ends_with("/receivers/:id/staged");
        assert_eq!(accepts_patch(r.endpoint), staged, "{}", r.path);
    }
}

#[test]
fn foreign_receiver_is_left_as_it_is() {
    let n = node();
    let s = sink(false);
    let body = r#"{"transport_file": {"data": "v=0"}}"#;
    assert!(staged_patch(&n, &s, &n.receiver_id, body).is_ok());
    for body in [r#"{"master_enable": false}"#, r#"{"transport_file": {"data": "x"}}"#] {
        let r = staged_patch(&n, &s, &n.sender_id, body);
        assert_eq!(r.err(), Some((404, "unbekannter Receiver".to_string())));
        assert_eq!(s.active_sdp().as_deref(), Some("v=0"));
    }
}

#[test]
fn last_letter_of_the_seed_tells_uuids_apart() {
    let all: BTreeSet<String> =
        (0u8..128).map(|b| uuid_from(&format!("node:{}", b as char))).collect();
    assert_eq!(all.len(), 128);
}
