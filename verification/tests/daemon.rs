//! The daemon: configuration, state, monitor, clock, streams and matrix.

use taktwerk::daemon::clockmon::{
    clock_json, gpsd_addr, read_report, set_source, DriftStatus, DriftStep, DriftWindow, GnssStatus,
    OffsetReading, SourceRequest,
};
use taktwerk::daemon::config::{
    channels_from, flag, interface_from, node_info, ptp_profile, resolve_path, FileConfig,
    PtpVariables, Variables,
};
use taktwerk::daemon::handlers::{
    discovered, health_json, list_rx, list_tx, node_json, ptp_json, rx_plan, rx_started, tx_params,
    tx_plan, tx_started, RxSubscribeRequest, TxStartRequest,
};
use taktwerk::daemon::identity::{clock_identity_from, fmt_eui64, fmt_id};
use taktwerk::daemon::monitor::{Proto, TrafficMonitor};
use taktwerk::daemon::ravenna::{
    finding, node_sdp, note_finding, offer, request_complete, respond, sanitize_host, session_host,
};
use taktwerk::daemon::routing::{
    build_sdp, enter_sink, note_peer, peer_to_ask, read_receivers, registry, release_sink,
    route_failed, route_reply, route_step, sink_connected, sink_plan, sink_sdp, RouteRequest,
    RouteStep,
};
use taktwerk::daemon::state::{note_sap, now_unix, take_streams, AppState, NodeInfo};
use taktwerk::daemon::tasks::{stream_id, tx_step, TxEvent, TxStep};
use taktwerk::discovery::mdns::{RavennaSession, ResolvedService};
use taktwerk::json::Json;
use taktwerk::net::ptp::PtpProfile;
use taktwerk::net::SapEvent;
use taktwerk::sdp::AudioSession;
use taktwerk::StreamProfile;

fn at<'a>(j: &'a Json, path: &[&str]) -> &'a Json {
    let mut here = j;
    for key in path {
        here = match here {
            Json::Array(items) => &items[key.parse::<usize>().unwrap()],
            other => match other.get(key) {
                Some(v) => v,
                None => panic!("no member {key}"),
            },
        };
    }
    here
}

fn text(s: &str) -> Json {
    Json::Text(s.to_string())
}

fn number(n: u64) -> Json {
    Json::Unsigned(n)
}

fn node() -> NodeInfo {
    NodeInfo {
        name: "t".to_string(),
        interface: [10, 0, 0, 5],
        profile: StreamProfile::level_a(2),
        ptp_slave: false,
        ptp_master: false,
        ptp_domain: 0,
        nmos_host: "10.0.0.5".to_string(),
        nmos_port: 7789,
    }
}

// ---------- monitor ----------

#[test]
fn records_and_totals() {
    let mut m = TrafficMonitor::default();
    let ip = [192, 168, 1, 5];
    m.record(Proto::Sap, ip, 100, Some("Foo".into()));
    m.record(Proto::Sap, ip, 100, None);
    m.record(Proto::Rtp, ip, 300, None);
    let t = m.traffic_json();
    assert_eq!(at(&t, &["total", "packets"]), &number(3));
    assert_eq!(at(&t, &["total", "bytes"]), &number(500));
    assert_eq!(at(&t, &["by_proto", "sap", "packets"]), &number(2));
    assert_eq!(at(&t, &["device_count"]), &number(1));

    let d = m.devices_json();
    assert_eq!(at(&d, &["0", "ip"]), &text("192.168.1.5"));
    assert_eq!(at(&d, &["0", "name"]), &text("Foo"));
    assert_eq!(at(&d, &["0", "packets"]), &number(3));
}

#[test]
fn sap_name_replaces_ptp_name() {
    let mut m = TrafficMonitor::default();
    let ip = [10, 0, 0, 1];
    m.record(Proto::Ptp, ip, 64, Some("PTP 90:1b:0e".into()));
    assert_eq!(at(&m.devices_json(), &["0", "name"]), &text("PTP 90:1b:0e"));
    m.record(Proto::Sap, ip, 200, Some("Kamera 3".into()));
    assert_eq!(at(&m.devices_json(), &["0", "name"]), &text("Kamera 3"));
}

#[test]
fn rate_is_delta_since_last_tick() {
    let mut m = TrafficMonitor::default();
    let ip = [10, 0, 0, 2];
    m.record(Proto::Rtp, ip, 300, None);
    m.record(Proto::Rtp, ip, 300, None);
    m.tick(); // two packets of 600 bytes
    let t = m.traffic_json();
    assert_eq!(at(&t, &["by_proto", "rtp", "pps"]), &number(2));
    assert_eq!(at(&t, &["by_proto", "rtp", "bps"]), &number(600));
    m.tick(); // nothing since then
    assert_eq!(at(&m.traffic_json(), &["by_proto", "rtp", "pps"]), &number(0));
}

#[test]
fn human_name_stays_and_senders_are_listed_by_address() {
    let mut m = TrafficMonitor::default();
    m.record_at(Proto::Sap, [10, 0, 0, 9], 10, Some("Neun".into()), 100);
    m.record_at(Proto::Ptp, [10, 0, 0, 9], 10, Some("PTP 01".into()), 110);
    m.note_device_at([9, 255, 0, 1], Some("Erster".into()), 105);
    m.record_at(Proto::Sap, [10, 0, 0, 9], 10, Some("Anders".into()), 120);
    let d = m.devices_json_at(130);
    assert_eq!(at(&d, &["0", "ip"]), &text("9.255.0.1"));
    assert_eq!(at(&d, &["0", "packets"]), &number(0));
    assert_eq!(at(&d, &["0", "protocols"]), &Json::Array(vec![]));
    assert_eq!(at(&d, &["1", "name"]), &text("Neun"));
    assert_eq!(at(&d, &["1", "first_seen"]), &number(100));
    assert_eq!(at(&d, &["1", "age_s"]), &number(10));
    assert_eq!(at(&d, &["1", "protocols"]), &Json::Array(vec![text("sap"), text("ptp")]));
    assert_eq!(at(&m.devices_json_at(1), &["1", "age_s"]), &number(0));
}

#[test]
fn all_traffic_is_that_of_the_senders() {
    let mut m = TrafficMonitor::default();
    for i in 0..10u8 {
        m.record_at(Proto::Rtp, [10, 0, 0, i % 3], 100 + i as usize, None, 7);
        if i == 4 {
            m.tick();
        }
    }
    m.tick();
    let d = m.devices_json_at(7);
    let sum = |key: &str| (0..3).map(|i| match at(&d, &[&i.to_string(), key]) {
        Json::Unsigned(n) => *n,
        other => panic!("no number: {other:?}"),
    }).sum::<u64>();
    let t = m.traffic_json();
    for key in ["packets", "bytes", "pps", "bps"] {
        assert_eq!(at(&t, &["total", key]), &number(sum(key)));
    }
    assert_eq!(at(&t, &["total", "pps"]), &number(5));
}

// ---------- clock ----------

#[test]
fn gpsd_sky_message_is_applied() {
    let mut state: AppState<(), ()> = AppState::new(node());
    let sky = r#"{"class": "SKY", "satellites": [
        {"PRN": 5, "ss": 41.0, "used": true},
        {"PRN": 12, "ss": 22.5, "used": false},
        {"PRN": 23, "ss": 38.0, "used": true}]}"#;
    state.gnss.apply(read_report(sky));
    assert!(state.gnss.connected);
    assert_eq!(state.gnss.sats_visible, 3);
    assert_eq!(state.gnss.sats_used, 2);
    assert_eq!(state.gnss.sats[0].prn, 5, "sorted by strength");
    assert_eq!(state.gnss.sats[1].prn, 23);
    assert_eq!(f64::from_bits(state.gnss.sats[2].snr), 22.5);

    let tpv = r#"{"class":"TPV","mode":3,"time":"2026-07-19T12:00:00.000Z"}"#;
    state.gnss.apply(read_report(tpv));
    assert_eq!(state.gnss.mode, 3);
    assert_eq!(state.gnss.time.as_deref(), Some("2026-07-19T12:00:00.000Z"));
    state.gnss.lost();
    assert!(!state.gnss.connected);
    assert_eq!(state.gnss.mode, 3);
}

#[test]
fn strongest_satellites_are_kept_in_order() {
    let mut g = GnssStatus::default();
    let sats: Vec<String> = (0..30)
        .map(|i| format!("{{\"PRN\":{i},\"ss\":{},\"used\":true}}", (i * 7) % 10 - 2))
        .collect();
    g.apply(read_report(&format!("{{\"class\":\"SKY\",\"satellites\":[{}]}}", sats.join(","))));
    assert_eq!(g.sats_visible, 30);
    assert_eq!(g.sats.len(), 24);
    assert_eq!(g.sats_used, 24);
    let snr: Vec<f64> = g.sats.iter().map(|s| f64::from_bits(s.snr)).collect();
    assert!(snr.windows(2).all(|w| w[0] >= w[1]));
    // Equally strong ones keep their order.
    assert_eq!(g.sats[0].prn, 7);
    assert_eq!(g.sats[1].prn, 17);
}

#[test]
fn other_lines_of_gpsd_change_nothing() {
    let mut g = GnssStatus::default();
    for line in ["", "no json", "{}", r#"{"class":"VERSION"}"#, r#"{"class":7}"#] {
        g.apply(read_report(line));
        assert!(!g.connected);
    }
    g.apply(read_report(r#"{"class":"SKY"}"#));
    assert!(g.connected);
    assert!(g.sats.is_empty());
    g.apply(read_report(r#"{"class":"TPV","mode":258}"#));
    assert_eq!(g.mode, 2);
    assert_eq!(g.time, None);
}

#[test]
fn gpsd_can_be_moved_and_switched_off() {
    let addr = |s: &str| gpsd_addr(&Some(s.to_string()));
    assert_eq!(gpsd_addr(&None).as_deref(), Some("127.0.0.1:2947"));
    assert_eq!(addr("  ").as_deref(), Some("127.0.0.1:2947"));
    assert_eq!(addr("10.0.0.1:2947").as_deref(), Some("10.0.0.1:2947"));
    assert_eq!(addr("OFF"), None);
}

#[test]
fn drift_is_estimated_over_a_window() {
    let mut w = DriftWindow::new();
    let reading = |t: u64| OffsetReading { seconds: t, nanos: 0, offset_ns: 500 * t as i64 };
    for t in 0..9 {
        assert_eq!(w.observe(true, reading(t)), DriftStep::Wait);
    }
    for t in 9..100 {
        assert_eq!(w.observe(true, reading(t)), DriftStep::Estimate);
    }
    assert_eq!(w.points().len(), 60);
    assert_eq!(w.points()[0].seconds, 40);
    assert_eq!(w.observe(false, reading(100)), DriftStep::Void);
    assert!(w.points().is_empty());
}

#[test]
fn only_known_sources_are_chosen() {
    let mut selected = "auto".to_string();
    let j = set_source(&mut selected, SourceRequest { id: "gnss".to_string() }).unwrap();
    assert_eq!(at(&j, &["selected_source"]), &text("gnss"));
    assert_eq!(selected, "gnss");
    assert_eq!(
        set_source(&mut selected, SourceRequest { id: "mond".to_string() }),
        Err((400, "unbekannte Quelle: mond".to_string()))
    );
    assert_eq!(selected, "gnss");
}

#[test]
fn clock_shows_role_and_sources() {
    let mut n = node();
    n.ptp_slave = true;
    let j = clock_json(&n, 1234, true, &DriftStatus::default(), &GnssStatus::default(), "auto");
    assert_eq!(at(&j, &["role"]), &text("slave"));
    assert_eq!(at(&j, &["time_unix_ms"]), &number(1234));
    assert_eq!(at(&j, &["sources", "1", "id"]), &text("ptp"));
    assert_eq!(at(&j, &["sources", "1", "available"]), &Json::Bool(true));
    assert_eq!(at(&j, &["sources", "2", "available"]), &Json::Bool(false));
    assert_eq!(at(&j, &["drift", "ppm"]), &Json::Fraction(0));
}

// ---------- configuration ----------

#[test]
fn environment_goes_before_the_file() {
    let cfg = FileConfig {
        name: Some("studio-node".to_string()),
        channels: Some(8),
        ptp_slave: Some(true),
        ptp_master: Some(false),
        log_file: Some("x.log".to_string()),
        ..FileConfig::default()
    };
    let given: Vec<&str> = cfg.given().iter().map(|(k, _)| *k).collect();
    assert_eq!(
        given,
        vec![
            "TAKTWERK_NAME",
            "TAKTWERK_CH",
            "TAKTWERK_PTP_SLAVE",
            "TAKTWERK_PTP_MASTER",
            "TAKTWERK_LOG_FILE"
        ]
    );
    let env = [("TAKTWERK_CH", "2")];
    let set: Vec<bool> = given.iter().map(|k| env.iter().any(|(e, _)| e == k)).collect();
    assert_eq!(
        cfg.apply_to_env(&set),
        vec![
            ("TAKTWERK_NAME", "studio-node".to_string()),
            ("TAKTWERK_PTP_SLAVE", "1".to_string()),
            ("TAKTWERK_PTP_MASTER", "0".to_string()),
            ("TAKTWERK_LOG_FILE", "x.log".to_string())
        ]
    );
    assert!(FileConfig::default().given().is_empty());
}

#[test]
fn configuration_is_found_where_it_usually_is() {
    assert_eq!(resolve_path(Some("/x".to_string()), true, true).as_deref(), Some("/x"));
    assert_eq!(resolve_path(None, true, true).as_deref(), Some("taktwerk.toml"));
    assert_eq!(
        resolve_path(None, false, true).as_deref(),
        Some("/etc/taktwerk/taktwerk.toml")
    );
    assert_eq!(resolve_path(None, false, false), None);
}

#[test]
fn variables_describe_the_node() {
    let some = |s: &str| Some(s.to_string());
    let n = node_info(
        &Variables {
            name: some("studio"),
            iface: some("10.0.0.20"),
            channels: some("12"),
            ptp_slave: some("TRUE"),
            ptp_master: some("yes"),
            ptp: PtpVariables::default(),
        },
        7789,
    );
    assert_eq!(n.name, "studio");
    assert_eq!(n.interface, [10, 0, 0, 20]);
    assert_eq!(n.nmos_host, "10.0.0.20");
    assert_eq!(n.profile, StreamProfile::aes67(12));
    assert!(n.ptp_slave);
    assert!(!n.ptp_master);
    let d = node_info(
        &Variables {
            name: None,
            iface: None,
            channels: None,
            ptp_slave: None,
            ptp_master: None,
            ptp: PtpVariables { profile: some("st2059"), ..PtpVariables::default() },
        },
        1,
    );
    assert_eq!(d.name, "taktwerk");
    assert_eq!(d.interface, [0, 0, 0, 0]);
    assert_eq!(d.profile, StreamProfile::level_a(2));
    assert_eq!((n.ptp_domain, d.ptp_domain), (0, 127));
}

#[test]
fn ptp_profile_is_picked_and_tuned() {
    let some = |s: &str| Some(s.to_string());
    assert_eq!(ptp_profile(&PtpVariables::default()), PtpProfile::default());
    let broadcast = PtpVariables { profile: some("st2059"), ..PtpVariables::default() };
    assert_eq!(ptp_profile(&broadcast), PtpProfile::st2059());
    let tuned = PtpVariables {
        profile: some("st2059"),
        domain: some("5"),
        priority1: some("1"),
        priority2: some("256"),
        clock_class: some("6"),
        sync_ms: some("62"),
        announce_ms: some("0"),
    };
    assert_eq!(
        ptp_profile(&tuned),
        PtpProfile {
            domain: 5,
            priority1: 1,
            priority2: 128,
            clock_class: 6,
            sync_interval: 62_000_000,
            announce_interval: 250_000_000,
        }
    );
    let long = PtpVariables { sync_ms: some("18446744073710"), ..PtpVariables::default() };
    assert_eq!(ptp_profile(&long).sync_interval, 250_000_000);
}

#[test]
fn values_out_of_range_are_brought_into_it() {
    let ch = |s: &str| channels_from(&Some(s.to_string()));
    assert_eq!(ch("0"), 1);
    assert_eq!(ch("65"), 64);
    assert_eq!(ch("300"), 2);
    assert_eq!(ch("x"), 2);
    assert_eq!(ch("8"), 8);
    assert!(flag(&Some("1".to_string())));
    assert!(!flag(&Some("0".to_string())));
    assert_eq!(interface_from(&Some("10.0.0".to_string())), [0, 0, 0, 0]);
}

// ---------- identity and clock reference ----------

#[test]
fn identity_is_local_and_follows_the_name() {
    let a = clock_identity_from("studio");
    assert_eq!(a, clock_identity_from("studio"));
    assert_ne!(a, clock_identity_from("bühne"));
    assert_eq!(a[0] & 0x03, 0x02);
    // The start value of the hash, with the marks set.
    assert_eq!(fmt_eui64(&clock_identity_from("")), "CA-F2-9C-E4-84-22-23-25");
    assert_eq!(fmt_id(&[0, 1, 0xab, 3, 4, 5, 6, 0xff]), "00:01:ab:03:04:05:06:ff");
}

#[test]
fn clock_reference_follows_the_role() {
    let mut n = node();
    assert_eq!(n.ptp_refclk(Some([1; 8])), None);
    n.ptp_slave = true;
    assert_eq!(n.ptp_refclk(None), None);
    n.ptp_domain = 127;
    let r = n.ptp_refclk(Some([1; 8])).unwrap();
    assert_eq!(r.gmid, "01-01-01-01-01-01-01-01");
    assert_eq!(r.domain, 127);
    n.ptp_master = true;
    assert_eq!(
        n.ptp_refclk(None).unwrap().gmid,
        fmt_eui64(&clock_identity_from("t"))
    );
    assert!(now_unix() > 1_700_000_000);
}

// ---------- streams ----------

fn start(group: Option<&str>, port: Option<u16>, channels: Option<u8>) -> TxStartRequest {
    TxStartRequest { group: group.map(String::from), port, channels }
}

#[test]
fn stream_is_started_once_and_listed() {
    let mut state: AppState<u32, u32> = AppState::new(node());
    let plan = tx_plan(&state.tx, &start(None, None, None)).unwrap();
    assert_eq!(plan.group, [239, 69, 83, 67]);
    let params = tx_params(&state.node, plan, state.ptp_refclk());
    assert_eq!(params.ssrc, u32::from_be_bytes(*b"TAKT"));
    assert_eq!(params.session().session_name, "t · 239.69.83.67:5004");
    assert_eq!(params.session().origin_unicast, "10.0.0.5");
    assert_eq!(params.multicast().dest(), ([239, 69, 83, 67], 5004));
    let dto = tx_started(&mut state.tx, plan, 0, 11);
    assert_eq!(dto.id, "239.69.83.67:5004");
    assert_eq!(at(&dto.json(), &["dest"]), &text("239.69.83.67:5004"));
    assert_eq!(
        tx_plan(&state.tx, &start(None, None, Some(8))).unwrap_err(),
        (409, "TX 239.69.83.67:5004 läuft bereits".to_string())
    );
    let other = tx_plan(&state.tx, &start(Some("239.1.1.1"), None, Some(8))).unwrap();
    tx_started(&mut state.tx, other, 0, 12);
    let list = list_tx(&state.tx, &vec![5, 6]);
    assert_eq!(list[0].id, "239.1.1.1:5004");
    assert_eq!(list[0].packets_sent, 6);
    assert_eq!(list[1].channels, 2);
    // Stopping one leaves the other, and it can be started again.
    let id = Some("239.69.83.67:5004".to_string());
    let stopped = take_streams(&mut state.tx, &id);
    assert_eq!(stopped.iter().map(|c| c.handle).collect::<Vec<_>>(), vec![11]);
    assert!(take_streams(&mut state.tx, &id).is_empty());
    assert!(tx_plan(&state.tx, &start(None, None, None)).is_ok());
    assert_eq!(take_streams(&mut state.tx, &None).len(), 1);
    assert_eq!(state.tx.len(), 0);
}

#[test]
fn impossible_streams_are_refused() {
    let state: AppState<(), ()> = AppState::new(node());
    let refused = |g: &str, ch: Option<u8>| {
        tx_plan(&state.tx, &start(Some(g), None, ch)).unwrap_err()
    };
    assert_eq!(refused("239.1.1", None), (400, "ungültige group-Adresse".to_string()));
    let channels = (400, "channels muss 1..=64 sein".to_string());
    assert_eq!(refused("239.1.1.1", Some(0)), channels);
    assert_eq!(refused("239.1.1.1", Some(65)), channels);
    assert!(tx_plan(&state.tx, &start(Some("239.1.1.1"), None, Some(64))).is_ok());
}

#[test]
fn subscription_is_entered_once() {
    let mut state: AppState<(), u8> = AppState::new(node());
    let req = RxSubscribeRequest { group: "239.2.2.2".to_string(), port: Some(6000), channels: None };
    let plan = rx_plan(&state.rx, &req).unwrap();
    let dto = rx_started(&mut state.rx, plan, 3, 1);
    assert_eq!(at(&dto.json(), &["packets_recv"]), &number(3));
    assert_eq!(
        rx_plan(&state.rx, &req).unwrap_err(),
        (409, "RX 239.2.2.2:6000 läuft bereits".to_string())
    );
    assert_eq!(list_rx(&state.rx, &vec![9])[0].packets_recv, 9);
    assert_eq!(stream_id([239, 2, 2, 2], 6000), "239.2.2.2:6000");
}

#[test]
fn sending_loop_ends_when_told_or_failing() {
    assert_eq!(tx_step(TxEvent::Start), TxStep::Announce);
    assert_eq!(tx_step(TxEvent::MediaTick), TxStep::Pump);
    assert_eq!(tx_step(TxEvent::AnnounceTick), TxStep::Announce);
    assert_eq!(tx_step(TxEvent::Signal(false)), TxStep::Wait);
    assert_eq!(tx_step(TxEvent::Signal(true)), TxStep::Finish);
    assert_eq!(tx_step(TxEvent::SignalLost), TxStep::Finish);
    assert_eq!(tx_step(TxEvent::SendFailed), TxStep::Finish);
}

// ---------- what was found ----------

fn session(name: &str) -> AudioSession {
    AudioSession {
        session_name: name.to_string(),
        origin_unicast: "10.0.0.7".to_string(),
        multicast_addr: "239.7.7.7".to_string(),
        port: 5006,
        payload_type: 97,
        profile: StreamProfile::level_a(8),
        refclk: None,
        mediaclk_offset: 0,
    }
}

fn event(announce: bool, hash: u16, session: Option<AudioSession>) -> SapEvent {
    SapEvent { announce, msg_id_hash: hash, source: [10, 0, 0, 7], bytes: 100, session }
}

#[test]
fn announcements_and_deletions_keep_the_list() {
    let mut state: AppState<(), ()> = AppState::new(node());
    note_sap(&mut state.discovered, event(true, 2, Some(session("B"))), 10);
    note_sap(&mut state.discovered, event(true, 1, Some(session("A"))), 11);
    note_sap(&mut state.discovered, event(true, 3, None), 12);
    note_sap(&mut state.discovered, event(true, 2, Some(session("B"))), 20);
    let list = discovered(&state.discovered);
    assert_eq!(list.len(), 2);
    assert_eq!(list[0].session_name, "A");
    assert_eq!(list[1].last_seen, 20);
    assert_eq!(list[1].via, "SAP");
    assert_eq!(at(&list[1].json(), &["source"]), &text("10.0.0.7"));
    note_sap(&mut state.discovered, event(false, 2, None), 21);
    note_sap(&mut state.discovered, event(false, 9, None), 21);
    assert_eq!(discovered(&state.discovered).len(), 1);
}

#[test]
fn described_session_is_entered() {
    let mut state: AppState<(), ()> = AppState::new(node());
    let found = RavennaSession {
        instance: "Kamera 3".to_string(),
        host: "kamera.local".to_string(),
        addr: Some("10.0.0.9".to_string()),
        port: 554,
        path: "/by-name/Kamera 3".to_string(),
    };
    assert_eq!(session_host(&found), "10.0.0.9");
    let f = finding(&found, &session("Kamera 3").to_sdp(), 50).unwrap();
    assert_eq!(f.address, [10, 0, 0, 9]);
    note_finding(&mut state, f, 50);
    let list = discovered(&state.discovered);
    assert_eq!(list[0].via, "RAVENNA");
    assert_eq!(list[0].source, "10.0.0.9");
    let d = state.monitor.devices_json_at(60);
    assert_eq!(at(&d, &["0", "name"]), &text("Kamera 3"));
    assert_eq!(at(&d, &["0", "age_s"]), &number(10));
    assert!(finding(&found, "v=0\r\n", 50).is_err());
    let v6 = RavennaSession { addr: Some("fe80::1".to_string()), ..found.clone() };
    assert_eq!(finding(&v6, &session("x").to_sdp(), 1).unwrap().address, [0, 0, 0, 0]);
    let unknown = RavennaSession { addr: None, ..found };
    assert_eq!(session_host(&unknown), "kamera.local");
}

#[test]
fn node_is_offered_on_a_concrete_interface_only() {
    let o = offer("Studio Süd 1", [10, 0, 0, 5]).unwrap();
    assert_eq!(o.host, "studio-s-d-1");
    assert_eq!(o.path, "/by-name/Studio Süd 1");
    assert!(offer("x", [0, 0, 0, 0]).is_none());
    assert_eq!(sanitize_host(""), "taktwerk");
}

#[test]
fn description_of_the_node_carries_the_clock() {
    let mut state: AppState<(), ()> = AppState::new(node());
    assert!(!node_sdp(&state).contains("ts-refclk"));
    state.node.ptp_slave = true;
    state.ptp.grandmaster = Some([2; 8]);
    assert!(node_sdp(&state).contains("a=ts-refclk:ptp=IEEE1588-2008:02-02-02-02-02-02-02-02:0"));
}

#[test]
fn request_ends_with_an_empty_line_or_when_too_long() {
    assert!(!request_complete(b"OPTIONS * RTSP/1.0\r\nCSeq: 1\r\n"));
    assert!(request_complete(b"OPTIONS * RTSP/1.0\r\nCSeq: 1\r\n\r\n"));
    assert!(!request_complete(&vec![b'x'; 8192]));
    assert!(request_complete(&vec![b'x'; 8193]));
}

#[test]
fn request_is_answered_from_its_bytes() {
    let answer = respond(b"DESCRIBE rtsp://h/\xff RTSP/1.0\r\nCSeq: 7\r\n\r\n", "v=0\r\n");
    assert!(answer.starts_with("RTSP/1.0 200 OK\r\nCSeq: 7\r\n"));
    assert!(answer.ends_with("\r\n\r\nv=0\r\n"));
    assert!(respond(b"\xff", "").starts_with("RTSP/1.0 501"));
}

// ---------- matrix ----------

fn service(instance: &str, port: u16, addr: Option<&str>) -> ResolvedService {
    ResolvedService {
        instance: instance.to_string(),
        host: "peer.local.".to_string(),
        addr: addr.map(String::from),
        port,
        path: None,
    }
}

#[test]
fn sink_follows_the_matrix() {
    let mut state: AppState<(), u8> = AppState::new(node());
    let sdp = build_sdp("10.0.0.8", "239.3.3.3", 5004, 16);
    let plan = sink_plan(&sdp).unwrap();
    assert_eq!(plan.group, [239, 3, 3, 3]);
    assert_eq!(plan.profile, StreamProfile::aes67(16));
    assert!(!sink_connected(&state.rx));
    enter_sink(&mut state.rx, &plan, &sdp, 1);
    assert!(sink_connected(&state.rx));
    assert_eq!(sink_sdp(&state.rx).as_deref(), Some(sdp.as_str()));
    let j = registry(&state);
    assert_eq!(at(&j, &["receivers", "0", "connected"]), &Json::Bool(true));
    assert_eq!(at(&j, &["receivers", "0", "source"]), &text("239.3.3.3:5004"));
    assert_eq!(release_sink(&mut state.rx).unwrap().handle, 1);
    assert!(release_sink(&mut state.rx).is_none());
    assert_eq!(sink_sdp(&state.rx), None);
    assert_eq!(at(&registry(&state), &["receivers", "0", "source"]), &Json::Null);
}

#[test]
fn sink_refuses_what_it_cannot_receive() {
    assert_eq!(
        sink_plan("v=0\r\n").unwrap_err(),
        "SDP: Pflichtangabe fehlt: m=audio"
    );
    let mut s = session("x");
    s.multicast_addr = "239.1.1".to_string();
    assert_eq!(
        sink_plan(&s.to_sdp()).unwrap_err(),
        "ungültige Multicast-Gruppe: 239.1.1"
    );
}

#[test]
fn registry_lists_senders_and_receivers() {
    let mut state: AppState<(), ()> = AppState::new(node());
    let plan = tx_plan(&state.tx, &start(Some("239.1.1.1"), Some(6000), Some(8))).unwrap();
    tx_started(&mut state.tx, plan, 0, ());
    note_sap(&mut state.discovered, event(true, 2, Some(session("B"))), 10);
    let peer = service("peer", 80, None);
    let host = peer_to_ask(7789, &peer).unwrap();
    assert_eq!(host, "peer.local");
    let recv = read_receivers(r#"[{"id":"r1","label":"Eins"},{"label":"ohne"},{"id":"r2"}]"#);
    assert_eq!(recv.len(), 2);
    note_peer(&mut state.nmos_peers, &peer, host, recv, 33);
    let j = registry(&state);
    assert_eq!(at(&j, &["senders", "0", "via"]), &text("self"));
    assert_eq!(at(&j, &["senders", "1", "id"]), &text("self-239.1.1.1:6000"));
    assert_eq!(at(&j, &["senders", "1", "group"]), &text("239.1.1.1"));
    assert_eq!(at(&j, &["senders", "1", "port"]), &text("6000"));
    assert_eq!(at(&j, &["senders", "1", "name"]), &text("t · 239.1.1.1:6000"));
    assert_eq!(at(&j, &["senders", "2", "id"]), &text("disc-B"));
    assert_eq!(at(&j, &["senders", "2", "port"]), &number(5006));
    assert_eq!(at(&j, &["receivers", "0", "name"]), &text("t (self)"));
    assert_eq!(at(&j, &["receivers", "1", "name"]), &text("Eins"));
    assert_eq!(at(&j, &["receivers", "2", "name"]), &text(""));
    assert_eq!(at(&j, &["receivers", "2", "last_seen"]), &number(33));
}

#[test]
fn own_node_and_nodes_without_receivers_are_left_out() {
    let mut state: AppState<(), ()> = AppState::new(node());
    assert_eq!(peer_to_ask(7789, &service("me", 7789, Some("10.0.0.5"))), None);
    let peer = service("peer", 80, Some("10.0.0.8"));
    assert_eq!(peer_to_ask(7789, &peer).as_deref(), Some("10.0.0.8"));
    for body in ["", "{}", "[]", r#"[{"label":"x"}]"#] {
        let recv = read_receivers(body);
        note_peer(&mut state.nmos_peers, &peer, "h".to_string(), recv, 1);
    }
    assert_eq!(state.nmos_peers.len(), 0);
}

#[test]
fn routes_are_set_and_released() {
    let req = |group: Option<&str>, disconnect: Option<bool>| RouteRequest {
        host: "10.0.0.8".to_string(),
        port: 80,
        receiver_id: "r1".to_string(),
        group: group.map(String::from),
        media_port: None,
        channels: None,
        disconnect,
    };
    match route_step(&req(Some("239.3.3.3"), None)).unwrap() {
        RouteStep::Connect(sdp) => {
            let s = AudioSession::parse(&sdp).unwrap();
            assert_eq!(s.session_name, "route 239.3.3.3:5004");
            assert_eq!(s.profile.channels, 2);
        }
        other => panic!("expected to connect: {other:?}"),
    }
    assert!(matches!(route_step(&req(None, Some(true))), Ok(RouteStep::Disconnect)));
    assert_eq!(
        route_step(&req(None, Some(false))).unwrap_err(),
        (400, "group fehlt".to_string())
    );
    assert_eq!(at(&route_reply(204), &["ok"]), &Json::Bool(true));
    assert_eq!(at(&route_reply(300), &["ok"]), &Json::Bool(false));
    assert_eq!(route_failed("x".to_string()), (502, "x".to_string()));
}

#[test]
fn routed_stream_is_what_the_sink_receives() {
    for (host, channels) in [("10.0.0.5", 2), ("studio pult", 8), ("", 64)] {
        let plan = sink_plan(&build_sdp(host, "239.69.83.67", 5006, channels)).unwrap();
        assert_eq!(plan.group, [239, 69, 83, 67]);
        assert_eq!(plan.port, 5006);
        assert_eq!(plan.profile, StreamProfile::aes67(channels));
    }
}

// ---------- display ----------

#[test]
fn node_and_ptp_are_shown() {
    let mut state: AppState<(), ()> = AppState::new(node());
    assert_eq!(at(&health_json(&state.node), &["status"]), &text("ok"));
    let j = node_json(&state.node);
    assert_eq!(at(&j, &["interface"]), &text("10.0.0.5"));
    assert_eq!(at(&j, &["profile", "encoding"]), &text("L24"));
    assert_eq!(at(&ptp_json(&state.node, &state.ptp, &state.ptp_master), &["role"]), &text("off"));
    state.node.ptp_slave = true;
    state.ptp.offset_ns = -42;
    state.ptp.grandmaster = Some([0x1b; 8]);
    let j = ptp_json(&state.node, &state.ptp, &state.ptp_master);
    assert_eq!(at(&j, &["role"]), &text("slave"));
    assert_eq!(at(&j, &["offset_ns"]), &Json::Signed(-42));
    assert_eq!(at(&j, &["grandmaster"]), &text("1b:1b:1b:1b:1b:1b:1b:1b"));
    assert_eq!(at(&j, &["better_master"]), &Json::Null);
}
