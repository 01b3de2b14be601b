//! What the REST interface tells, and which requests it meets.

use super::{
    asked, discovered_json, health_view, identity_json, is_params_of, node_view, profile_json,
    ptp_view, rx_model, rx_view, session_names, shows_all, shows_rx, shows_tx, stream_keys,
    tx_group, tx_model, tx_view, DiscoveredDto, Refusal, RxStatusDto, StreamPlan, TxStartRequest,
    TxStatusDto,
};
use crate::daemon::identity;
use crate::daemon::state::{DiscoveredEntry, EntryModel, NodeInfo, RxControl, TxControl};
use crate::daemon::tasks::{stream_key, TxParams};
use crate::ipv4;
use crate::json;
use crate::json::{num, text_or_null, txt, JsonView};
use crate::net::ptp::master::PtpMasterStatus;
use crate::net::ptp::slave::PtpSlaveStatus;
use crate::order;
use crate::profile::StreamProfile;
use crate::sdp::{clock_view, PtpRefClock};
use crate::text;
use vstd::prelude::*;

verus! {

/// The node says its own name, its address and its profile, and gives a sign of
/// life with its name.
pub proof fn node_says_who_it_is(node: NodeInfo)
    ensures
        json::says(node_view(node), "name"@, txt(node.name@)),
        json::says(node_view(node), "interface"@, txt(ipv4::dotted(node.interface@))),
        json::says(node_view(node), "profile"@, profile_json(node.profile)),
        json::says(profile_json(node.profile), "channels"@, num(node.profile.channels as int)),
        json::says(
            profile_json(node.profile),
            "sample_rate"@,
            num(node.profile.sample_rate as int),
        ),
        json::says(profile_json(node.profile), "ptime_us"@, num(node.profile.ptime_us as int)),
        json::says(profile_json(node.profile), "encoding"@, txt(node.profile.encoding.name())),
        json::says(health_view(node), "status"@, txt("ok"@)),
        json::says(health_view(node), "node"@, txt(node.name@)),
{
    reveal_strlit("name");
    reveal_strlit("interface");
    reveal_strlit("profile");
    reveal_strlit("channels");
    reveal_strlit("sample_rate");
    reveal_strlit("ptime_us");
    reveal_strlit("encoding");
    reveal_strlit("status");
    reveal_strlit("node");
    let o = node_view(node);
    json::lemma_said(o, 0, 0);
    json::lemma_said(o, 1, 0);
    json::lemma_said(o, 2, 0);
    let o = profile_json(node.profile);
    json::lemma_said(o, 0, 0);
    json::lemma_said(o, 1, 0);
    json::lemma_said(o, 2, 0);
    json::lemma_said(o, 3, 0);
    let o = health_view(node);
    json::lemma_said(o, 0, 0);
    json::lemma_said(o, 1, 0);
}

/// PTP says the role of the node, which is that of a master where it is both, what
/// the slave measured and whom it follows, and what the master sent and who is
/// better than it.
pub proof fn ptp_says_its_role_and_its_measures(
    node: NodeInfo,
    slave: PtpSlaveStatus,
    master: PtpMasterStatus,
)
    ensures
        json::says(ptp_view(node, slave, master), "role"@, txt(
                if node.ptp_master {
                    "master"@
                } else if node.ptp_slave {
                    "slave"@
                } else {
                    "off"@
                },
            )),
        json::says(
            ptp_view(node, slave, master),
            "enabled"@,
            JsonView::Bool(node.ptp_slave || node.ptp_master),
        ),
        json::says(ptp_view(node, slave, master), "synced"@, JsonView::Bool(slave.synced)),
        json::says(ptp_view(node, slave, master), "offset_ns"@, num(slave.offset_ns as int)),
        json::says(
            ptp_view(node, slave, master),
            "path_delay_ns"@,
            num(slave.path_delay_ns as int),
        ),
        json::says(ptp_view(node, slave, master), "grandmaster"@, identity_json(slave.grandmaster)),
        json::says(ptp_view(node, slave, master), "master_active"@, JsonView::Bool(master.active)),
        json::says(
            ptp_view(node, slave, master),
            "announces_sent"@,
            num(master.announces_sent as int),
        ),
        json::says(ptp_view(node, slave, master), "syncs_sent"@, num(master.syncs_sent as int)),
        json::says(
            ptp_view(node, slave, master),
            "delay_resps_sent"@,
            num(master.delay_resps_sent as int),
        ),
        json::says(
            ptp_view(node, slave, master),
            "better_master"@,
            identity_json(master.better_master),
        ),
{
    reveal_strlit("role");
    reveal_strlit("enabled");
    reveal_strlit("synced");
    reveal_strlit("offset_ns");
    reveal_strlit("path_delay_ns");
    reveal_strlit("grandmaster");
    reveal_strlit("master_active");
    reveal_strlit("announces_sent");
    reveal_strlit("syncs_sent");
    reveal_strlit("delay_resps_sent");
    reveal_strlit("better_master");
    let o = ptp_view(node, slave, master);
    json::lemma_said(o, 0, 0);
    json::lemma_said(o, 1, 0);
    json::lemma_said(o, 2, 0);
    json::lemma_said(o, 3, 0);
    json::lemma_said(o, 4, 0);
    json::lemma_said(o, 5, 0);
    json::lemma_said(o, 6, 0);
    json::lemma_said(o, 7, 0);
    json::lemma_said(o, 8, 0);
    json::lemma_said(o, 9, 0);
    json::lemma_said(o, 10, 0);
}

/// An identity is told as its bytes with colons between them, and as null where
/// there is none.
pub proof fn identity_is_told_with_colons(id: [u8; 8])
    ensures
        identity_json(Some(id)) matches JsonView::Text(t) && t == identity::marked(id@, ':', false),
        identity_json(None) is Null,
{
}

/// A stream that was found says what its description says, who announced it, how
/// it was found and when it was last heard of.
pub proof fn found_stream_says_what_was_found(id: u16, e: EntryModel)
    ensures
        json::says(discovered_json(id, e), "msg_id_hash"@, num(id as int)),
        json::says(discovered_json(id, e), "session_name"@, txt(e.session_name)),
        json::says(discovered_json(id, e), "multicast_addr"@, txt(e.multicast_addr)),
        json::says(discovered_json(id, e), "port"@, num(e.port as int)),
        json::says(discovered_json(id, e), "channels"@, num(e.channels as int)),
        json::says(discovered_json(id, e), "sample_rate"@, num(e.sample_rate as int)),
        json::says(discovered_json(id, e), "source"@, txt(ipv4::dotted(e.source@))),
        json::says(discovered_json(id, e), "via"@, txt(e.via)),
        json::says(discovered_json(id, e), "last_seen"@, num(e.last_seen as int)),
{
    reveal_strlit("msg_id_hash");
    reveal_strlit("session_name");
    reveal_strlit("multicast_addr");
    reveal_strlit("port");
    reveal_strlit("channels");
    reveal_strlit("sample_rate");
    reveal_strlit("source");
    reveal_strlit("via");
    reveal_strlit("last_seen");
    let o = discovered_json(id, e);
    json::lemma_said(o, 0, 0);
    json::lemma_said(o, 1, 0);
    json::lemma_said(o, 2, 0);
    json::lemma_said(o, 3, 0);
    json::lemma_said(o, 4, 0);
    json::lemma_said(o, 5, 0);
    json::lemma_said(o, 6, 0);
    json::lemma_said(o, 7, 0);
    json::lemma_said(o, 8, 0);
}

/// A sending stream says its key, where it goes, its channels and the packets that
/// it has sent.
pub proof fn running_stream_says_where_it_goes<H>(e: (String, TxControl<H>), packets: u64)
    ensures
        json::says(tx_view(tx_model(e, packets)), "id"@, txt(e.0@)),
        json::says(tx_view(tx_model(e, packets)), "running"@, JsonView::Bool(e.1.running)),
        json::says(tx_view(tx_model(e, packets)), "dest"@, text_or_null(text::optional(e.1.dest))),
        json::says(tx_view(tx_model(e, packets)), "channels"@, num(e.1.channels as int)),
        json::says(tx_view(tx_model(e, packets)), "packets_sent"@, num(packets as int)),
{
    reveal_strlit("id");
    reveal_strlit("running");
    reveal_strlit("dest");
    reveal_strlit("channels");
    reveal_strlit("packets_sent");
    let o = tx_view(tx_model(e, packets));
    json::lemma_said(o, 0, 0);
    json::lemma_said(o, 1, 0);
    json::lemma_said(o, 2, 0);
    json::lemma_said(o, 3, 0);
    json::lemma_said(o, 4, 0);
}

/// A subscription says its key, where it comes from, its channels and the packets
/// that it has received.
pub proof fn subscription_says_where_it_comes_from<H>(e: (String, RxControl<H>), packets: u64)
    ensures
        json::says(rx_view(rx_model(e, packets)), "id"@, txt(e.0@)),
        json::says(rx_view(rx_model(e, packets)), "running"@, JsonView::Bool(e.1.running)),
        json::says(
            rx_view(rx_model(e, packets)),
            "source"@,
            text_or_null(text::optional(e.1.source)),
        ),
        json::says(rx_view(rx_model(e, packets)), "channels"@, num(e.1.channels as int)),
        json::says(rx_view(rx_model(e, packets)), "packets_recv"@, num(packets as int)),
{
    reveal_strlit("id");
    reveal_strlit("running");
    reveal_strlit("source");
    reveal_strlit("channels");
    reveal_strlit("packets_recv");
    let o = rx_view(rx_model(e, packets));
    json::lemma_said(o, 0, 0);
    json::lemma_said(o, 1, 0);
    json::lemma_said(o, 2, 0);
    json::lemma_said(o, 3, 0);
    json::lemma_said(o, 4, 0);
}

/// A request for a group in dotted form, with 1 to 64 channels, is met with just
/// that group, port and number of channels, unless a stream with their key runs.
/// What it leaves open is port 5004 and two channels.
pub proof fn request_is_met_as_it_was_made(
    group: Seq<u8>,
    port: u16,
    channels: u8,
    kind: Seq<char>,
    runs: spec_fn(Seq<char>) -> bool,
)
    requires
        group.len() == 4,
    ensures
        ({
            let g = ipv4::dotted(group);
            let r = asked(g, Some(port), Some(channels), kind, runs);
            &&& (1 <= channels <= 64 && !runs(stream_key(group, port))) ==> r == Ok::<
                (Seq<u8>, u16, u8),
                Refusal,
            >((group, port, channels))
            &&& (1 <= channels <= 64 && runs(stream_key(group, port))) ==> (r matches Err(why)
                && why.status == 409)
            &&& !(1 <= channels <= 64) ==> (r matches Err(why) && why.status == 400)
            &&& asked(g, None, Some(channels), kind, runs) == asked(
                g,
                Some(5004u16),
                Some(channels),
                kind,
                runs,
            )
            &&& asked(g, Some(port), None, kind, runs) == asked(
                g,
                Some(port),
                Some(2u8),
                kind,
                runs,
            )
        }),
{
    ipv4::dotted_reads_back(group);
}

/// A request for what is no address in dotted form is refused with status 400,
/// whatever else it asks for.
pub proof fn request_without_an_address_is_refused(
    group: Seq<char>,
    port: Option<u16>,
    channels: Option<u8>,
    kind: Seq<char>,
    runs: spec_fn(Seq<char>) -> bool,
)
    requires
        forall|a: Seq<u8>| a.len() == 4 ==> group != #[trigger] ipv4::dotted(a),
    ensures
        asked(group, port, channels, kind, runs) matches Err(why) && why.status == 400,
{
    if ipv4::address(group) is Some {
        ipv4::address_has_one_form(group);
    }
}

/// The streams of the node have a dynamic payload type, and their source is the
/// bytes of `TAKT`.
pub proof fn streams_have_the_payload_type_and_source_of_the_node()
    ensures
        super::PAYLOAD_TYPE == 97,
        super::STREAM_SSRC == 0x54 * 0x100_0000 + 0x41 * 0x1_0000 + 0x4b * 0x100 + 0x54,
{
}

/// Without a group a sending stream goes to 239.69.83.67; otherwise it goes where
/// the request says.
pub proof fn stream_without_a_group_goes_to_the_usual_one(req: TxStartRequest)
    ensures
        req.group matches Some(g) ==> tx_group(req) == g@,
        req.group is None ==> ipv4::address(tx_group(req)) == Some(seq![239u8, 69u8, 83u8, 67u8]),
{
    if req.group is None {
        let g = seq![239u8, 69u8, 83u8, 67u8];
        reveal_strlit("239.69.83.67");
        reveal_strlit(".");
        reveal_with_fuel(text::decimal, 4);
        assert(text::decimal(239) =~= seq!['2', '3', '9']);
        assert(text::decimal(69) =~= seq!['6', '9']);
        assert(text::decimal(83) =~= seq!['8', '3']);
        assert(text::decimal(67) =~= seq!['6', '7']);
        assert(ipv4::dotted(g) =~= tx_group(req));
        ipv4::dotted_reads_back(g);
    }
}

/// Every stream that was found is listed, and one whose name is before that of
/// another stands before it.
pub proof fn found_streams_are_listed_by_their_names(
    s: Seq<(u16, DiscoveredEntry)>,
    r: Seq<usize>,
    list: Seq<DiscoveredDto>,
    k: int,
    l: int,
)
    requires
        order::is_order(session_names(s), r),
        shows_all(s, r, list),
        0 <= k < s.len(),
        0 <= l < s.len(),
        order::text_before(s[k].1.session_name@, s[l].1.session_name@),
    ensures
        list.len() == s.len(),
        exists|a: int, b: int|
            0 <= a < b < list.len() && (#[trigger] list[a]).shows(s[k].0, s[k].1@) && (
            #[trigger] list[b]).shows(s[l].0, s[l].1@),
{
    let keys = session_names(s);
    order::nothing_is_left_out(keys, r, k);
    order::nothing_is_left_out(keys, r, l);
    let a = choose|a: int| 0 <= a < r.len() && #[trigger] r[a] == k;
    let b = choose|b: int| 0 <= b < r.len() && #[trigger] r[b] == l;
    if b < a {
        order::smaller_text_stands_first(keys, r, b, a);
        order::text_order_is_one_way(s[k].1.session_name@, s[l].1.session_name@);
    }
    assert(a != b) by {
        if a == b {
            order::text_order_is_one_way(s[k].1.session_name@, s[l].1.session_name@);
        }
    }
    assert(list[a].shows(s[k].0, s[k].1@));
    assert(list[b].shows(s[l].0, s[l].1@));
}

/// Every sending stream is listed, with its own packets, and one whose key is
/// before that of another stands before it.
pub proof fn sending_streams_are_listed_by_their_keys<H>(
    s: Seq<(String, TxControl<H>)>,
    packets: Seq<u64>,
    r: Seq<usize>,
    list: Seq<TxStatusDto>,
    k: int,
    l: int,
)
    requires
        order::is_order(stream_keys(s), r),
        shows_tx(s, packets, r, list),
        0 <= k < s.len(),
        0 <= l < s.len(),
        order::text_before(s[k].0@, s[l].0@),
    ensures
        list.len() == s.len(),
        exists|a: int, b: int|
            0 <= a < b < list.len() && (#[trigger] list[a])@ == tx_model(s[k], packets[k]) && (
            #[trigger] list[b])@ == tx_model(s[l], packets[l]),
{
    let keys = stream_keys(s);
    order::nothing_is_left_out(keys, r, k);
    order::nothing_is_left_out(keys, r, l);
    let a = choose|a: int| 0 <= a < r.len() && #[trigger] r[a] == k;
    let b = choose|b: int| 0 <= b < r.len() && #[trigger] r[b] == l;
    if b < a {
        order::smaller_text_stands_first(keys, r, b, a);
        order::text_order_is_one_way(s[k].0@, s[l].0@);
    }
    assert(a != b) by {
        if a == b {
            order::text_order_is_one_way(s[k].0@, s[l].0@);
        }
    }
    assert(list[a]@ == tx_model(s[k], packets[k]));
    assert(list[b]@ == tx_model(s[l], packets[l]));
}

/// Every subscription is listed, with its own packets, and one whose key is
/// before that of another stands before it.
pub proof fn subscriptions_are_listed_by_their_keys<H>(
    s: Seq<(String, RxControl<H>)>,
    packets: Seq<u64>,
    r: Seq<usize>,
    list: Seq<RxStatusDto>,
    k: int,
    l: int,
)
    requires
        order::is_order(stream_keys(s), r),
        shows_rx(s, packets, r, list),
        0 <= k < s.len(),
        0 <= l < s.len(),
        order::text_before(s[k].0@, s[l].0@),
    ensures
        list.len() == s.len(),
        exists|a: int, b: int|
            0 <= a < b < list.len() && (#[trigger] list[a])@ == rx_model(s[k], packets[k]) && (
            #[trigger] list[b])@ == rx_model(s[l], packets[l]),
{
    let keys = stream_keys(s);
    order::nothing_is_left_out(keys, r, k);
    order::nothing_is_left_out(keys, r, l);
    let a = choose|a: int| 0 <= a < r.len() && #[trigger] r[a] == k;
    let b = choose|b: int| 0 <= b < r.len() && #[trigger] r[b] == l;
    if b < a {
        order::smaller_text_stands_first(keys, r, b, a);
        order::text_order_is_one_way(s[k].0@, s[l].0@);
    }
    assert(a != b) by {
        if a == b {
            order::text_order_is_one_way(s[k].0@, s[l].0@);
        }
    }
    assert(list[a]@ == rx_model(s[k], packets[k]));
    assert(list[b]@ == rx_model(s[l], packets[l]));
}

/// A planned stream is sent as it was planned: from the interface of the node to
/// the group and the port of the plan, with its channels; and whoever receives
/// what is announced of it receives just that.
pub proof fn planned_stream_is_sent(
    node: NodeInfo,
    plan: StreamPlan,
    refclk: Option<PtpRefClock>,
    p: TxParams,
)
    requires
        is_params_of(node, plan, refclk, p),
        text::laws::free_of(node.name@, '\n'),
        clock_view(refclk) matches Some(rc) ==> text::laws::free_of(rc.gmid, ':')
            && text::laws::free_of(rc.gmid, '\n'),
    ensures
        p.group@ == plan.group@,
        p.port == plan.port,
        p.iface == node.interface,
        p.payload_type == 97,
        crate::daemon::routing::sink_for(text::joined(p.session_model().sdp_lines())) == Ok::<
            (Seq<u8>, u16, StreamProfile),
            Seq<char>,
        >((plan.group@, plan.port, StreamProfile::spec_aes67(plan.channels))),
{
    crate::daemon::tasks::announced_stream_is_the_one_that_is_sent(p);
}

} // verus!
