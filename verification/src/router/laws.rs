//! What the NMOS resources of a node say, and how they go together.

use super::controller;
use super::nmos;
use super::nmos::{reply, Endpoint, ReplyModel};
use super::receiver::{connection_json, patch_model, PatchModel};
use super::resources::NmosNode;
use crate::json;
use crate::json::{num, txt, JsonView};
use crate::sdp;
use crate::text;
use vstd::prelude::*;

verus! {

/// The active connection of the sender agrees with its transport file: it sends to
/// the group and port of the session that is described there, from the host that is
/// named as its origin, and these are the group, port and host of the node.
pub proof fn active_sender_agrees_with_its_transport_file(node: NmosNode)
    ensures
        json::says(
            json::items(node.params_json())[0],
            "destination_ip"@,
            txt(node.session().multicast_addr),
        ),
        json::says(
            json::items(node.params_json())[0],
            "destination_port"@,
            num(node.session().port as int),
        ),
        json::says(
            json::items(node.params_json())[0],
            "source_ip"@,
            txt(node.session().origin_unicast),
        ),
        json::says(
            json::items(node.params_json())[0],
            "source_port"@,
            num(node.session().port as int),
        ),
        json::says(json::items(node.params_json())[0], "rtp_enabled"@, JsonView::Bool(true)),
        json::says(node.active_json(), "master_enable"@, JsonView::Bool(true)),
        json::says(node.active_json(), "transport_type"@, txt("urn:x-nmos:transport:rtp.mcast"@)),
        json::says(node.active_json(), "transport_params"@, node.params_json()),
        json::items(node.params_json()).len() == 1,
        node.session().multicast_addr == node.group@,
        node.session().port == node.port,
        node.session().origin_unicast == node.host@,
        node.session().session_name == node.label@,
        node.session().profile == node.profile,
        node.session().refclk == sdp::clock_view(node.refclk),
        node.session().mediaclk_offset == 0,
        node.session().payload_type == 97,
{
    reveal_strlit("destination_ip");
    reveal_strlit("destination_port");
    reveal_strlit("source_ip");
    reveal_strlit("source_port");
    reveal_strlit("rtp_enabled");
    reveal_strlit("master_enable");
    reveal_strlit("activation");
    reveal_strlit("transport_type");
    reveal_strlit("transport_params");
    let o = json::items(node.params_json())[0];
    json::lemma_said(o, 0, 0);
    json::lemma_said(o, 1, 0);
    json::lemma_said(o, 2, 0);
    json::lemma_said(o, 3, 0);
    json::lemma_said(o, 4, 0);
    let o = node.active_json();
    json::lemma_said(o, 0, 0);
    json::lemma_said(o, 1, 0);
    json::lemma_said(o, 2, 0);
    json::lemma_said(o, 3, 0);
}

/// The transport file describes the stream of the node: whoever reads it gets the
/// group, the port, the origin, the name and the profile of the node.
pub proof fn transport_file_describes_the_stream(node: NmosNode)
    requires
        sdp::laws::fits_lines(node.session()),
    ensures
        sdp::parsed(text::joined(node.session().sdp_lines())) matches Ok(s) && {
            &&& s.multicast_addr == node.group@
            &&& s.port == node.port
            &&& s.origin_unicast == node.host@
            &&& s.session_name == node.label@
            &&& s.profile == node.profile
            &&& s.refclk == sdp::clock_view(node.refclk)
        },
{
    sdp::laws::built_session_parses_back(node.session());
}

/// The node resource: under its id and label, reachable at the host and port of its
/// APIs, at the clock that the session refers to, on its interface.
pub proof fn node_resource_says_where_it_is(node: NmosNode)
    ensures
        json::says(node.node_json(), "id"@, txt(node.node_id@)),
        json::says(node.node_json(), "version"@, txt("0:0"@)),
        json::says(node.node_json(), "label"@, txt(node.label@)),
        json::says(node.node_json(), "tags"@, json::empty()),
        json::says(node.node_json(), "href"@, txt(node.base() + "/"@)),
        json::says(node.node_json(), "caps"@, json::empty()),
        json::says(node.node_json(), "services"@, json::none()),
        json::says(
            json::at(node.node_json(), "api"@),
            "versions"@,
            json::none().item(txt("v1.3"@)),
        ),
        json::says(
            json::items(json::at(json::at(node.node_json(), "api"@), "endpoints"@))[0],
            "host"@,
            txt(node.host@),
        ),
        json::says(
            json::items(json::at(json::at(node.node_json(), "api"@), "endpoints"@))[0],
            "port"@,
            num(node.api_port as int),
        ),
        json::says(
            json::items(json::at(json::at(node.node_json(), "api"@), "endpoints"@))[0],
            "protocol"@,
            txt("http"@),
        ),
        json::says(json::items(json::at(node.node_json(), "clocks"@))[0], "name"@, txt("clk0"@)),
        json::says(json::items(json::at(node.node_json(), "clocks"@))[0], "ref_type"@, txt("ptp"@)),
        json::says(
            json::items(json::at(node.node_json(), "clocks"@))[0],
            "traceable"@,
            JsonView::Bool(false),
        ),
        json::says(
            json::items(json::at(node.node_json(), "clocks"@))[0],
            "version"@,
            txt("IEEE1588-2008"@),
        ),
        json::says(
            json::items(json::at(node.node_json(), "clocks"@))[0],
            "gmid"@,
            txt(node.clock_id()),
        ),
        json::says(
            json::items(json::at(node.node_json(), "clocks"@))[0],
            "locked"@,
            JsonView::Bool(node.session().refclk is Some),
        ),
        json::says(
            json::items(json::at(node.node_json(), "interfaces"@))[0],
            "name"@,
            txt(node.interface@),
        ),
        json::says(
            json::items(json::at(node.node_json(), "interfaces"@))[0],
            "chassis_id"@,
            JsonView::Null,
        ),
        json::says(
            json::items(json::at(node.node_json(), "interfaces"@))[0],
            "port_id"@,
            JsonView::Null,
        ),
        json::items(json::at(node.node_json(), "clocks"@)).len() == 1,
        json::items(json::at(node.node_json(), "interfaces"@)).len() == 1,
        json::items(json::at(json::at(node.node_json(), "api"@), "endpoints"@)).len() == 1,
        node.base() == "http://"@ + node.host@ + ":"@ + text::decimal(node.api_port as nat),
        node.session().refclk matches Some(rc) ==> node.clock_id() == crate::utf8::lowercase_text(rc.gmid),
        node.session().refclk is None ==> node.clock_id() == "00-00-00-ff-fe-00-00-00"@,
{
    reveal_strlit("id");
    reveal_strlit("version");
    reveal_strlit("label");
    reveal_strlit("description");
    reveal_strlit("tags");
    reveal_strlit("href");
    reveal_strlit("caps");
    reveal_strlit("api");
    reveal_strlit("services");
    reveal_strlit("clocks");
    reveal_strlit("interfaces");
    reveal_strlit("versions");
    reveal_strlit("endpoints");
    reveal_strlit("host");
    reveal_strlit("port");
    reveal_strlit("protocol");
    reveal_strlit("name");
    reveal_strlit("ref_type");
    reveal_strlit("traceable");
    reveal_strlit("gmid");
    reveal_strlit("locked");
    reveal_strlit("chassis_id");
    reveal_strlit("port_id");
    let o = node.node_json();
    json::lemma_said(o, 0, 0);
    json::lemma_said(o, 1, 0);
    json::lemma_said(o, 2, 0);
    json::lemma_said(o, 3, 0);
    json::lemma_said(o, 4, 0);
    json::lemma_said(o, 5, 0);
    json::lemma_said(o, 6, 0);
    json::lemma_said(o, 7, 0);
    json::lemma_said(o, 8, 0);
    json::lemma_said(o, 9, 0);
    json::lemma_said(o, 10, 0);
    let o = json::at(node.node_json(), "api"@);
    json::lemma_said(o, 0, 0);
    json::lemma_said(o, 1, 0);
    let o = json::items(json::at(json::at(node.node_json(), "api"@), "endpoints"@))[0];
    json::lemma_said(o, 0, 0);
    json::lemma_said(o, 1, 0);
    json::lemma_said(o, 2, 0);
    let o = json::items(json::at(node.node_json(), "clocks"@))[0];
    json::lemma_said(o, 0, 0);
    json::lemma_said(o, 1, 0);
    json::lemma_said(o, 2, 0);
    json::lemma_said(o, 3, 0);
    json::lemma_said(o, 4, 0);
    json::lemma_said(o, 5, 0);
    let o = json::items(json::at(node.node_json(), "interfaces"@))[0];
    json::lemma_said(o, 0, 0);
    json::lemma_said(o, 1, 0);
    json::lemma_said(o, 2, 0);
}

/// The device resource: it belongs to the node, has the sender and the receiver of
/// the node and no others, and its control is the connection API of the node.
pub proof fn device_resource_lists_its_parts(node: NmosNode)
    ensures
        json::says(node.device_json(), "id"@, txt(node.device_id@)),
        json::says(node.device_json(), "version"@, txt("0:0"@)),
        json::says(node.device_json(), "label"@, txt(node.label@)),
        json::says(node.device_json(), "tags"@, json::empty()),
        json::says(node.device_json(), "type"@, txt("urn:x-nmos:device:audio"@)),
        json::says(node.device_json(), "node_id"@, txt(node.node_id@)),
        json::says(node.device_json(), "senders"@, json::none().item(txt(node.sender_id@))),
        json::says(node.device_json(), "receivers"@, json::none().item(txt(node.receiver_id@))),
        json::says(
            json::items(json::at(node.device_json(), "controls"@))[0],
            "href"@,
            txt(node.base() + "/x-nmos/connection/v1.1/"@),
        ),
        json::says(
            json::items(json::at(node.device_json(), "controls"@))[0],
            "type"@,
            txt("urn:x-nmos:control:sr-ctrl/v1.1"@),
        ),
{
    reveal_strlit("id");
    reveal_strlit("version");
    reveal_strlit("label");
    reveal_strlit("description");
    reveal_strlit("tags");
    reveal_strlit("type");
    reveal_strlit("node_id");
    reveal_strlit("senders");
    reveal_strlit("receivers");
    reveal_strlit("controls");
    reveal_strlit("href");
    let o = node.device_json();
    json::lemma_said(o, 0, 0);
    json::lemma_said(o, 1, 0);
    json::lemma_said(o, 2, 0);
    json::lemma_said(o, 3, 0);
    json::lemma_said(o, 4, 0);
    json::lemma_said(o, 5, 1);
    json::lemma_said(o, 6, 0);
    json::lemma_said(o, 7, 0);
    json::lemma_said(o, 8, 0);
    json::lemma_said(o, 9, 0);
    let o = json::items(json::at(node.device_json(), "controls"@))[0];
    json::lemma_said(o, 0, 0);
    json::lemma_said(o, 1, 0);
}

/// The source resource: it belongs to the device, runs by the clock of the node, and
/// has the channels of the profile, numbered from 1.
pub proof fn source_resource_lists_its_channels(node: NmosNode)
    ensures
        json::says(node.source_json(), "id"@, txt(node.source_id@)),
        json::says(node.source_json(), "version"@, txt("0:0"@)),
        json::says(node.source_json(), "label"@, txt(node.label@)),
        json::says(node.source_json(), "tags"@, json::empty()),
        json::says(node.source_json(), "caps"@, json::empty()),
        json::says(node.source_json(), "device_id"@, txt(node.device_id@)),
        json::says(node.source_json(), "parents"@, json::none()),
        json::says(node.source_json(), "clock_name"@, txt("clk0"@)),
        json::says(node.source_json(), "format"@, txt("urn:x-nmos:format:audio"@)),
        json::says(node.source_json(), "channels"@, JsonView::Array(node.channels_json())),
        node.channels_json().len() == node.profile.channels,
        forall|i: int|
            0 <= i < node.profile.channels ==> json::says(
                #[trigger] node.channels_json()[i],
                "label"@,
                txt("Channel "@ + text::decimal((i + 1) as nat)),
            ),
{
    reveal_strlit("id");
    reveal_strlit("version");
    reveal_strlit("label");
    reveal_strlit("description");
    reveal_strlit("tags");
    reveal_strlit("caps");
    reveal_strlit("device_id");
    reveal_strlit("parents");
    reveal_strlit("clock_name");
    reveal_strlit("format");
    reveal_strlit("channels");
    let o = node.source_json();
    json::lemma_said(o, 0, 0);
    json::lemma_said(o, 1, 0);
    json::lemma_said(o, 2, 0);
    json::lemma_said(o, 3, 0);
    json::lemma_said(o, 4, 0);
    json::lemma_said(o, 5, 0);
    json::lemma_said(o, 6, 0);
    json::lemma_said(o, 7, 0);
    json::lemma_said(o, 8, 0);
    json::lemma_said(o, 9, 0);
    json::lemma_said(o, 10, 0);
    assert forall|i: int| 0 <= i < node.profile.channels implies json::says(
        #[trigger] node.channels_json()[i],
        "label"@,
        txt("Channel "@ + text::decimal((i + 1) as nat)),
    ) by {
        json::lemma_said(node.channels_json()[i], 0, 0);
    }
}

/// The flow resource: it comes from the source, belongs to the device, and has the
/// sample rate of the session, with 24 bits.
pub proof fn flow_resource_says_how_it_sounds(node: NmosNode)
    ensures
        json::says(node.flow_json(), "id"@, txt(node.flow_id@)),
        json::says(node.flow_json(), "version"@, txt("0:0"@)),
        json::says(node.flow_json(), "label"@, txt(node.label@)),
        json::says(node.flow_json(), "tags"@, json::empty()),
        json::says(node.flow_json(), "source_id"@, txt(node.source_id@)),
        json::says(node.flow_json(), "device_id"@, txt(node.device_id@)),
        json::says(node.flow_json(), "parents"@, json::none()),
        json::says(node.flow_json(), "format"@, txt("urn:x-nmos:format:audio"@)),
        json::says(node.flow_json(), "media_type"@, txt("audio/L24"@)),
        json::says(node.flow_json(), "bit_depth"@, num(24)),
        json::says(
            json::at(node.flow_json(), "sample_rate"@),
            "numerator"@,
            num(node.session().profile.sample_rate as int),
        ),
        json::says(json::at(node.flow_json(), "sample_rate"@), "denominator"@, num(1)),
{
    reveal_strlit("id");
    reveal_strlit("version");
    reveal_strlit("label");
    reveal_strlit("description");
    reveal_strlit("tags");
    reveal_strlit("source_id");
    reveal_strlit("device_id");
    reveal_strlit("parents");
    reveal_strlit("format");
    reveal_strlit("media_type");
    reveal_strlit("sample_rate");
    reveal_strlit("bit_depth");
    reveal_strlit("numerator");
    reveal_strlit("denominator");
    let o = node.flow_json();
    json::lemma_said(o, 0, 0);
    json::lemma_said(o, 1, 0);
    json::lemma_said(o, 2, 0);
    json::lemma_said(o, 3, 0);
    json::lemma_said(o, 4, 0);
    json::lemma_said(o, 5, 0);
    json::lemma_said(o, 6, 0);
    json::lemma_said(o, 7, 0);
    json::lemma_said(o, 8, 0);
    json::lemma_said(o, 9, 0);
    json::lemma_said(o, 10, 0);
    json::lemma_said(o, 11, 0);
    let o = json::at(node.flow_json(), "sample_rate"@);
    json::lemma_said(o, 0, 0);
    json::lemma_said(o, 1, 0);
}

/// The sender resource: it carries the flow, belongs to the device, is active without
/// a receiver of its own, and names the address at which its transport file is
/// served.
pub proof fn sender_resource_leads_to_its_transport_file(node: NmosNode)
    ensures
        json::says(node.sender_json(), "id"@, txt(node.sender_id@)),
        json::says(node.sender_json(), "version"@, txt("0:0"@)),
        json::says(node.sender_json(), "label"@, txt(node.label@)),
        json::says(node.sender_json(), "tags"@, json::empty()),
        json::says(node.sender_json(), "flow_id"@, txt(node.flow_id@)),
        json::says(node.sender_json(), "transport"@, txt("urn:x-nmos:transport:rtp.mcast"@)),
        json::says(node.sender_json(), "device_id"@, txt(node.device_id@)),
        json::says(
            node.sender_json(),
            "manifest_href"@,
            txt(node.base() + path_with_id(nmos::transport_path(), 39, node.sender_id@) + "/"@),
        ),
        json::says(
            node.sender_json(),
            "interface_bindings"@,
            json::none().item(txt(node.interface@)),
        ),
        json::says(json::at(node.sender_json(), "subscription"@), "receiver_id"@, JsonView::Null),
        json::says(json::at(node.sender_json(), "subscription"@), "active"@, JsonView::Bool(true)),
{
    reveal_strlit("id");
    reveal_strlit("version");
    reveal_strlit("label");
    reveal_strlit("description");
    reveal_strlit("tags");
    reveal_strlit("flow_id");
    reveal_strlit("transport");
    reveal_strlit("device_id");
    reveal_strlit("manifest_href");
    reveal_strlit("interface_bindings");
    reveal_strlit("subscription");
    reveal_strlit("receiver_id");
    reveal_strlit("active");
    let o = node.sender_json();
    json::lemma_said(o, 0, 0);
    json::lemma_said(o, 1, 0);
    json::lemma_said(o, 2, 0);
    json::lemma_said(o, 3, 0);
    json::lemma_said(o, 4, 0);
    json::lemma_said(o, 5, 0);
    json::lemma_said(o, 6, 0);
    json::lemma_said(o, 7, 0);
    json::lemma_said(o, 8, 0);
    json::lemma_said(o, 9, 0);
    json::lemma_said(o, 10, 0);
    let o = json::at(node.sender_json(), "subscription"@);
    json::lemma_said(o, 0, 0);
    json::lemma_said(o, 1, 0);
    reveal_strlit("/x-nmos/connection/v1.1/single/senders/:id/transportfile");
    reveal_strlit("/x-nmos/connection/v1.1/single/senders/");
    reveal_strlit("/transportfile/");
    reveal_strlit("/");
    let p = nmos::transport_path();
    assert(p.take(39) =~= "/x-nmos/connection/v1.1/single/senders/"@);
    assert(p.skip(42) + "/"@ =~= "/transportfile/"@);
    assert(node.manifest() =~= node.base() + path_with_id(p, 39, node.sender_id@) + "/"@);
}

/// A path with an id at the place of `:id`, which starts at `at`.
pub open spec fn path_with_id(path: Seq<char>, at: int, id: Seq<char>) -> Seq<char> {
    path.take(at) + id + path.skip(at + 3)
}

/// The controller asks where the receiver is served: at the path of what is
/// staged for it, with its id.
pub proof fn controller_asks_at_the_staged_path(id: Seq<char>)
    ensures
        controller::staged(id) == path_with_id(nmos::staged_path(), 41, id),
        nmos::staged_path().subrange(41, 44) == ":id"@,
{
    reveal_strlit("/x-nmos/connection/v1.1/single/receivers/:id/staged");
    reveal_strlit("/x-nmos/connection/v1.1/single/receivers/");
    reveal_strlit("/staged");
    reveal_strlit(":id");
    let p = nmos::staged_path();
    assert(p.take(41) =~= "/x-nmos/connection/v1.1/single/receivers/"@);
    assert(p.skip(44) =~= "/staged"@);
    assert(p.subrange(41, 44) =~= ":id"@);
}

/// The receiver resource: it belongs to the device, is not bound to a sender, and
/// takes what the sender of the node sends.
pub proof fn receiver_resource_takes_what_is_sent(node: NmosNode)
    ensures
        json::says(node.receiver_json(), "id"@, txt(node.receiver_id@)),
        json::says(node.receiver_json(), "version"@, txt("0:0"@)),
        json::says(node.receiver_json(), "label"@, txt(node.label@)),
        json::says(node.receiver_json(), "tags"@, json::empty()),
        json::says(node.receiver_json(), "device_id"@, txt(node.device_id@)),
        json::says(node.receiver_json(), "transport"@, txt("urn:x-nmos:transport:rtp.mcast"@)),
        json::says(
            node.receiver_json(),
            "interface_bindings"@,
            json::none().item(txt(node.interface@)),
        ),
        json::says(node.receiver_json(), "format"@, txt("urn:x-nmos:format:audio"@)),
        json::says(json::at(node.receiver_json(), "subscription"@), "sender_id"@, JsonView::Null),
        json::says(
            json::at(node.receiver_json(), "subscription"@),
            "active"@,
            JsonView::Bool(false),
        ),
        json::says(
            json::at(node.receiver_json(), "caps"@),
            "media_types"@,
            json::none().item(txt("audio/L24"@)),
        ),
{
    reveal_strlit("id");
    reveal_strlit("version");
    reveal_strlit("label");
    reveal_strlit("description");
    reveal_strlit("tags");
    reveal_strlit("device_id");
    reveal_strlit("transport");
    reveal_strlit("interface_bindings");
    reveal_strlit("subscription");
    reveal_strlit("format");
    reveal_strlit("caps");
    reveal_strlit("sender_id");
    reveal_strlit("active");
    reveal_strlit("media_types");
    let o = node.receiver_json();
    json::lemma_said(o, 0, 0);
    json::lemma_said(o, 1, 0);
    json::lemma_said(o, 2, 0);
    json::lemma_said(o, 3, 0);
    json::lemma_said(o, 4, 0);
    json::lemma_said(o, 5, 0);
    json::lemma_said(o, 6, 0);
    json::lemma_said(o, 7, 0);
    json::lemma_said(o, 8, 0);
    json::lemma_said(o, 9, 0);
    json::lemma_said(o, 10, 0);
    let o = json::at(node.receiver_json(), "subscription"@);
    json::lemma_said(o, 0, 0);
    json::lemma_said(o, 1, 0);
    let o = json::at(node.receiver_json(), "caps"@);
    json::lemma_said(o, 0, 0);
}

/// The connection object of the receiver says whether it is connected, and to which
/// description; a type stands beside a description and only there.
pub proof fn connection_says_what_the_receiver_does(connected: bool, sdp: Option<Seq<char>>)
    ensures
        json::says(connection_json(connected, sdp), "master_enable"@, JsonView::Bool(connected)),
        json::says(connection_json(connected, sdp), "sender_id"@, JsonView::Null),
        json::says(
            connection_json(connected, sdp),
            "transport_type"@,
            txt("urn:x-nmos:transport:rtp.mcast"@),
        ),
        json::says(json::at(connection_json(connected, sdp), "transport_file"@), "data"@, (match sdp {
                Some(s) => txt(s),
                None => JsonView::Null,
            })),
        json::says(json::at(connection_json(connected, sdp), "transport_file"@), "type"@, (if sdp is Some {
                txt("application/sdp"@)
            } else {
                JsonView::Null
            })),
        json::says(
            json::items(json::at(connection_json(connected, sdp), "transport_params"@))[0],
            "rtp_enabled"@,
            JsonView::Bool(connected),
        ),
{
    reveal_strlit("master_enable");
    reveal_strlit("sender_id");
    reveal_strlit("activation");
    reveal_strlit("transport_type");
    reveal_strlit("transport_file");
    reveal_strlit("transport_params");
    reveal_strlit("data");
    reveal_strlit("type");
    reveal_strlit("rtp_enabled");
    let o = connection_json(connected, sdp);
    json::lemma_said(o, 0, 0);
    json::lemma_said(o, 1, 0);
    json::lemma_said(o, 2, 0);
    json::lemma_said(o, 3, 0);
    json::lemma_said(o, 4, 10);
    json::lemma_said(o, 5, 0);
    let o = json::at(connection_json(connected, sdp), "transport_file"@);
    json::lemma_said(o, 0, 0);
    json::lemma_said(o, 1, 0);
    let o = json::items(json::at(connection_json(connected, sdp), "transport_params"@))[0];
    json::lemma_said(o, 0, 0);
}

/// Both connection objects carry an activation that nobody asked for.
pub proof fn activation_was_not_asked_for(node: NmosNode, connected: bool, sdp: Option<Seq<char>>)
    ensures
        json::says(super::resources::no_activation(), "mode"@, JsonView::Null),
        json::says(super::resources::no_activation(), "requested_time"@, JsonView::Null),
        json::says(super::resources::no_activation(), "activation_time"@, JsonView::Null),
        json::says(node.active_json(), "activation"@, super::resources::no_activation()),
        json::says(
            connection_json(connected, sdp),
            "activation"@,
            super::resources::no_activation(),
        ),
{
    reveal_strlit("mode");
    reveal_strlit("requested_time");
    reveal_strlit("activation_time");
    reveal_strlit("master_enable");
    reveal_strlit("activation");
    reveal_strlit("sender_id");
    let o = super::resources::no_activation();
    json::lemma_said(o, 0, 0);
    json::lemma_said(o, 1, 0);
    json::lemma_said(o, 2, 0);
    let o = node.active_json();
    json::lemma_said(o, 0, 0);
    json::lemma_said(o, 1, 0);
    let o = connection_json(connected, sdp);
    json::lemma_said(o, 0, 0);
    json::lemma_said(o, 1, 0);
    json::lemma_said(o, 2, 0);
}

/// What the controller sends takes effect at once: to connect, with the description
/// of the sender as `application/sdp`; to part, without one.
pub proof fn controller_asks_for_it_at_once(sdp: Seq<char>)
    ensures
        json::says(controller::connect_json(sdp), "master_enable"@, JsonView::Bool(true)),
        json::says(
            json::at(controller::connect_json(sdp), "activation"@),
            "mode"@,
            txt("activate_immediate"@),
        ),
        json::says(json::at(controller::connect_json(sdp), "transport_file"@), "data"@, txt(sdp)),
        json::says(
            json::at(controller::connect_json(sdp), "transport_file"@),
            "type"@,
            txt("application/sdp"@),
        ),
        json::says(controller::disconnect_json(), "master_enable"@, JsonView::Bool(false)),
        json::says(
            json::at(controller::disconnect_json(), "activation"@),
            "mode"@,
            txt("activate_immediate"@),
        ),
        json::members(controller::disconnect_json()).len() == 2,
{
    reveal_strlit("master_enable");
    reveal_strlit("activation");
    reveal_strlit("transport_file");
    reveal_strlit("mode");
    reveal_strlit("data");
    reveal_strlit("type");
    let o = controller::connect_json(sdp);
    json::lemma_said(o, 0, 0);
    json::lemma_said(o, 1, 0);
    json::lemma_said(o, 2, 0);
    let o = json::at(controller::connect_json(sdp), "activation"@);
    json::lemma_said(o, 0, 0);
    let o = json::at(controller::connect_json(sdp), "transport_file"@);
    json::lemma_said(o, 0, 0);
    json::lemma_said(o, 1, 0);
    let o = controller::disconnect_json();
    json::lemma_said(o, 0, 0);
    json::lemma_said(o, 1, 0);
    let o = json::at(controller::disconnect_json(), "activation"@);
    json::lemma_said(o, 0, 0);
}

/// What a request for the own receiver comes to: `master_enable: false` parts it,
/// whatever else stands there; else a description that is not empty connects it
/// to just that description; and without one it is refused with 400.
pub proof fn own_receiver_does_what_is_asked(
    own: Seq<char>,
    enable: Option<bool>,
    sdp: Option<Seq<char>>,
)
    ensures
        enable == Some(false) ==> patch_model(own, own, enable, sdp) == PatchModel::Disconnect,
        enable != Some(false) && sdp is Some && (sdp->0).len() > 0 ==> patch_model(
            own,
            own,
            enable,
            sdp,
        ) == PatchModel::Connect(sdp->0),
        enable != Some(false) && (sdp is None || (sdp->0).len() == 0) ==> (patch_model(
            own,
            own,
            enable,
            sdp,
        ) matches PatchModel::Refuse(code, _) && code == 400),
{
}

/// Every kind of resource is listed with the one resource that the node has of
/// it, and found alone under the id that it says of itself. The lists of the
/// connection API name the same ids.
pub proof fn listed_resource_is_found_under_its_id(
    node: NmosNode,
    connected: bool,
    sdp: Option<Seq<char>>,
    id: Seq<char>,
)
    ensures
        forall|kind: int|
            0 <= kind < 5 ==> {
                let one = #[trigger] resource(node, kind);
                &&& reply(node, connected, sdp, listing(kind), id) == ReplyModel::Found(
                    JsonView::Array(seq![one]),
                )
                &&& json::says(one, "id"@, txt(own_id_of(node, kind)))
                &&& reply(node, connected, sdp, single(kind), own_id_of(node, kind))
                    == ReplyModel::Found(one)
                &&& id != own_id_of(node, kind) ==> reply(node, connected, sdp, single(kind), id)
                    == nmos::missing()
            },
        reply(node, connected, sdp, Endpoint::NodeSelf, id) == ReplyModel::Found(node.node_json()),
        reply(node, connected, sdp, Endpoint::SenderList, id) == ReplyModel::Found(
            JsonView::Array(seq![txt(node.sender_id@ + "/"@)]),
        ),
        reply(node, connected, sdp, Endpoint::ReceiverList, id) == ReplyModel::Found(
            JsonView::Array(seq![txt(node.receiver_id@ + "/"@)]),
        ),
        reply(node, connected, sdp, Endpoint::SenderActive, node.sender_id@) == ReplyModel::Found(
            node.active_json(),
        ),
        reply(node, connected, sdp, Endpoint::SenderStaged, node.sender_id@) == ReplyModel::Found(
            node.active_json(),
        ),
        reply(node, connected, sdp, Endpoint::ReceiverActive, node.receiver_id@)
            == ReplyModel::Found(connection_json(connected, sdp)),
        reply(node, connected, sdp, Endpoint::ReceiverStaged, node.receiver_id@)
            == ReplyModel::Found(connection_json(connected, sdp)),
{
    reveal_strlit("id");
    assert forall|kind: int| 0 <= kind < 5 implies {
        let one = #[trigger] resource(node, kind);
        &&& reply(node, connected, sdp, listing(kind), id) == ReplyModel::Found(
            JsonView::Array(seq![one]),
        )
        &&& json::says(one, "id"@, txt(own_id_of(node, kind)))
        &&& reply(node, connected, sdp, single(kind), own_id_of(node, kind)) == ReplyModel::Found(
            one,
        )
        &&& id != own_id_of(node, kind) ==> reply(node, connected, sdp, single(kind), id)
            == nmos::missing()
    } by {
        let one = resource(node, kind);
        json::lemma_said(one, 0, 0);
        assert(json::items(json::none().item(one)) =~= seq![one]);
    }
    let s = txt(node.sender_id@ + "/"@);
    let r = txt(node.receiver_id@ + "/"@);
    assert(json::items(json::none().item(s)) =~= seq![s]);
    assert(json::items(json::none().item(r)) =~= seq![r]);
}

/// The resource of a kind: device, source, flow, sender and receiver.
pub open spec fn resource(node: NmosNode, kind: int) -> JsonView {
    if kind == 0 {
        node.device_json()
    } else if kind == 1 {
        node.source_json()
    } else if kind == 2 {
        node.flow_json()
    } else if kind == 3 {
        node.sender_json()
    } else {
        node.receiver_json()
    }
}

/// The id of the resource of a kind.
pub open spec fn own_id_of(node: NmosNode, kind: int) -> Seq<char> {
    if kind == 0 {
        node.device_id@
    } else if kind == 1 {
        node.source_id@
    } else if kind == 2 {
        node.flow_id@
    } else if kind == 3 {
        node.sender_id@
    } else {
        node.receiver_id@
    }
}

/// Where the resources of a kind are listed.
pub open spec fn listing(kind: int) -> Endpoint {
    if kind == 0 {
        Endpoint::Devices
    } else if kind == 1 {
        Endpoint::Sources
    } else if kind == 2 {
        Endpoint::Flows
    } else if kind == 3 {
        Endpoint::Senders
    } else {
        Endpoint::Receivers
    }
}

/// Where the resource of a kind is found.
pub open spec fn single(kind: int) -> Endpoint {
    if kind == 0 {
        Endpoint::Device
    } else if kind == 1 {
        Endpoint::Source
    } else if kind == 2 {
        Endpoint::Flow
    } else if kind == 3 {
        Endpoint::Sender
    } else {
        Endpoint::Receiver
    }
}

/// A directory lists what is served below it, in its order: the APIs, their
/// versions, the kinds of resources, and the parts of a connection. There are no
/// constraints, one empty set of them for the one leg of a stream. What is not
/// found is answered with the code 404.
pub proof fn directories_list_what_is_below_them(
    node: NmosNode,
    connected: bool,
    sdp: Option<Seq<char>>,
    id: Seq<char>,
)
    ensures
        reply(node, connected, sdp, Endpoint::Roots, id) == ReplyModel::Found(
            JsonView::Array(
                seq![
                    txt("node/"@),
                    txt("connection/"@),
                ],
            ),
        ),
        reply(node, connected, sdp, Endpoint::NodeVersions, id) == ReplyModel::Found(
            JsonView::Array(
                seq![
                    txt("v1.3/"@),
                ],
            ),
        ),
        reply(node, connected, sdp, Endpoint::ConnectionVersions, id) == ReplyModel::Found(
            JsonView::Array(
                seq![
                    txt("v1.1/"@),
                ],
            ),
        ),
        reply(node, connected, sdp, Endpoint::NodeRoot, id) == ReplyModel::Found(
            JsonView::Array(
                seq![
                    txt("self/"@),
                    txt("sources/"@),
                    txt("flows/"@),
                    txt("devices/"@),
                    txt("senders/"@),
                    txt("receivers/"@),
                ],
            ),
        ),
        reply(node, connected, sdp, Endpoint::ConnectionRoot, id) == ReplyModel::Found(
            JsonView::Array(
                seq![
                    txt("bulk/"@),
                    txt("single/"@),
                ],
            ),
        ),
        reply(node, connected, sdp, Endpoint::SingleRoot, id) == ReplyModel::Found(
            JsonView::Array(
                seq![
                    txt("senders/"@),
                    txt("receivers/"@),
                ],
            ),
        ),
        reply(node, connected, sdp, Endpoint::SenderParts, node.sender_id@) == ReplyModel::Found(
            JsonView::Array(
                seq![
                    txt("constraints/"@),
                    txt("staged/"@),
                    txt("active/"@),
                    txt("transportfile/"@),
                ],
            ),
        ),
        reply(node, connected, sdp, Endpoint::ReceiverParts, node.receiver_id@) == ReplyModel::Found(
            JsonView::Array(
                seq![
                    txt("constraints/"@),
                    txt("staged/"@),
                    txt("active/"@),
                ],
            ),
        ),
        reply(node, connected, sdp, Endpoint::SenderConstraints, node.sender_id@) == ReplyModel::Found(
            JsonView::Array(seq![json::empty()]),
        ),
        reply(node, connected, sdp, Endpoint::ReceiverConstraints, node.receiver_id@) == ReplyModel::Found(
            JsonView::Array(seq![json::empty()]),
        ),
        nmos::missing() matches ReplyModel::NotFound(j) && json::says(j, "code"@, json::num(404))
            && json::says(j, "error"@, txt("Not found"@)),
{
    reveal_strlit("code");
    reveal_strlit("error");
    json::lemma_said(nmos::missing()->NotFound_0, 0, 0);
    json::lemma_said(nmos::missing()->NotFound_0, 1, 0);
    assert(json::items(reply(node, connected, sdp, Endpoint::Roots, id)->Found_0) =~= seq![
        txt("node/"@),
        txt("connection/"@),
    ]);
    assert(json::items(reply(node, connected, sdp, Endpoint::NodeVersions, id)->Found_0) =~= seq![
        txt("v1.3/"@),
    ]);
    assert(json::items(reply(node, connected, sdp, Endpoint::ConnectionVersions, id)->Found_0) =~= seq![
        txt("v1.1/"@),
    ]);
    assert(json::items(reply(node, connected, sdp, Endpoint::NodeRoot, id)->Found_0) =~= seq![
        txt("self/"@),
        txt("sources/"@),
        txt("flows/"@),
        txt("devices/"@),
        txt("senders/"@),
        txt("receivers/"@),
    ]);
    assert(json::items(reply(node, connected, sdp, Endpoint::ConnectionRoot, id)->Found_0) =~= seq![
        txt("bulk/"@),
        txt("single/"@),
    ]);
    assert(json::items(reply(node, connected, sdp, Endpoint::SingleRoot, id)->Found_0) =~= seq![
        txt("senders/"@),
        txt("receivers/"@),
    ]);
    assert(json::items(reply(node, connected, sdp, Endpoint::SenderParts, node.sender_id@)->Found_0) =~= seq![
        txt("constraints/"@),
        txt("staged/"@),
        txt("active/"@),
        txt("transportfile/"@),
    ]);
    assert(json::items(reply(node, connected, sdp, Endpoint::ReceiverParts, node.receiver_id@)->Found_0) =~= seq![
        txt("constraints/"@),
        txt("staged/"@),
        txt("active/"@),
    ]);
    assert(json::items(reply(node, connected, sdp, Endpoint::SenderConstraints, node.sender_id@)->Found_0) =~= seq![
        json::empty(),
    ]);
    assert(json::items(reply(node, connected, sdp, Endpoint::ReceiverConstraints, node.receiver_id@)->Found_0) =~= seq![
        json::empty(),
    ]);
}

} // verus!
