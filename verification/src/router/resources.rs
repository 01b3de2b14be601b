//! The NMOS resources (IS-04) of a node: node, device, source, flow, sender (the
//! stream that is sent) and receiver. Their ids follow from the name of the node.

use super::ids;
use crate::json;
use crate::json::{empty, none, num, txt, Json, JsonView};
use crate::profile::StreamProfile;
use crate::sdp::{clock_view, copy_clock, AudioSession, PtpRefClock, SessionModel};
use crate::text;
use crate::utf8;
use vstd::prelude::*;

verus! {

/// A node as a source of NMOS resources.
#[derive(Debug)]
pub struct NmosNode {
    pub node_id: String,
    pub device_id: String,
    pub source_id: String,
    pub flow_id: String,
    pub sender_id: String,
    pub receiver_id: String,
    pub label: String,
    /// Address at which the APIs can be reached.
    pub host: String,
    /// Port of the APIs.
    pub api_port: u16,
    /// Name of the interface.
    pub interface: String,
    pub profile: StreamProfile,
    pub group: String,
    pub port: u16,
    /// PTP clock reference: the own identity of a master, the grandmaster of a
    /// slave, if it is known.
    pub refclk: Option<PtpRefClock>,
}

/// The id of the resource of a node that has this role.
pub open spec fn resource_id(label: Seq<char>, role: Seq<char>) -> Seq<char> {
    ids::uuid(label + role)
}

impl NmosNode {
    /// All ids follow from the label.
    pub open spec fn ids_follow(&self) -> bool {
        &&& self.node_id@ == resource_id(self.label@, ":node"@)
        &&& self.device_id@ == resource_id(self.label@, ":device"@)
        &&& self.source_id@ == resource_id(self.label@, ":source"@)
        &&& self.flow_id@ == resource_id(self.label@, ":flow"@)
        &&& self.sender_id@ == resource_id(self.label@, ":sender"@)
        &&& self.receiver_id@ == resource_id(self.label@, ":receiver"@)
    }

    /// A node from its settings, without a clock reference.
    pub fn new(
        label: &str,
        host: &str,
        api_port: u16,
        interface: &str,
        profile: StreamProfile,
        group: &str,
        port: u16,
    ) -> (n: Self)
        ensures
            n.ids_follow(),
            n.label@ == label@,
            n.host@ == host@,
            n.api_port == api_port,
            n.interface@ == interface@,
            n.profile == profile,
            n.group@ == group@,
            n.port == port,
            n.refclk is None,
    {
        NmosNode {
            node_id: ids::uuid_from(text::cat(label, ":node").as_str()),
            device_id: ids::uuid_from(text::cat(label, ":device").as_str()),
            source_id: ids::uuid_from(text::cat(label, ":source").as_str()),
            flow_id: ids::uuid_from(text::cat(label, ":flow").as_str()),
            sender_id: ids::uuid_from(text::cat(label, ":sender").as_str()),
            receiver_id: ids::uuid_from(text::cat(label, ":receiver").as_str()),
            label: text::text(label),
            host: text::text(host),
            api_port,
            interface: text::text(interface),
            profile,
            group: text::text(group),
            port,
            refclk: None,
        }
    }

    /// Sets the clock reference.
    pub fn with_refclk(self, refclk: Option<PtpRefClock>) -> (n: Self)
        ensures
            n == (NmosNode { refclk, ..self }),
    {
        NmosNode { refclk, ..self }
    }

    /// Where the APIs can be reached.
    pub open spec fn base(&self) -> Seq<char> {
        "http://"@ + self.host@ + ":"@ + text::decimal(self.api_port as nat)
    }

    /// Where the APIs can be reached.
    pub fn base_href(&self) -> (s: String)
        ensures
            s@ == self.base(),
    {
        let mut s: String = text::cat("http://", self.host.as_str());
        text::push_text(&mut s, ":");
        text::push_decimal(&mut s, self.api_port as u64);
        s
    }

    /// The base address with a path behind it.
    fn href(&self, path: &str) -> (s: String)
        ensures
            s@ == self.base() + path@,
    {
        let mut s: String = self.base_href();
        text::push_text(&mut s, path);
        s
    }

    /// The session of the sender.
    pub open spec fn session(&self) -> SessionModel {
        SessionModel {
            session_name: self.label@,
            origin_unicast: self.host@,
            multicast_addr: self.group@,
            port: self.port,
            payload_type: 97,
            profile: self.profile,
            refclk: clock_view(self.refclk),
            mediaclk_offset: 0,
        }
    }

    /// The transport file of the sender: its description.
    pub fn transport_sdp(&self) -> (s: String)
        ensures
            s@ == text::joined(self.session().sdp_lines()),
    {
        let session = AudioSession {
            session_name: self.label.clone(),
            origin_unicast: self.host.clone(),
            multicast_addr: self.group.clone(),
            port: self.port,
            payload_type: 97,
            profile: self.profile,
            refclk: copy_clock(&self.refclk),
            mediaclk_offset: 0,
        };
        session.to_sdp()
    }

    /// The identity of the reference clock, in small letters; a placeholder where
    /// there is none.
    pub open spec fn clock_id(&self) -> Seq<char> {
        match self.refclk {
            Some(rc) => utf8::lowercase_text(rc.gmid@),
            None => "00-00-00-ff-fe-00-00-00"@,
        }
    }

    /// The node resource.
    pub open spec fn node_json(&self) -> JsonView {
        empty()
            .with("id"@, txt(self.node_id@))
            .with("version"@, txt("0:0"@))
            .with("label"@, txt(self.label@))
            .with("description"@, txt("Taktwerk AES67 Node"@))
            .with("tags"@, empty())
            .with("href"@, txt(self.base() + "/"@))
            .with("caps"@, empty())
            .with(
                "api"@,
                empty()
                    .with("versions"@, none().item(txt("v1.3"@)))
                    .with(
                        "endpoints"@,
                        none()
                            .item(
                                empty()
                                    .with("host"@, txt(self.host@))
                                    .with("port"@, num(self.api_port as int))
                                    .with("protocol"@, txt("http"@)),
                            ),
                    ),
            )
            .with("services"@, none())
            .with(
                "clocks"@,
                none()
                    .item(
                        empty()
                            .with("name"@, txt("clk0"@))
                            .with("ref_type"@, txt("ptp"@))
                            .with("traceable"@, JsonView::Bool(false))
                            .with("version"@, txt("IEEE1588-2008"@))
                            .with("gmid"@, txt(self.clock_id()))
                            .with("locked"@, JsonView::Bool(self.refclk is Some)),
                    ),
            )
            .with(
                "interfaces"@,
                none()
                    .item(
                        empty()
                            .with("name"@, txt(self.interface@))
                            .with("chassis_id"@, JsonView::Null)
                            .with("port_id"@, JsonView::Null),
                    ),
            )
    }

    /// The node resource.
    pub fn node_self(&self) -> (j: Json)
        ensures
            j@ == self.node_json(),
    {
        let endpoint: Json = json::object()
            .with_text("host", self.host.as_str())
            .with_number("port", self.api_port as u64)
            .with_text("protocol", "http");
        let api: Json = json::object()
            .with("versions", json::array().item(json::text_of("v1.3")))
            .with("endpoints", json::array().item(endpoint));
        let gmid: String = match &self.refclk {
            Some(rc) => utf8::lowercase(rc.gmid.as_str()),
            None => text::text("00-00-00-ff-fe-00-00-00"),
        };
        let clock: Json = json::object()
            .with_text("name", "clk0")
            .with_text("ref_type", "ptp")
            .with_bool("traceable", false)
            .with_text("version", "IEEE1588-2008")
            .with_text("gmid", gmid.as_str())
            .with_bool("locked", self.refclk.is_some());
        let interface: Json = json::object()
            .with_text("name", self.interface.as_str())
            .with("chassis_id", Json::Null)
            .with("port_id", Json::Null);
        json::object()
            .with_text("id", self.node_id.as_str())
            .with_text("version", "0:0")
            .with_text("label", self.label.as_str())
            .with_text("description", "Taktwerk AES67 Node")
            .with("tags", json::object())
            .with_text("href", self.href("/").as_str())
            .with("caps", json::object())
            .with("api", api)
            .with("services", json::array())
            .with("clocks", json::array().item(clock))
            .with("interfaces", json::array().item(interface))
    }

    /// The device resource.
    pub open spec fn device_json(&self) -> JsonView {
        empty()
            .with("id"@, txt(self.device_id@))
            .with("version"@, txt("0:0"@))
            .with("label"@, txt(self.label@))
            .with("description"@, txt("Taktwerk audio device"@))
            .with("tags"@, empty())
            .with("type"@, txt("urn:x-nmos:device:audio"@))
            .with("node_id"@, txt(self.node_id@))
            .with("senders"@, none().item(txt(self.sender_id@)))
            .with("receivers"@, none().item(txt(self.receiver_id@)))
            .with(
                "controls"@,
                none()
                    .item(
                        empty()
                            .with("href"@, txt(self.base() + "/x-nmos/connection/v1.1/"@))
                            .with("type"@, txt("urn:x-nmos:control:sr-ctrl/v1.1"@)),
                    ),
            )
    }

    /// The device resource.
    pub fn device(&self) -> (j: Json)
        ensures
            j@ == self.device_json(),
    {
        let control: Json = json::object()
            .with_text("href", self.href("/x-nmos/connection/v1.1/").as_str())
            .with_text("type", "urn:x-nmos:control:sr-ctrl/v1.1");
        json::object()
            .with_text("id", self.device_id.as_str())
            .with_text("version", "0:0")
            .with_text("label", self.label.as_str())
            .with_text("description", "Taktwerk audio device")
            .with("tags", json::object())
            .with_text("type", "urn:x-nmos:device:audio")
            .with_text("node_id", self.node_id.as_str())
            .with("senders", json::array().item(json::text_of(self.sender_id.as_str())))
            .with("receivers", json::array().item(json::text_of(self.receiver_id.as_str())))
            .with("controls", json::array().item(control))
    }

    /// The channels of the source: `Channel 1` and so on.
    pub open spec fn channels_json(&self) -> Seq<JsonView> {
        Seq::new(
            self.profile.channels as nat,
            |i: int|
                empty().with("label"@, txt("Channel "@ + text::decimal((i + 1) as nat))),
        )
    }

    /// The source resource.
    pub open spec fn source_json(&self) -> JsonView {
        empty()
            .with("id"@, txt(self.source_id@))
            .with("version"@, txt("0:0"@))
            .with("label"@, txt(self.label@))
            .with("description"@, txt("Taktwerk audio source"@))
            .with("tags"@, empty())
            .with("caps"@, empty())
            .with("device_id"@, txt(self.device_id@))
            .with("parents"@, none())
            .with("clock_name"@, txt("clk0"@))
            .with("format"@, txt("urn:x-nmos:format:audio"@))
            .with("channels"@, JsonView::Array(self.channels_json()))
    }

    /// The source resource.
    pub fn source(&self) -> (j: Json)
        ensures
            j@ == self.source_json(),
    {
        let mut channels: Json = json::array();
        let mut i: u64 = 0;
        assert(self.channels_json().take(0) =~= Seq::empty());
        while i < self.profile.channels as u64
            invariant
                i <= self.profile.channels,
                channels@ == JsonView::Array(self.channels_json().take(i as int)),
            decreases self.profile.channels - i,
        {
            let mut name: String = text::text("Channel ");
            text::push_decimal(&mut name, i + 1);
            let entry: Json = json::object().with_text("label", name.as_str());
            assert(self.channels_json().take(i + 1) =~= self.channels_json().take(i as int).push(
                entry@,
            ));
            channels = channels.item(entry);
            i = i + 1;
        }
        assert(self.channels_json().take(i as int) =~= self.channels_json());
        json::object()
            .with_text("id", self.source_id.as_str())
            .with_text("version", "0:0")
            .with_text("label", self.label.as_str())
            .with_text("description", "Taktwerk audio source")
            .with("tags", json::object())
            .with("caps", json::object())
            .with_text("device_id", self.device_id.as_str())
            .with("parents", json::array())
            .with_text("clock_name", "clk0")
            .with_text("format", "urn:x-nmos:format:audio")
            .with("channels", channels)
    }

    /// The flow resource.
    pub open spec fn flow_json(&self) -> JsonView {
        empty()
            .with("id"@, txt(self.flow_id@))
            .with("version"@, txt("0:0"@))
            .with("label"@, txt(self.label@))
            .with("description"@, txt("Taktwerk audio flow"@))
            .with("tags"@, empty())
            .with("source_id"@, txt(self.source_id@))
            .with("device_id"@, txt(self.device_id@))
            .with("parents"@, none())
            .with("format"@, txt("urn:x-nmos:format:audio"@))
            .with("media_type"@, txt("audio/L24"@))
            .with(
                "sample_rate"@,
                empty()
                    .with("numerator"@, num(self.profile.sample_rate as int))
                    .with("denominator"@, num(1)),
            )
            .with("bit_depth"@, num(24))
    }

    /// The flow resource.
    pub fn flow(&self) -> (j: Json)
        ensures
            j@ == self.flow_json(),
    {
        let rate: Json = json::object()
            .with_number("numerator", self.profile.sample_rate as u64)
            .with_number("denominator", 1);
        json::object()
            .with_text("id", self.flow_id.as_str())
            .with_text("version", "0:0")
            .with_text("label", self.label.as_str())
            .with_text("description", "Taktwerk audio flow")
            .with("tags", json::object())
            .with_text("source_id", self.source_id.as_str())
            .with_text("device_id", self.device_id.as_str())
            .with("parents", json::array())
            .with_text("format", "urn:x-nmos:format:audio")
            .with_text("media_type", "audio/L24")
            .with("sample_rate", rate)
            .with_number("bit_depth", 24)
    }

    /// Where the transport file of the sender stands.
    pub open spec fn manifest(&self) -> Seq<char> {
        self.base() + "/x-nmos/connection/v1.1/single/senders/"@ + self.sender_id@
            + "/transportfile/"@
    }

    /// The sender resource.
    pub open spec fn sender_json(&self) -> JsonView {
        empty()
            .with("id"@, txt(self.sender_id@))
            .with("version"@, txt("0:0"@))
            .with("label"@, txt(self.label@))
            .with("description"@, txt("Taktwerk AES67 sender"@))
            .with("tags"@, empty())
            .with("flow_id"@, txt(self.flow_id@))
            .with("transport"@, txt("urn:x-nmos:transport:rtp.mcast"@))
            .with("device_id"@, txt(self.device_id@))
            .with("manifest_href"@, txt(self.manifest()))
            .with("interface_bindings"@, none().item(txt(self.interface@)))
            .with(
                "subscription"@,
                empty()
                    .with("receiver_id"@, JsonView::Null)
                    .with("active"@, JsonView::Bool(true)),
            )
    }

    /// The sender resource.
    pub fn sender(&self) -> (j: Json)
        ensures
            j@ == self.sender_json(),
    {
        let mut manifest: String = self.href("/x-nmos/connection/v1.1/single/senders/");
        text::push_text(&mut manifest, self.sender_id.as_str());
        text::push_text(&mut manifest, "/transportfile/");
        let subscription: Json = json::object()
            .with("receiver_id", Json::Null)
            .with_bool("active", true);
        json::object()
            .with_text("id", self.sender_id.as_str())
            .with_text("version", "0:0")
            .with_text("label", self.label.as_str())
            .with_text("description", "Taktwerk AES67 sender")
            .with("tags", json::object())
            .with_text("flow_id", self.flow_id.as_str())
            .with_text("transport", "urn:x-nmos:transport:rtp.mcast")
            .with_text("device_id", self.device_id.as_str())
            .with_text("manifest_href", manifest.as_str())
            .with("interface_bindings", json::array().item(json::text_of(self.interface.as_str())))
            .with("subscription", subscription)
    }

    /// The receiver resource.
    pub open spec fn receiver_json(&self) -> JsonView {
        empty()
            .with("id"@, txt(self.receiver_id@))
            .with("version"@, txt("0:0"@))
            .with("label"@, txt(self.label@))
            .with("description"@, txt("Taktwerk AES67 receiver"@))
            .with("tags"@, empty())
            .with("device_id"@, txt(self.device_id@))
            .with("transport"@, txt("urn:x-nmos:transport:rtp.mcast"@))
            .with("interface_bindings"@, none().item(txt(self.interface@)))
            .with(
                "subscription"@,
                empty()
                    .with("sender_id"@, JsonView::Null)
                    .with("active"@, JsonView::Bool(false)),
            )
            .with("format"@, txt("urn:x-nmos:format:audio"@))
            .with("caps"@, empty().with("media_types"@, none().item(txt("audio/L24"@))))
    }

    /// The receiver resource.
    pub fn receiver(&self) -> (j: Json)
        ensures
            j@ == self.receiver_json(),
    {
        let subscription: Json = json::object()
            .with("sender_id", Json::Null)
            .with_bool("active", false);
        let caps: Json = json::object().with("media_types", json::array().item(json::text_of("audio/L24")));
        json::object()
            .with_text("id", self.receiver_id.as_str())
            .with_text("version", "0:0")
            .with_text("label", self.label.as_str())
            .with_text("description", "Taktwerk AES67 receiver")
            .with("tags", json::object())
            .with_text("device_id", self.device_id.as_str())
            .with_text("transport", "urn:x-nmos:transport:rtp.mcast")
            .with("interface_bindings", json::array().item(json::text_of(self.interface.as_str())))
            .with("subscription", subscription)
            .with_text("format", "urn:x-nmos:format:audio")
            .with("caps", caps)
    }

    /// The transport parameters of the sender (RTP multicast).
    pub open spec fn params_json(&self) -> JsonView {
        none()
            .item(
                empty()
                    .with("destination_ip"@, txt(self.group@))
                    .with("destination_port"@, num(self.port as int))
                    .with("source_ip"@, txt(self.host@))
                    .with("source_port"@, num(self.port as int))
                    .with("rtp_enabled"@, JsonView::Bool(true)),
            )
    }

    /// The transport parameters of the sender (RTP multicast).
    pub fn sender_transport_params(&self) -> (j: Json)
        ensures
            j@ == self.params_json(),
    {
        let leg: Json = json::object()
            .with_text("destination_ip", self.group.as_str())
            .with_number("destination_port", self.port as u64)
            .with_text("source_ip", self.host.as_str())
            .with_number("source_port", self.port as u64)
            .with_bool("rtp_enabled", true);
        json::array().item(leg)
    }

    /// The connection object of the sender.
    pub open spec fn active_json(&self) -> JsonView {
        empty()
            .with("master_enable"@, JsonView::Bool(true))
            .with("activation"@, no_activation())
            .with("transport_type"@, txt("urn:x-nmos:transport:rtp.mcast"@))
            .with("transport_params"@, self.params_json())
    }

    /// The connection object of the sender: it is always active.
    pub fn sender_active(&self) -> (j: Json)
        ensures
            j@ == self.active_json(),
    {
        json::object()
            .with_bool("master_enable", true)
            .with("activation", activation())
            .with_text("transport_type", "urn:x-nmos:transport:rtp.mcast")
            .with("transport_params", self.sender_transport_params())
    }
}

/// An activation that nobody asked for.
pub open spec fn no_activation() -> JsonView {
    empty()
        .with("mode"@, JsonView::Null)
        .with("requested_time"@, JsonView::Null)
        .with("activation_time"@, JsonView::Null)
}

/// An activation that nobody asked for.
pub fn activation() -> (j: Json)
    ensures
        j@ == no_activation(),
{
    json::object()
        .with("mode", Json::Null)
        .with("requested_time", Json::Null)
        .with("activation_time", Json::Null)
}

/// The resources refer to each other: the sender to the flow and the device, the
/// flow to the source, the device to node, sender and receiver.
pub proof fn resources_refer_to_each_other(node: NmosNode)
    ensures
        json::member(json::members(node.sender_json()), "flow_id"@) == Some(txt(node.flow_id@)),
        json::member(json::members(node.sender_json()), "device_id"@) == Some(txt(node.device_id@)),
        json::member(json::members(node.flow_json()), "source_id"@) == Some(txt(node.source_id@)),
        json::member(json::members(node.device_json()), "node_id"@) == Some(txt(node.node_id@)),
        json::member(json::members(node.device_json()), "senders"@) == Some(
            none().item(txt(node.sender_id@)),
        ),
        json::member(json::members(node.device_json()), "receivers"@) == Some(
            none().item(txt(node.receiver_id@)),
        ),
{
    reveal_strlit("id");
    reveal_strlit("version");
    reveal_strlit("label");
    reveal_strlit("description");
    reveal_strlit("tags");
    reveal_strlit("type");
    reveal_strlit("flow_id");
    reveal_strlit("transport");
    reveal_strlit("device_id");
    reveal_strlit("source_id");
    reveal_strlit("node_id");
    reveal_strlit("senders");
    reveal_strlit("receivers");
    json::lemma_member(json::members(node.sender_json()), 5);
    json::lemma_member(json::members(node.sender_json()), 7);
    json::lemma_member(json::members(node.flow_json()), 5);
    json::lemma_member(json::members(node.device_json()), 6);
    json::lemma_member(json::members(node.device_json()), 7);
    json::lemma_member(json::members(node.device_json()), 8);
}

} // verus!
