//! What the matrix lists, and what can be done with it.

use super::routing::{
    after_colon, all_senders, before_colon, found_sender, live_sender, own_receiver, own_sender,
    peer_receiver, receiver_list, receivers_of_all, routed_session, sink_for, sink_source,
};
use super::state::{AppState, DiscoveredEntry, NmosPeer, TxControl, NMOS_RX_ID};
use super::table;
use super::tasks::stream_key;
use crate::ipv4;
use crate::json;
use crate::json::{num, txt, JsonView};
use crate::profile::StreamProfile;
use crate::router::ids;
use crate::router::NmosNode;
use crate::text;
use vstd::prelude::*;

verus! {

/// A stream that was found is listed with its own name, group, port and channels,
/// and with the way in which it was found.
pub proof fn found_stream_is_listed_as_it_was_found(e: (u16, DiscoveredEntry))
    ensures
        json::says(found_sender(e), "id"@, txt("disc-"@ + e.1.session_name@)),
        json::says(found_sender(e), "name"@, txt(e.1.session_name@)),
        json::says(found_sender(e), "group"@, txt(e.1.multicast_addr@)),
        json::says(found_sender(e), "port"@, num(e.1.port as int)),
        json::says(found_sender(e), "channels"@, num(e.1.channels as int)),
        json::says(found_sender(e), "via"@, txt(e.1.via@)),
{
    reveal_strlit("id");
    reveal_strlit("name");
    reveal_strlit("group");
    reveal_strlit("port");
    reveal_strlit("channels");
    reveal_strlit("via");
    let o = found_sender(e);
    json::lemma_said(o, 0, 0);
    json::lemma_said(o, 1, 0);
    json::lemma_said(o, 2, 0);
    json::lemma_said(o, 3, 0);
    json::lemma_said(o, 4, 0);
    json::lemma_said(o, 5, 0);
}

/// What the matrix lists can be routed: a request with the group, the port and
/// the channels that are listed for a stream that was found makes a description
/// from which a sink takes just the address, the port and the profile of that
/// stream.
pub proof fn listed_stream_can_be_routed(
    e: (u16, DiscoveredEntry),
    host: Seq<char>,
    group: Seq<char>,
    port: u16,
    channels: u8,
)
    requires
        ipv4::address(e.1.multicast_addr@) is Some,
        text::laws::free_of(host, '\n'),
        json::says(found_sender(e), "group"@, txt(group)),
        json::says(found_sender(e), "port"@, num(port as int)),
        json::says(found_sender(e), "channels"@, num(channels as int)),
    ensures
        ({
            let a = ipv4::address(e.1.multicast_addr@)->0;
            sink_for(text::joined(routed_session(host, group, port, channels).sdp_lines())) == Ok::<
                (Seq<u8>, u16, StreamProfile),
                Seq<char>,
            >((a, e.1.port, StreamProfile::spec_aes67(e.1.channels)))
        }),
{
    found_stream_is_listed_as_it_was_found(e);
    ipv4::address_has_one_form(e.1.multicast_addr@);
    let a = ipv4::address(e.1.multicast_addr@)->0;
    super::routing::routed_stream_is_received(host, a, port, channels);
}

/// Parts in front of and behind a colon.
proof fn lemma_colon(front: Seq<char>, back: Seq<char>)
    requires
        text::laws::free_of(front, ':'),
        text::laws::free_of(back, ':'),
    ensures
        before_colon(front + ":"@ + back) == front,
        after_colon(front + ":"@ + back) == back,
    decreases back.len(),
{
    reveal_strlit(":");
    let s = front + ":"@ + back;
    assert(s =~= front + seq![':'] + back);
    text::laws::lemma_find_behind(front, ':', back);
    assert(s.take(front.len() as int) =~= front);
    if back.len() == 0 {
        assert(s.last() == ':');
        assert(back =~= Seq::empty());
    } else {
        let init = back.drop_last();
        assert(text::laws::free_of(init, ':')) by {
            assert forall|i: int| 0 <= i < init.len() implies #[trigger] init[i] != ':' by {
                assert(init[i] == back[i]);
            }
        }
        lemma_colon(front, init);
        assert(s.last() == back[back.len() - 1]);
        assert(s.drop_last() =~= front + ":"@ + init);
        assert(init.push(back.last()) =~= back);
    }
}

/// A stream that runs, under the key of its group and port and with that as its
/// destination, is listed with just that group and that port, and with its channels.
pub proof fn running_stream_is_listed_with_its_group_and_port<T>(
    name: Seq<char>,
    e: (String, TxControl<T>),
    group: Seq<u8>,
    port: u16,
)
    requires
        e.0@ == stream_key(group, port),
        text::optional(e.1.dest) == Some(stream_key(group, port)),
    ensures
        json::says(live_sender(name, e), "id"@, txt("self-"@ + stream_key(group, port))),
        json::says(live_sender(name, e), "name"@, txt(name + " · "@ + stream_key(group, port))),
        json::says(live_sender(name, e), "group"@, txt(ipv4::dotted(group))),
        json::says(live_sender(name, e), "port"@, txt(text::decimal(port as nat))),
        json::says(live_sender(name, e), "channels"@, num(e.1.channels as int)),
        json::says(live_sender(name, e), "via"@, txt("self-live"@)),
{
    reveal_strlit("id");
    reveal_strlit("name");
    reveal_strlit("group");
    reveal_strlit("port");
    reveal_strlit("channels");
    reveal_strlit("via");
    let o = live_sender(name, e);
    json::lemma_said(o, 0, 0);
    json::lemma_said(o, 1, 0);
    json::lemma_said(o, 2, 0);
    json::lemma_said(o, 3, 0);
    json::lemma_said(o, 4, 0);
    json::lemma_said(o, 5, 0);
    ipv4::lemma_dotted_plain(group);
    text::laws::lemma_decimal_plain(port as nat);
    lemma_colon(ipv4::dotted(group), text::decimal(port as nat));
}

/// The key of a stream names its group and its port, and no other stream has it.
pub proof fn key_names_one_stream(a: Seq<u8>, p: u16, b: Seq<u8>, q: u16)
    requires
        a.len() == 4,
        b.len() == 4,
        stream_key(a, p) == stream_key(b, q),
    ensures
        a == b,
        p == q,
        ipv4::address(before_colon(stream_key(a, p))) == Some(a),
        text::unsigned(after_colon(stream_key(a, p)), 0xffff) == Some(p as nat),
{
    ipv4::lemma_dotted_plain(a);
    ipv4::lemma_dotted_plain(b);
    text::laws::lemma_decimal_plain(p as nat);
    text::laws::lemma_decimal_plain(q as nat);
    lemma_colon(ipv4::dotted(a), text::decimal(p as nat));
    lemma_colon(ipv4::dotted(b), text::decimal(q as nat));
    ipv4::dotted_tells_apart(a, b);
    ipv4::dotted_reads_back(a);
    text::decimal_reads_back(p as nat, 0xffff);
    text::decimal_reads_back(q as nat, 0xffff);
}

/// The sender that the node offers is listed under the id that its sender has as a
/// resource, at the default group and port.
pub proof fn own_sender_is_the_one_that_is_served(name: Seq<char>, channels: u8, node: NmosNode)
    requires
        node.label@ == name,
        node.ids_follow(),
    ensures
        json::says(own_sender(name, channels), "id"@, txt(node.sender_id@)),
        json::says(own_sender(name, channels), "name"@, txt(name)),
        json::says(own_sender(name, channels), "group"@, txt("239.69.83.67"@)),
        json::says(own_sender(name, channels), "port"@, num(5004)),
        json::says(own_sender(name, channels), "channels"@, num(channels as int)),
        json::says(own_sender(name, channels), "via"@, txt("self"@)),
{
    reveal_strlit("id");
    reveal_strlit("name");
    reveal_strlit("group");
    reveal_strlit("port");
    reveal_strlit("channels");
    reveal_strlit("via");
    let o = own_sender(name, channels);
    json::lemma_said(o, 0, 0);
    json::lemma_said(o, 1, 0);
    json::lemma_said(o, 2, 0);
    json::lemma_said(o, 3, 0);
    json::lemma_said(o, 4, 0);
    json::lemma_said(o, 5, 0);
}

/// The receiver of the node is listed under the id that it has as a resource, at the
/// host and port at which it is reached, with its state.
pub proof fn own_receiver_is_the_one_that_is_served(
    name: Seq<char>,
    host: Seq<char>,
    port: u16,
    connected: bool,
    source: Option<Seq<char>>,
    node: NmosNode,
)
    requires
        node.label@ == name,
        node.ids_follow(),
    ensures
        json::says(
            own_receiver(name, host, port, connected, source),
            "id"@,
            txt(node.receiver_id@),
        ),
        json::says(
            own_receiver(name, host, port, connected, source),
            "name"@,
            txt(name + " (self)"@),
        ),
        json::says(own_receiver(name, host, port, connected, source), "nmos_host"@, txt(host)),
        json::says(
            own_receiver(name, host, port, connected, source),
            "nmos_port"@,
            num(port as int),
        ),
        json::says(
            own_receiver(name, host, port, connected, source),
            "connected"@,
            JsonView::Bool(connected),
        ),
        json::says(own_receiver(name, host, port, connected, source), "source"@, (match source {
                Some(s) => txt(s),
                None => JsonView::Null,
            })),
{
    reveal_strlit("id");
    reveal_strlit("name");
    reveal_strlit("nmos_host");
    reveal_strlit("nmos_port");
    reveal_strlit("connected");
    reveal_strlit("source");
    let o = own_receiver(name, host, port, connected, source);
    json::lemma_said(o, 0, 0);
    json::lemma_said(o, 1, 0);
    json::lemma_said(o, 2, 0);
    json::lemma_said(o, 3, 5);
    json::lemma_said(o, 4, 0);
    json::lemma_said(o, 5, 0);
}

/// A receiver of another node is listed under its own id and label, at the host and
/// port of that node.
pub proof fn peer_receiver_is_listed_where_it_is_reached(p: NmosPeer, r: (String, String))
    ensures
        json::says(peer_receiver(p, r), "id"@, txt(r.0@)),
        json::says(peer_receiver(p, r), "name"@, txt(r.1@)),
        json::says(peer_receiver(p, r), "nmos_host"@, txt(p.host@)),
        json::says(peer_receiver(p, r), "nmos_port"@, num(p.port as int)),
        json::says(peer_receiver(p, r), "connected"@, JsonView::Bool(false)),
        json::says(peer_receiver(p, r), "source"@, JsonView::Null),
        json::says(peer_receiver(p, r), "last_seen"@, num(p.last_seen as int)),
{
    reveal_strlit("id");
    reveal_strlit("name");
    reveal_strlit("nmos_host");
    reveal_strlit("nmos_port");
    reveal_strlit("connected");
    reveal_strlit("source");
    reveal_strlit("last_seen");
    let o = peer_receiver(p, r);
    json::lemma_said(o, 0, 0);
    json::lemma_said(o, 1, 0);
    json::lemma_said(o, 2, 0);
    json::lemma_said(o, 3, 5);
    json::lemma_said(o, 4, 0);
    json::lemma_said(o, 5, 0);
    json::lemma_said(o, 6, 0);
}

/// The ids of a node follow from its name: each is the id of the name with the
/// role behind it, and the name alone decides.
pub proof fn ids_follow_from_the_name(a: NmosNode, b: NmosNode)
    requires
        a.ids_follow(),
        b.ids_follow(),
        a.label@ == b.label@,
    ensures
        a.node_id@ == ids::uuid(a.label@ + ":node"@),
        a.node_id@ == b.node_id@,
        a.device_id@ == ids::uuid(a.label@ + ":device"@),
        a.device_id@ == b.device_id@,
        a.source_id@ == ids::uuid(a.label@ + ":source"@),
        a.source_id@ == b.source_id@,
        a.flow_id@ == ids::uuid(a.label@ + ":flow"@),
        a.flow_id@ == b.flow_id@,
        a.sender_id@ == ids::uuid(a.label@ + ":sender"@),
        a.sender_id@ == b.sender_id@,
        a.receiver_id@ == ids::uuid(a.label@ + ":receiver"@),
        a.receiver_id@ == b.receiver_id@,
{
}

/// The matrix lists everything that is known: the stream that is offered, every
/// stream that runs and every stream that was found, each once, and nothing else.
pub proof fn matrix_lists_every_sender<T, R>(state: AppState<T, R>)
    ensures
        ({
            let list = all_senders(state);
            let t = state.tx@.len();
            &&& list.len() == 1 + t + state.discovered@.len()
            &&& list[0] == own_sender(state.node.name@, state.node.profile.channels)
            &&& forall|i: int|
                0 <= i < t ==> #[trigger] list[1 + i] == live_sender(
                    state.node.name@,
                    state.tx@[i],
                )
            &&& forall|i: int|
                0 <= i < state.discovered@.len() ==> #[trigger] list[1 + t + i] == found_sender(
                    state.discovered@[i],
                )
        }),
{
}

/// The matrix lists every receiver of every node that was found, and the own one
/// first: connected exactly while the sink has a subscription, and then with its
/// source.
pub proof fn matrix_lists_every_receiver<T, R>(state: AppState<T, R>, p: int, r: int)
    requires
        0 <= p < state.nmos_peers@.len(),
        0 <= r < state.nmos_peers@[p].1.receivers@.len(),
    ensures
        receiver_list(state).contains(
            peer_receiver(state.nmos_peers@[p].1, state.nmos_peers@[p].1.receivers@[r]),
        ),
        receiver_list(state)[0] == own_receiver(
            state.node.name@,
            state.node.nmos_host@,
            state.node.nmos_port,
            table::holds(state.rx@, NMOS_RX_ID@),
            sink_source(state.rx@),
        ),
        !table::holds(state.rx@, NMOS_RX_ID@) ==> sink_source(state.rx@) is None,
{
    lemma_peer_listed(state.nmos_peers@, p, r);
    let e = peer_receiver(state.nmos_peers@[p].1, state.nmos_peers@[p].1.receivers@[r]);
    let rest = receivers_of_all(state.nmos_peers@);
    let k = choose|k: int| 0 <= k < rest.len() && rest[k] == e;
    assert(receiver_list(state)[1 + k] == e);
}

/// A receiver of a node is in the list of all.
proof fn lemma_peer_listed(s: Seq<(String, NmosPeer)>, p: int, r: int)
    requires
        0 <= p < s.len(),
        0 <= r < s[p].1.receivers@.len(),
    ensures
        receivers_of_all(s).contains(peer_receiver(s[p].1, s[p].1.receivers@[r])),
    decreases s.len(),
{
    let init = s.drop_last();
    let e = peer_receiver(s[p].1, s[p].1.receivers@[r]);
    let before = receivers_of_all(init);
    if p < init.len() {
        lemma_peer_listed(init, p, r);
        let k = choose|k: int| 0 <= k < before.len() && before[k] == e;
        assert(receivers_of_all(s)[k] == e);
    } else {
        assert(receivers_of_all(s)[before.len() + r] == e);
    }
}

/// What was set is what the sink receives: the group, the port and the profile
/// that the description of a session names, as long as its group is an address.
pub proof fn sink_receives_what_is_described(s: crate::sdp::SessionModel)
    requires
        crate::sdp::laws::fits_but_origin(s),
        ipv4::address(s.multicast_addr) is Some,
    ensures
        sink_for(text::joined(s.sdp_lines())) matches Ok((a, p, profile)) && s.multicast_addr
            == ipv4::dotted(a) && p == s.port && profile == s.profile,
{
    crate::sdp::laws::built_stream_parses_back(s);
    ipv4::address_has_one_form(s.multicast_addr);
}

} // verus!
