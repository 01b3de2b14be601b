//! The NMOS interfaces over HTTP: the node API (IS-04) with the resources, and
//! the connection API (IS-05) with the transport file and the parameters.
//!
//! [`app`] lists the paths and what each of them serves; [`answer`] gives the
//! reply.

use super::receiver;
use super::receiver::{connection_json, ReceiverControl};
use super::resources::NmosNode;
use crate::json;
use crate::json::{empty, none, num, txt, Json, JsonView};
use crate::text;
use vstd::prelude::*;

verus! {

// ---------------------------------------------------------------------------
// Paths
// ---------------------------------------------------------------------------
/// What a path serves.
#[derive(Debug, Clone, Copy, PartialEq, Eq, Structural)]
pub enum Endpoint {
    Roots,
    NodeVersions,
    ConnectionVersions,
    NodeRoot,
    NodeSelf,
    Devices,
    Device,
    Sources,
    Source,
    Flows,
    Flow,
    Senders,
    Sender,
    Receivers,
    Receiver,
    ConnectionRoot,
    SingleRoot,
    SenderList,
    SenderParts,
    SenderConstraints,
    SenderStaged,
    SenderActive,
    TransportFile,
    ReceiverList,
    ReceiverParts,
    ReceiverConstraints,
    ReceiverStaged,
    ReceiverActive,
}

/// A path, with `:id` in place of an id, and what it serves.
#[derive(Debug)]
pub struct Route {
    pub path: String,
    pub endpoint: Endpoint,
}

/// A list of paths and what they serve, as a value.
pub type Table = Seq<(Seq<char>, Endpoint)>;

/// The list behind a vector of routes.
pub open spec fn table(v: Seq<Route>) -> Table {
    v.map_values(|r: Route| (r.path@, r.endpoint))
}

/// A list of paths that grows.
pub struct Routes {
    pub list: Vec<Route>,
}

/// A list of paths that grows, as a value.
pub struct RoutesModel {
    pub list: Table,
}

impl RoutesModel {
    /// A path more.
    pub open spec fn one(self, path: Seq<char>, endpoint: Endpoint) -> RoutesModel {
        RoutesModel { list: self.list.push((path, endpoint)) }
    }

    /// A path more, and the same path with a slash at its end.
    pub open spec fn both(self, path: Seq<char>, endpoint: Endpoint) -> RoutesModel {
        self.one(path, endpoint).one(path + "/"@, endpoint)
    }
}

impl View for Routes {
    type V = RoutesModel;

    open spec fn view(&self) -> RoutesModel {
        RoutesModel { list: table(self.list@) }
    }
}

impl Routes {
    /// A path more.
    fn one(self, path: &str, endpoint: Endpoint) -> (r: Routes)
        ensures
            r@ == self@.one(path@, endpoint),
    {
        let mut list: Vec<Route> = self.list;
        list.push(Route { path: text::text(path), endpoint });
        let r = Routes { list };
        assert(r@.list =~= self@.list.push((path@, endpoint)));
        r
    }

    /// A path more, and the same path with a slash at its end.
    fn both(self, path: &str, endpoint: Endpoint) -> (r: Routes)
        ensures
            r@ == self@.both(path@, endpoint),
    {
        self.one(path, endpoint).one(text::cat(path, "/").as_str(), endpoint)
    }
}

/// All paths.
pub open spec fn routes() -> RoutesModel {
    RoutesModel { list: Seq::empty() }
        .both("/x-nmos"@, Endpoint::Roots)
        .both("/x-nmos/node"@, Endpoint::NodeVersions)
        .both("/x-nmos/connection"@, Endpoint::ConnectionVersions)
        .both("/x-nmos/node/v1.3"@, Endpoint::NodeRoot)
        .both("/x-nmos/node/v1.3/self"@, Endpoint::NodeSelf)
        .both("/x-nmos/node/v1.3/devices"@, Endpoint::Devices)
        .one("/x-nmos/node/v1.3/devices/:id"@, Endpoint::Device)
        .both("/x-nmos/node/v1.3/sources"@, Endpoint::Sources)
        .one("/x-nmos/node/v1.3/sources/:id"@, Endpoint::Source)
        .both("/x-nmos/node/v1.3/flows"@, Endpoint::Flows)
        .one("/x-nmos/node/v1.3/flows/:id"@, Endpoint::Flow)
        .both("/x-nmos/node/v1.3/senders"@, Endpoint::Senders)
        .one("/x-nmos/node/v1.3/senders/:id"@, Endpoint::Sender)
        .both("/x-nmos/node/v1.3/receivers"@, Endpoint::Receivers)
        .one("/x-nmos/node/v1.3/receivers/:id"@, Endpoint::Receiver)
        .both("/x-nmos/connection/v1.1"@, Endpoint::ConnectionRoot)
        .both("/x-nmos/connection/v1.1/single"@, Endpoint::SingleRoot)
        .both("/x-nmos/connection/v1.1/single/senders"@, Endpoint::SenderList)
        .both("/x-nmos/connection/v1.1/single/senders/:id"@, Endpoint::SenderParts)
        .both(
            "/x-nmos/connection/v1.1/single/senders/:id/constraints"@,
            Endpoint::SenderConstraints,
        )
        .both("/x-nmos/connection/v1.1/single/senders/:id/staged"@, Endpoint::SenderStaged)
        .both("/x-nmos/connection/v1.1/single/senders/:id/active"@, Endpoint::SenderActive)
        .both("/x-nmos/connection/v1.1/single/senders/:id/transportfile"@, Endpoint::TransportFile)
        .both("/x-nmos/connection/v1.1/single/receivers"@, Endpoint::ReceiverList)
        .both("/x-nmos/connection/v1.1/single/receivers/:id"@, Endpoint::ReceiverParts)
        .both(
            "/x-nmos/connection/v1.1/single/receivers/:id/constraints"@,
            Endpoint::ReceiverConstraints,
        )
        .both("/x-nmos/connection/v1.1/single/receivers/:id/staged"@, Endpoint::ReceiverStaged)
        .both("/x-nmos/connection/v1.1/single/receivers/:id/active"@, Endpoint::ReceiverActive)
}

/// All paths of the node API, of the connection API and of the roots above them.
pub fn app() -> (v: Vec<Route>)
    ensures
        table(v@) == routes().list,
{
    let start = Routes { list: Vec::new() };
    assert(start@.list =~= Seq::empty());
    let all: Routes = start
        .both("/x-nmos", Endpoint::Roots)
        .both("/x-nmos/node", Endpoint::NodeVersions)
        .both("/x-nmos/connection", Endpoint::ConnectionVersions)
        .both("/x-nmos/node/v1.3", Endpoint::NodeRoot)
        .both("/x-nmos/node/v1.3/self", Endpoint::NodeSelf)
        .both("/x-nmos/node/v1.3/devices", Endpoint::Devices)
        .one("/x-nmos/node/v1.3/devices/:id", Endpoint::Device)
        .both("/x-nmos/node/v1.3/sources", Endpoint::Sources)
        .one("/x-nmos/node/v1.3/sources/:id", Endpoint::Source)
        .both("/x-nmos/node/v1.3/flows", Endpoint::Flows)
        .one("/x-nmos/node/v1.3/flows/:id", Endpoint::Flow)
        .both("/x-nmos/node/v1.3/senders", Endpoint::Senders)
        .one("/x-nmos/node/v1.3/senders/:id", Endpoint::Sender)
        .both("/x-nmos/node/v1.3/receivers", Endpoint::Receivers)
        .one("/x-nmos/node/v1.3/receivers/:id", Endpoint::Receiver)
        .both("/x-nmos/connection/v1.1", Endpoint::ConnectionRoot)
        .both("/x-nmos/connection/v1.1/single", Endpoint::SingleRoot)
        .both("/x-nmos/connection/v1.1/single/senders", Endpoint::SenderList)
        .both("/x-nmos/connection/v1.1/single/senders/:id", Endpoint::SenderParts)
        .both("/x-nmos/connection/v1.1/single/senders/:id/constraints", Endpoint::SenderConstraints)
        .both("/x-nmos/connection/v1.1/single/senders/:id/staged", Endpoint::SenderStaged)
        .both("/x-nmos/connection/v1.1/single/senders/:id/active", Endpoint::SenderActive)
        .both("/x-nmos/connection/v1.1/single/senders/:id/transportfile", Endpoint::TransportFile)
        .both("/x-nmos/connection/v1.1/single/receivers", Endpoint::ReceiverList)
        .both("/x-nmos/connection/v1.1/single/receivers/:id", Endpoint::ReceiverParts)
        .both(
            "/x-nmos/connection/v1.1/single/receivers/:id/constraints",
            Endpoint::ReceiverConstraints,
        )
        .both("/x-nmos/connection/v1.1/single/receivers/:id/staged", Endpoint::ReceiverStaged)
        .both("/x-nmos/connection/v1.1/single/receivers/:id/active", Endpoint::ReceiverActive);
    all.list
}

/// Whether what a path serves can be changed, too: only what is staged for the
/// receiver.
pub fn accepts_patch(endpoint: Endpoint) -> (r: bool)
    ensures
        r == (endpoint == Endpoint::ReceiverStaged),
{
    matches!(endpoint, Endpoint::ReceiverStaged)
}

// ---------------------------------------------------------------------------
// Replies
// ---------------------------------------------------------------------------
/// A reply.
#[derive(Debug)]
pub enum Reply {
    /// Status 200 and a JSON value.
    Found(Json),
    /// Status 200 and a description, as `application/sdp`.
    Description(String),
    /// Status 404 and a JSON value that says so.
    NotFound(Json),
}

/// A reply, as a value.
pub enum ReplyModel {
    Found(JsonView),
    Description(Seq<char>),
    NotFound(JsonView),
}

impl View for Reply {
    type V = ReplyModel;

    open spec fn view(&self) -> ReplyModel {
        match *self {
            Reply::Found(j) => ReplyModel::Found(j@),
            Reply::Description(s) => ReplyModel::Description(s@),
            Reply::NotFound(j) => ReplyModel::NotFound(j@),
        }
    }
}

impl Reply {
    /// The status code.
    pub fn status(&self) -> (code: u16)
        ensures
            code == (if self@ is NotFound {
                404u16
            } else {
                200u16
            }),
    {
        match self {
            Reply::NotFound(_) => 404,
            _ => 200,
        }
    }
}

/// The reply where nothing has the id that was asked for.
pub open spec fn missing() -> ReplyModel {
    ReplyModel::NotFound(empty().with("code"@, num(404)).with("error"@, txt("Not found"@)))
}

/// The reply where nothing has the id that was asked for.
pub fn not_found() -> (r: Reply)
    ensures
        r@ == missing(),
{
    Reply::NotFound(json::object().with_number("code", 404).with_text("error", "Not found"))
}

/// The value, where the id is the expected one.
pub open spec fn if_known(id: Seq<char>, own: Seq<char>, body: JsonView) -> ReplyModel {
    if id == own {
        ReplyModel::Found(body)
    } else {
        missing()
    }
}

/// The value, where the id is the expected one.
pub fn one(id: &str, expected: &str, body: Json) -> (r: Reply)
    ensures
        r@ == if_known(id@, expected@, body@),
{
    if text::same_text(id, expected) {
        Reply::Found(body)
    } else {
        not_found()
    }
}

/// The reply for a path, for a node with a receiver in this state; `id` is what
/// stands in the path in place of `:id`.
pub open spec fn reply(
    node: NmosNode,
    connected: bool,
    sdp: Option<Seq<char>>,
    endpoint: Endpoint,
    id: Seq<char>,
) -> ReplyModel {
    match endpoint {
        Endpoint::Roots => ReplyModel::Found(
            none().item(txt("node/"@)).item(txt("connection/"@)),
        ),
        Endpoint::NodeVersions => ReplyModel::Found(none().item(txt("v1.3/"@))),
        Endpoint::ConnectionVersions => ReplyModel::Found(none().item(txt("v1.1/"@))),
        Endpoint::NodeRoot => ReplyModel::Found(
            none()
                .item(txt("self/"@))
                .item(txt("sources/"@))
                .item(txt("flows/"@))
                .item(txt("devices/"@))
                .item(txt("senders/"@))
                .item(txt("receivers/"@)),
        ),
        Endpoint::NodeSelf => ReplyModel::Found(node.node_json()),
        Endpoint::Devices => ReplyModel::Found(none().item(node.device_json())),
        Endpoint::Device => if_known(id, node.device_id@, node.device_json()),
        Endpoint::Sources => ReplyModel::Found(none().item(node.source_json())),
        Endpoint::Source => if_known(id, node.source_id@, node.source_json()),
        Endpoint::Flows => ReplyModel::Found(none().item(node.flow_json())),
        Endpoint::Flow => if_known(id, node.flow_id@, node.flow_json()),
        Endpoint::Senders => ReplyModel::Found(none().item(node.sender_json())),
        Endpoint::Sender => if_known(id, node.sender_id@, node.sender_json()),
        Endpoint::Receivers => ReplyModel::Found(none().item(node.receiver_json())),
        Endpoint::Receiver => if_known(id, node.receiver_id@, node.receiver_json()),
        Endpoint::ConnectionRoot => ReplyModel::Found(
            none().item(txt("bulk/"@)).item(txt("single/"@)),
        ),
        Endpoint::SingleRoot => ReplyModel::Found(
            none().item(txt("senders/"@)).item(txt("receivers/"@)),
        ),
        Endpoint::SenderList => ReplyModel::Found(none().item(txt(node.sender_id@ + "/"@))),
        Endpoint::SenderParts => if_known(
            id,
            node.sender_id@,
            none()
                .item(txt("constraints/"@))
                .item(txt("staged/"@))
                .item(txt("active/"@))
                .item(txt("transportfile/"@)),
        ),
        Endpoint::SenderConstraints => if_known(id, node.sender_id@, none().item(empty())),
        Endpoint::SenderStaged => if_known(id, node.sender_id@, node.active_json()),
        Endpoint::SenderActive => if_known(id, node.sender_id@, node.active_json()),
        Endpoint::TransportFile => if id == node.sender_id@ {
            ReplyModel::Description(text::joined(node.session().sdp_lines()))
        } else {
            missing()
        },
        Endpoint::ReceiverList => ReplyModel::Found(none().item(txt(node.receiver_id@ + "/"@))),
        Endpoint::ReceiverParts => if_known(
            id,
            node.receiver_id@,
            none().item(txt("constraints/"@)).item(txt("staged/"@)).item(txt("active/"@)),
        ),
        Endpoint::ReceiverConstraints => if_known(id, node.receiver_id@, none().item(empty())),
        Endpoint::ReceiverStaged => if_known(
            id,
            node.receiver_id@,
            connection_json(connected, sdp),
        ),
        Endpoint::ReceiverActive => if_known(
            id,
            node.receiver_id@,
            connection_json(connected, sdp),
        ),
    }
}

/// The reply for a path, for a receiver in this state.
pub fn answer_in(
    node: &NmosNode,
    connected: bool,
    sdp: &Option<String>,
    endpoint: Endpoint,
    id: &str,
) -> (r: Reply)
    ensures
        r@ == reply(*node, connected, text::optional(*sdp), endpoint, id@),
{
    match endpoint {
        Endpoint::Roots => Reply::Found(
            json::array().item(json::text_of("node/")).item(json::text_of("connection/")),
        ),
        Endpoint::NodeVersions => Reply::Found(json::array().item(json::text_of("v1.3/"))),
        Endpoint::ConnectionVersions => Reply::Found(json::array().item(json::text_of("v1.1/"))),
        Endpoint::NodeRoot => Reply::Found(
            json::array()
                .item(json::text_of("self/"))
                .item(json::text_of("sources/"))
                .item(json::text_of("flows/"))
                .item(json::text_of("devices/"))
                .item(json::text_of("senders/"))
                .item(json::text_of("receivers/")),
        ),
        Endpoint::NodeSelf => Reply::Found(node.node_self()),
        Endpoint::Devices => Reply::Found(json::array().item(node.device())),
        Endpoint::Device => one(id, node.device_id.as_str(), node.device()),
        Endpoint::Sources => Reply::Found(json::array().item(node.source())),
        Endpoint::Source => one(id, node.source_id.as_str(), node.source()),
        Endpoint::Flows => Reply::Found(json::array().item(node.flow())),
        Endpoint::Flow => one(id, node.flow_id.as_str(), node.flow()),
        Endpoint::Senders => Reply::Found(json::array().item(node.sender())),
        Endpoint::Sender => one(id, node.sender_id.as_str(), node.sender()),
        Endpoint::Receivers => Reply::Found(json::array().item(node.receiver())),
        Endpoint::Receiver => one(id, node.receiver_id.as_str(), node.receiver()),
        Endpoint::ConnectionRoot => Reply::Found(
            json::array().item(json::text_of("bulk/")).item(json::text_of("single/")),
        ),
        Endpoint::SingleRoot => Reply::Found(
            json::array().item(json::text_of("senders/")).item(json::text_of("receivers/")),
        ),
        Endpoint::SenderList => Reply::Found(
            json::array().item(json::text_of(text::cat(node.sender_id.as_str(), "/").as_str())),
        ),
        Endpoint::SenderParts => one(
            id,
            node.sender_id.as_str(),
            json::array()
                .item(json::text_of("constraints/"))
                .item(json::text_of("staged/"))
                .item(json::text_of("active/"))
                .item(json::text_of("transportfile/")),
        ),
        Endpoint::SenderConstraints => one(
            id,
            node.sender_id.as_str(),
            json::array().item(json::object()),
        ),
        Endpoint::SenderStaged => one(id, node.sender_id.as_str(), node.sender_active()),
        Endpoint::SenderActive => one(id, node.sender_id.as_str(), node.sender_active()),
        Endpoint::TransportFile => if text::same_text(id, node.sender_id.as_str()) {
            Reply::Description(node.transport_sdp())
        } else {
            not_found()
        },
        Endpoint::ReceiverList => Reply::Found(
            json::array().item(json::text_of(text::cat(node.receiver_id.as_str(), "/").as_str())),
        ),
        Endpoint::ReceiverParts => one(
            id,
            node.receiver_id.as_str(),
            json::array()
                .item(json::text_of("constraints/"))
                .item(json::text_of("staged/"))
                .item(json::text_of("active/")),
        ),
        Endpoint::ReceiverConstraints => one(
            id,
            node.receiver_id.as_str(),
            json::array().item(json::object()),
        ),
        Endpoint::ReceiverStaged => one(
            id,
            node.receiver_id.as_str(),
            receiver::connection(connected, sdp),
        ),
        Endpoint::ReceiverActive => one(
            id,
            node.receiver_id.as_str(),
            receiver::connection(connected, sdp),
        ),
    }
}

/// Whether a reply is the one for a path in a state of the receiver that the
/// control may name.
pub open spec fn named_reply<C: ReceiverControl + ?Sized>(
    node: NmosNode,
    control: &C,
    endpoint: Endpoint,
    id: Seq<char>,
    r: ReplyModel,
) -> bool {
    exists|connected: bool, sdp: Option<Seq<char>>|
        #![trigger reply(node, connected, sdp, endpoint, id)]
        control.says_connected(connected) && control.says_sdp(sdp) && r == reply(
            node,
            connected,
            sdp,
            endpoint,
            id,
        )
}

/// The reply for a path. Only what is staged for the receiver, or active in it,
/// depends on what the control says of its state.
pub fn answer<C: ReceiverControl + ?Sized>(
    node: &NmosNode,
    control: &C,
    endpoint: Endpoint,
    id: &str,
) -> (r: Reply)
    ensures
        named_reply(*node, control, endpoint, id@, r@),
        endpoint != Endpoint::ReceiverStaged && endpoint != Endpoint::ReceiverActive ==> r@
            == reply(*node, false, None, endpoint, id@),
{
    let connected: bool = control.connected();
    let sdp: Option<String> = control.active_sdp();
    answer_in(node, connected, &sdp, endpoint, id)
}

/// Whether a path asks for something by its id.
pub open spec fn takes_id(endpoint: Endpoint) -> bool {
    match endpoint {
        Endpoint::Device | Endpoint::Source | Endpoint::Flow | Endpoint::Sender
        | Endpoint::Receiver | Endpoint::SenderParts | Endpoint::SenderConstraints
        | Endpoint::SenderStaged | Endpoint::SenderActive | Endpoint::TransportFile
        | Endpoint::ReceiverParts | Endpoint::ReceiverConstraints | Endpoint::ReceiverStaged
        | Endpoint::ReceiverActive => true,
        _ => false,
    }
}

/// The id of what a path serves.
pub open spec fn own_id(node: NmosNode, endpoint: Endpoint) -> Seq<char> {
    match endpoint {
        Endpoint::Device => node.device_id@,
        Endpoint::Source => node.source_id@,
        Endpoint::Flow => node.flow_id@,
        Endpoint::Sender | Endpoint::SenderParts | Endpoint::SenderConstraints
        | Endpoint::SenderStaged | Endpoint::SenderActive | Endpoint::TransportFile => {
            node.sender_id@
        },
        _ => node.receiver_id@,
    }
}

/// A path that asks for something by its id finds it under its own id and under
/// no other; a path that does not finds something whatever the id is.
pub proof fn found_under_its_id_only(
    node: NmosNode,
    connected: bool,
    sdp: Option<Seq<char>>,
    endpoint: Endpoint,
    id: Seq<char>,
)
    ensures
        reply(node, connected, sdp, endpoint, id) is NotFound <==> takes_id(endpoint) && id
            != own_id(node, endpoint),
        reply(node, connected, sdp, endpoint, id) is NotFound ==> reply(
            node,
            connected,
            sdp,
            endpoint,
            id,
        ) == missing(),
{
}

// ---------------------------------------------------------------------------
// Where the paths lead
// ---------------------------------------------------------------------------
/// The path of the transport file of a sender.
pub open spec fn transport_path() -> Seq<char> {
    "/x-nmos/connection/v1.1/single/senders/:id/transportfile"@
}

/// The path of what is staged for a receiver.
pub open spec fn staged_path() -> Seq<char> {
    "/x-nmos/connection/v1.1/single/receivers/:id/staged"@
}

/// Whether `p` is `path`, with or without a slash at its end.
pub open spec fn at_path(p: Seq<char>, path: Seq<char>) -> bool {
    p == path || p == path + "/"@
}

/// Whether an id stands in a path.
pub open spec fn names_id(p: Seq<char>) -> bool {
    p.contains(':')
}

/// Whether a path serves what its name says, as far as ids, the transport file
/// and what is staged for the receiver go.
spec fn rightly(p: Seq<char>, e: Endpoint) -> bool {
    &&& takes_id(e) <==> names_id(p)
    &&& e == Endpoint::TransportFile <==> at_path(p, transport_path())
    &&& e == Endpoint::ReceiverStaged <==> at_path(p, staged_path())
}

impl RoutesModel {
    /// All paths so far serve what their names say.
    spec fn in_place(self) -> bool {
        forall|i: int|
            0 <= i < self.list.len() ==> rightly((#[trigger] self.list[i]).0, self.list[i].1)
    }

    /// Nothing of the shorter list is lost.
    spec fn holds(self, short: RoutesModel) -> bool {
        &&& short.list.len() <= self.list.len()
        &&& forall|i: int| 0 <= i < short.list.len() ==> self.list[i] == #[trigger] short.list[i]
    }
}

/// The lengths of the two paths, and where they name the sender or receiver.
proof fn lemma_two_paths()
    ensures
        transport_path().len() == 56,
        transport_path()[31] == 's',
        staged_path().len() == 51,
        staged_path()[45] == 's',
        names_id(transport_path()),
        names_id(staged_path()),
        "/"@.len() == 1,
        "/"@[0] == '/',
{
    reveal_strlit("/x-nmos/connection/v1.1/single/senders/:id/transportfile");
    reveal_strlit("/x-nmos/connection/v1.1/single/receivers/:id/staged");
    reveal_strlit("/");
    assert(transport_path()[39] == ':');
    assert(staged_path()[41] == ':');
}

/// A slash at the end of a path is no id.
proof fn lemma_slash(p: Seq<char>)
    ensures
        names_id(p + "/"@) == names_id(p),
{
    lemma_two_paths();
    let q = p + "/"@;
    if names_id(p) {
        let i = choose|i: int| 0 <= i < p.len() && p[i] == ':';
        assert(q[i] == ':');
    }
    if names_id(q) {
        let i = choose|i: int| 0 <= i < q.len() && q[i] == ':';
        assert(p[i] == ':');
    }
}

/// A path more that is neither of the two, by its length.
proof fn lemma_plain_path(m: RoutesModel, p: Seq<char>, e: Endpoint)
    requires
        m.in_place(),
        p.len() < 50 || p.len() == 54,
        e != Endpoint::TransportFile,
        e != Endpoint::ReceiverStaged,
        takes_id(e) == names_id(p),
    ensures
        m.one(p, e).in_place(),
        m.one(p, e).holds(m),
        m.both(p, e).in_place(),
        m.both(p, e).holds(m),
{
    lemma_two_paths();
    lemma_slash(p);
}

/// A path more that is neither of the two, by what it names.
proof fn lemma_receiver_path(m: RoutesModel, p: Seq<char>, e: Endpoint)
    requires
        m.in_place(),
        p.len() == 56 && p[31] == 'r' || p.len() == 51 && p[45] == 'a',
        e != Endpoint::TransportFile,
        e != Endpoint::ReceiverStaged,
        takes_id(e),
        names_id(p),
    ensures
        m.both(p, e).in_place(),
        m.both(p, e).holds(m),
{
    lemma_two_paths();
    lemma_slash(p);
    let q = p + "/"@;
    let t = transport_path() + "/"@;
    let s = staged_path() + "/"@;
    assert(t[31] == 's');
    assert(s[45] == 's');
    assert(p.len() == 56 ==> q[31] == 'r');
    assert(p.len() == 51 ==> q[45] == 'a');
}

/// The path of the transport file.
proof fn lemma_transport_path(m: RoutesModel)
    requires
        m.in_place(),
    ensures
        m.both(transport_path(), Endpoint::TransportFile).in_place(),
        m.both(transport_path(), Endpoint::TransportFile).holds(m),
{
    lemma_two_paths();
    lemma_slash(transport_path());
}

/// The path of what is staged.
proof fn lemma_staged_path(m: RoutesModel)
    requires
        m.in_place(),
    ensures
        m.both(staged_path(), Endpoint::ReceiverStaged).in_place(),
        m.both(staged_path(), Endpoint::ReceiverStaged).holds(m),
{
    lemma_two_paths();
    lemma_slash(staged_path());
}

/// All paths serve what their names say.
proof fn lemma_routes()
    ensures
        routes().in_place(),
        routes().list.contains((transport_path(), Endpoint::TransportFile)),
        routes().list.contains((transport_path() + "/"@, Endpoint::TransportFile)),
        routes().list.contains((staged_path(), Endpoint::ReceiverStaged)),
        routes().list.contains((staged_path() + "/"@, Endpoint::ReceiverStaged)),
{
    let m0 = RoutesModel { list: Seq::empty() };
    let m1 = m0.both("/x-nmos"@, Endpoint::Roots);
    assert(m1.in_place() && m1.holds(m0)) by {
        reveal_strlit("/x-nmos");
        lemma_plain_path(m0, "/x-nmos"@, Endpoint::Roots);
    }
    let m2 = m1.both("/x-nmos/node"@, Endpoint::NodeVersions);
    assert(m2.in_place() && m2.holds(m1)) by {
        reveal_strlit("/x-nmos/node");
        lemma_plain_path(m1, "/x-nmos/node"@, Endpoint::NodeVersions);
    }
    let m3 = m2.both("/x-nmos/connection"@, Endpoint::ConnectionVersions);
    assert(m3.in_place() && m3.holds(m2)) by {
        reveal_strlit("/x-nmos/connection");
        lemma_plain_path(m2, "/x-nmos/connection"@, Endpoint::ConnectionVersions);
    }
    let m4 = m3.both("/x-nmos/node/v1.3"@, Endpoint::NodeRoot);
    assert(m4.in_place() && m4.holds(m3)) by {
        reveal_strlit("/x-nmos/node/v1.3");
        lemma_plain_path(m3, "/x-nmos/node/v1.3"@, Endpoint::NodeRoot);
    }
    let m5 = m4.both("/x-nmos/node/v1.3/self"@, Endpoint::NodeSelf);
    assert(m5.in_place() && m5.holds(m4)) by {
        reveal_strlit("/x-nmos/node/v1.3/self");
        lemma_plain_path(m4, "/x-nmos/node/v1.3/self"@, Endpoint::NodeSelf);
    }
    let m6 = m5.both("/x-nmos/node/v1.3/devices"@, Endpoint::Devices);
    assert(m6.in_place() && m6.holds(m5)) by {
        reveal_strlit("/x-nmos/node/v1.3/devices");
        lemma_plain_path(m5, "/x-nmos/node/v1.3/devices"@, Endpoint::Devices);
    }
    let m7 = m6.one("/x-nmos/node/v1.3/devices/:id"@, Endpoint::Device);
    assert(m7.in_place() && m7.holds(m6)) by {
        reveal_strlit("/x-nmos/node/v1.3/devices/:id");
        assert("/x-nmos/node/v1.3/devices/:id"@[26] == ':');
        lemma_plain_path(m6, "/x-nmos/node/v1.3/devices/:id"@, Endpoint::Device);
    }
    let m8 = m7.both("/x-nmos/node/v1.3/sources"@, Endpoint::Sources);
    assert(m8.in_place() && m8.holds(m7)) by {
        reveal_strlit("/x-nmos/node/v1.3/sources");
        lemma_plain_path(m7, "/x-nmos/node/v1.3/sources"@, Endpoint::Sources);
    }
    let m9 = m8.one("/x-nmos/node/v1.3/sources/:id"@, Endpoint::Source);
    assert(m9.in_place() && m9.holds(m8)) by {
        reveal_strlit("/x-nmos/node/v1.3/sources/:id");
        assert("/x-nmos/node/v1.3/sources/:id"@[26] == ':');
        lemma_plain_path(m8, "/x-nmos/node/v1.3/sources/:id"@, Endpoint::Source);
    }
    let m10 = m9.both("/x-nmos/node/v1.3/flows"@, Endpoint::Flows);
    assert(m10.in_place() && m10.holds(m9)) by {
        reveal_strlit("/x-nmos/node/v1.3/flows");
        lemma_plain_path(m9, "/x-nmos/node/v1.3/flows"@, Endpoint::Flows);
    }
    let m11 = m10.one("/x-nmos/node/v1.3/flows/:id"@, Endpoint::Flow);
    assert(m11.in_place() && m11.holds(m10)) by {
        reveal_strlit("/x-nmos/node/v1.3/flows/:id");
        assert("/x-nmos/node/v1.3/flows/:id"@[24] == ':');
        lemma_plain_path(m10, "/x-nmos/node/v1.3/flows/:id"@, Endpoint::Flow);
    }
    let m12 = m11.both("/x-nmos/node/v1.3/senders"@, Endpoint::Senders);
    assert(m12.in_place() && m12.holds(m11)) by {
        reveal_strlit("/x-nmos/node/v1.3/senders");
        lemma_plain_path(m11, "/x-nmos/node/v1.3/senders"@, Endpoint::Senders);
    }
    let m13 = m12.one("/x-nmos/node/v1.3/senders/:id"@, Endpoint::Sender);
    assert(m13.in_place() && m13.holds(m12)) by {
        reveal_strlit("/x-nmos/node/v1.3/senders/:id");
        assert("/x-nmos/node/v1.3/senders/:id"@[26] == ':');
        lemma_plain_path(m12, "/x-nmos/node/v1.3/senders/:id"@, Endpoint::Sender);
    }
    let m14 = m13.both("/x-nmos/node/v1.3/receivers"@, Endpoint::Receivers);
    assert(m14.in_place() && m14.holds(m13)) by {
        reveal_strlit("/x-nmos/node/v1.3/receivers");
        lemma_plain_path(m13, "/x-nmos/node/v1.3/receivers"@, Endpoint::Receivers);
    }
    let m15 = m14.one("/x-nmos/node/v1.3/receivers/:id"@, Endpoint::Receiver);
    assert(m15.in_place() && m15.holds(m14)) by {
        reveal_strlit("/x-nmos/node/v1.3/receivers/:id");
        assert("/x-nmos/node/v1.3/receivers/:id"@[28] == ':');
        lemma_plain_path(m14, "/x-nmos/node/v1.3/receivers/:id"@, Endpoint::Receiver);
    }
    let m16 = m15.both("/x-nmos/connection/v1.1"@, Endpoint::ConnectionRoot);
    assert(m16.in_place() && m16.holds(m15)) by {
        reveal_strlit("/x-nmos/connection/v1.1");
        lemma_plain_path(m15, "/x-nmos/connection/v1.1"@, Endpoint::ConnectionRoot);
    }
    let m17 = m16.both("/x-nmos/connection/v1.1/single"@, Endpoint::SingleRoot);
    assert(m17.in_place() && m17.holds(m16)) by {
        reveal_strlit("/x-nmos/connection/v1.1/single");
        lemma_plain_path(m16, "/x-nmos/connection/v1.1/single"@, Endpoint::SingleRoot);
    }
    let m18 = m17.both("/x-nmos/connection/v1.1/single/senders"@, Endpoint::SenderList);
    assert(m18.in_place() && m18.holds(m17)) by {
        reveal_strlit("/x-nmos/connection/v1.1/single/senders");
        lemma_plain_path(m17, "/x-nmos/connection/v1.1/single/senders"@, Endpoint::SenderList);
    }
    let m19 = m18.both("/x-nmos/connection/v1.1/single/senders/:id"@, Endpoint::SenderParts);
    assert(m19.in_place() && m19.holds(m18)) by {
        reveal_strlit("/x-nmos/connection/v1.1/single/senders/:id");
        assert("/x-nmos/connection/v1.1/single/senders/:id"@[39] == ':');
        lemma_plain_path(m18, "/x-nmos/connection/v1.1/single/senders/:id"@, Endpoint::SenderParts);
    }
    let m20 = m19.both("/x-nmos/connection/v1.1/single/senders/:id/constraints"@, Endpoint::SenderConstraints);
    assert(m20.in_place() && m20.holds(m19)) by {
        reveal_strlit("/x-nmos/connection/v1.1/single/senders/:id/constraints");
        assert("/x-nmos/connection/v1.1/single/senders/:id/constraints"@[39] == ':');
        lemma_plain_path(m19, "/x-nmos/connection/v1.1/single/senders/:id/constraints"@, Endpoint::SenderConstraints);
    }
    let m21 = m20.both("/x-nmos/connection/v1.1/single/senders/:id/staged"@, Endpoint::SenderStaged);
    assert(m21.in_place() && m21.holds(m20)) by {
        reveal_strlit("/x-nmos/connection/v1.1/single/senders/:id/staged");
        assert("/x-nmos/connection/v1.1/single/senders/:id/staged"@[39] == ':');
        lemma_plain_path(m20, "/x-nmos/connection/v1.1/single/senders/:id/staged"@, Endpoint::SenderStaged);
    }
    let m22 = m21.both("/x-nmos/connection/v1.1/single/senders/:id/active"@, Endpoint::SenderActive);
    assert(m22.in_place() && m22.holds(m21)) by {
        reveal_strlit("/x-nmos/connection/v1.1/single/senders/:id/active");
        assert("/x-nmos/connection/v1.1/single/senders/:id/active"@[39] == ':');
        lemma_plain_path(m21, "/x-nmos/connection/v1.1/single/senders/:id/active"@, Endpoint::SenderActive);
    }
    let m23 = m22.both("/x-nmos/connection/v1.1/single/senders/:id/transportfile"@, Endpoint::TransportFile);
    assert(m23.in_place() && m23.holds(m22)) by {
        lemma_transport_path(m22);
    }
    let m24 = m23.both("/x-nmos/connection/v1.1/single/receivers"@, Endpoint::ReceiverList);
    assert(m24.in_place() && m24.holds(m23)) by {
        reveal_strlit("/x-nmos/connection/v1.1/single/receivers");
        lemma_plain_path(m23, "/x-nmos/connection/v1.1/single/receivers"@, Endpoint::ReceiverList);
    }
    let m25 = m24.both("/x-nmos/connection/v1.1/single/receivers/:id"@, Endpoint::ReceiverParts);
    assert(m25.in_place() && m25.holds(m24)) by {
        reveal_strlit("/x-nmos/connection/v1.1/single/receivers/:id");
        assert("/x-nmos/connection/v1.1/single/receivers/:id"@[41] == ':');
        lemma_plain_path(m24, "/x-nmos/connection/v1.1/single/receivers/:id"@, Endpoint::ReceiverParts);
    }
    let m26 = m25.both("/x-nmos/connection/v1.1/single/receivers/:id/constraints"@, Endpoint::ReceiverConstraints);
    assert(m26.in_place() && m26.holds(m25)) by {
        reveal_strlit("/x-nmos/connection/v1.1/single/receivers/:id/constraints");
        assert("/x-nmos/connection/v1.1/single/receivers/:id/constraints"@[41] == ':');
        lemma_receiver_path(m25, "/x-nmos/connection/v1.1/single/receivers/:id/constraints"@, Endpoint::ReceiverConstraints);
    }
    let m27 = m26.both("/x-nmos/connection/v1.1/single/receivers/:id/staged"@, Endpoint::ReceiverStaged);
    assert(m27.in_place() && m27.holds(m26)) by {
        lemma_staged_path(m26);
    }
    let m28 = m27.both("/x-nmos/connection/v1.1/single/receivers/:id/active"@, Endpoint::ReceiverActive);
    assert(m28.in_place() && m28.holds(m27)) by {
        reveal_strlit("/x-nmos/connection/v1.1/single/receivers/:id/active");
        assert("/x-nmos/connection/v1.1/single/receivers/:id/active"@[41] == ':');
        lemma_receiver_path(m27, "/x-nmos/connection/v1.1/single/receivers/:id/active"@, Endpoint::ReceiverActive);
    }
    assert(routes() == m28);
    let t = m22.list.len() as int;
    assert(m23.list[t] == (transport_path(), Endpoint::TransportFile));
    assert(m23.list[t + 1] == (transport_path() + "/"@, Endpoint::TransportFile));
    let s = m26.list.len() as int;
    assert(m27.list[s] == (staged_path(), Endpoint::ReceiverStaged));
    assert(m27.list[s + 1] == (staged_path() + "/"@, Endpoint::ReceiverStaged));
    assert(m28.list[t] == m23.list[t] && m28.list[t + 1] == m23.list[t + 1]);
    assert(m28.list[s] == m27.list[s] && m28.list[s + 1] == m27.list[s + 1]);
}

/// Where the paths lead, whichever of them is asked: the path of the transport
/// file, and no other, gives the description of the node's own sender, and 404
/// for any other id; every path with an id in it gives 404 for an id that is not
/// the node's for that kind of resource, and every path without one finds
/// something; and what can be changed is served at the path of what is staged for
/// the receiver, and at no other. Both of these paths are there, with and without
/// a slash at the end.
pub proof fn paths_lead_where_they_say(
    node: NmosNode,
    connected: bool,
    sdp: Option<Seq<char>>,
    i: int,
    id: Seq<char>,
)
    requires
        0 <= i < routes().list.len(),
    ensures
        ({
            let (path, endpoint) = routes().list[i];
            let r = reply(node, connected, sdp, endpoint, id);
            &&& at_path(path, transport_path()) ==> r == (if id == node.sender_id@ {
                ReplyModel::Description(text::joined(node.session().sdp_lines()))
            } else {
                missing()
            })
            &&& r is Description ==> at_path(path, transport_path())
            &&& names_id(path) && id != own_id(node, endpoint) ==> r == missing()
            &&& names_id(path) && id == own_id(node, endpoint) ==> r !is NotFound
            &&& !names_id(path) ==> r is Found
            &&& endpoint == Endpoint::ReceiverStaged <==> at_path(path, staged_path())
        }),
        routes().list.contains((transport_path(), Endpoint::TransportFile)),
        routes().list.contains((transport_path() + "/"@, Endpoint::TransportFile)),
        routes().list.contains((staged_path(), Endpoint::ReceiverStaged)),
        routes().list.contains((staged_path() + "/"@, Endpoint::ReceiverStaged)),
{
    lemma_routes();
    assert(rightly(routes().list[i].0, routes().list[i].1));
    found_under_its_id_only(node, connected, sdp, routes().list[i].1, id);
}

/// Whether the path `p` is in the list and serves `e` there.
pub open spec fn leads(list: Table, p: Seq<char>, e: Endpoint) -> bool {
    list.contains((p, e))
}

/// Every path serves what its words say: the resources of a kind under the name
/// of the kind, one of them behind its id, and the parts of a connection under
/// theirs. There are 51 paths in all.
#[verifier::spinoff_prover]
pub proof fn every_path_serves_what_it_says()
    ensures
        routes().list.len() == 51,
        leads(routes().list, "/x-nmos"@, Endpoint::Roots),
        leads(routes().list, "/x-nmos"@ + "/"@, Endpoint::Roots),
        leads(routes().list, "/x-nmos/node"@, Endpoint::NodeVersions),
        leads(routes().list, "/x-nmos/node"@ + "/"@, Endpoint::NodeVersions),
        leads(routes().list, "/x-nmos/connection"@, Endpoint::ConnectionVersions),
        leads(routes().list, "/x-nmos/connection"@ + "/"@, Endpoint::ConnectionVersions),
        leads(routes().list, "/x-nmos/node/v1.3"@, Endpoint::NodeRoot),
        leads(routes().list, "/x-nmos/node/v1.3"@ + "/"@, Endpoint::NodeRoot),
        leads(routes().list, "/x-nmos/node/v1.3/self"@, Endpoint::NodeSelf),
        leads(routes().list, "/x-nmos/node/v1.3/self"@ + "/"@, Endpoint::NodeSelf),
        leads(routes().list, "/x-nmos/node/v1.3/devices"@, Endpoint::Devices),
        leads(routes().list, "/x-nmos/node/v1.3/devices"@ + "/"@, Endpoint::Devices),
        leads(routes().list, "/x-nmos/node/v1.3/devices/:id"@, Endpoint::Device),
        leads(routes().list, "/x-nmos/node/v1.3/sources"@, Endpoint::Sources),
        leads(routes().list, "/x-nmos/node/v1.3/sources"@ + "/"@, Endpoint::Sources),
        leads(routes().list, "/x-nmos/node/v1.3/sources/:id"@, Endpoint::Source),
        leads(routes().list, "/x-nmos/node/v1.3/flows"@, Endpoint::Flows),
        leads(routes().list, "/x-nmos/node/v1.3/flows"@ + "/"@, Endpoint::Flows),
        leads(routes().list, "/x-nmos/node/v1.3/flows/:id"@, Endpoint::Flow),
        leads(routes().list, "/x-nmos/node/v1.3/senders"@, Endpoint::Senders),
        leads(routes().list, "/x-nmos/node/v1.3/senders"@ + "/"@, Endpoint::Senders),
        leads(routes().list, "/x-nmos/node/v1.3/senders/:id"@, Endpoint::Sender),
        leads(routes().list, "/x-nmos/node/v1.3/receivers"@, Endpoint::Receivers),
        leads(routes().list, "/x-nmos/node/v1.3/receivers"@ + "/"@, Endpoint::Receivers),
        leads(routes().list, "/x-nmos/node/v1.3/receivers/:id"@, Endpoint::Receiver),
        leads(routes().list, "/x-nmos/connection/v1.1"@, Endpoint::ConnectionRoot),
        leads(routes().list, "/x-nmos/connection/v1.1"@ + "/"@, Endpoint::ConnectionRoot),
        leads(routes().list, "/x-nmos/connection/v1.1/single"@, Endpoint::SingleRoot),
        leads(routes().list, "/x-nmos/connection/v1.1/single"@ + "/"@, Endpoint::SingleRoot),
        leads(routes().list, "/x-nmos/connection/v1.1/single/senders"@, Endpoint::SenderList),
        leads(routes().list, "/x-nmos/connection/v1.1/single/senders"@ + "/"@, Endpoint::SenderList),
        leads(routes().list, "/x-nmos/connection/v1.1/single/senders/:id"@, Endpoint::SenderParts),
        leads(routes().list, "/x-nmos/connection/v1.1/single/senders/:id"@ + "/"@, Endpoint::SenderParts),
        leads(routes().list, "/x-nmos/connection/v1.1/single/senders/:id/constraints"@, Endpoint::SenderConstraints),
        leads(routes().list, "/x-nmos/connection/v1.1/single/senders/:id/constraints"@ + "/"@, Endpoint::SenderConstraints),
        leads(routes().list, "/x-nmos/connection/v1.1/single/senders/:id/staged"@, Endpoint::SenderStaged),
        leads(routes().list, "/x-nmos/connection/v1.1/single/senders/:id/staged"@ + "/"@, Endpoint::SenderStaged),
        leads(routes().list, "/x-nmos/connection/v1.1/single/senders/:id/active"@, Endpoint::SenderActive),
        leads(routes().list, "/x-nmos/connection/v1.1/single/senders/:id/active"@ + "/"@, Endpoint::SenderActive),
        leads(routes().list, "/x-nmos/connection/v1.1/single/senders/:id/transportfile"@, Endpoint::TransportFile),
        leads(routes().list, "/x-nmos/connection/v1.1/single/senders/:id/transportfile"@ + "/"@, Endpoint::TransportFile),
        leads(routes().list, "/x-nmos/connection/v1.1/single/receivers"@, Endpoint::ReceiverList),
        leads(routes().list, "/x-nmos/connection/v1.1/single/receivers"@ + "/"@, Endpoint::ReceiverList),
        leads(routes().list, "/x-nmos/connection/v1.1/single/receivers/:id"@, Endpoint::ReceiverParts),
        leads(routes().list, "/x-nmos/connection/v1.1/single/receivers/:id"@ + "/"@, Endpoint::ReceiverParts),
        leads(routes().list, "/x-nmos/connection/v1.1/single/receivers/:id/constraints"@, Endpoint::ReceiverConstraints),
        leads(routes().list, "/x-nmos/connection/v1.1/single/receivers/:id/constraints"@ + "/"@, Endpoint::ReceiverConstraints),
        leads(routes().list, "/x-nmos/connection/v1.1/single/receivers/:id/staged"@, Endpoint::ReceiverStaged),
        leads(routes().list, "/x-nmos/connection/v1.1/single/receivers/:id/staged"@ + "/"@, Endpoint::ReceiverStaged),
        leads(routes().list, "/x-nmos/connection/v1.1/single/receivers/:id/active"@, Endpoint::ReceiverActive),
        leads(routes().list, "/x-nmos/connection/v1.1/single/receivers/:id/active"@ + "/"@, Endpoint::ReceiverActive),
{
    let m0 = RoutesModel { list: Seq::empty() };
    let m1 = m0.both("/x-nmos"@, Endpoint::Roots);
    assert(m1.holds(m0) && m1.list.len() == 2);
    let m2 = m1.both("/x-nmos/node"@, Endpoint::NodeVersions);
    assert(m2.holds(m1) && m2.list.len() == 4);
    let m3 = m2.both("/x-nmos/connection"@, Endpoint::ConnectionVersions);
    assert(m3.holds(m2) && m3.list.len() == 6);
    let m4 = m3.both("/x-nmos/node/v1.3"@, Endpoint::NodeRoot);
    assert(m4.holds(m3) && m4.list.len() == 8);
    let m5 = m4.both("/x-nmos/node/v1.3/self"@, Endpoint::NodeSelf);
    assert(m5.holds(m4) && m5.list.len() == 10);
    let m6 = m5.both("/x-nmos/node/v1.3/devices"@, Endpoint::Devices);
    assert(m6.holds(m5) && m6.list.len() == 12);
    let m7 = m6.one("/x-nmos/node/v1.3/devices/:id"@, Endpoint::Device);
    assert(m7.holds(m6) && m7.list.len() == 13);
    let m8 = m7.both("/x-nmos/node/v1.3/sources"@, Endpoint::Sources);
    assert(m8.holds(m7) && m8.list.len() == 15);
    let m9 = m8.one("/x-nmos/node/v1.3/sources/:id"@, Endpoint::Source);
    assert(m9.holds(m8) && m9.list.len() == 16);
    let m10 = m9.both("/x-nmos/node/v1.3/flows"@, Endpoint::Flows);
    assert(m10.holds(m9) && m10.list.len() == 18);
    let m11 = m10.one("/x-nmos/node/v1.3/flows/:id"@, Endpoint::Flow);
    assert(m11.holds(m10) && m11.list.len() == 19);
    let m12 = m11.both("/x-nmos/node/v1.3/senders"@, Endpoint::Senders);
    assert(m12.holds(m11) && m12.list.len() == 21);
    let m13 = m12.one("/x-nmos/node/v1.3/senders/:id"@, Endpoint::Sender);
    assert(m13.holds(m12) && m13.list.len() == 22);
    let m14 = m13.both("/x-nmos/node/v1.3/receivers"@, Endpoint::Receivers);
    assert(m14.holds(m13) && m14.list.len() == 24);
    let m15 = m14.one("/x-nmos/node/v1.3/receivers/:id"@, Endpoint::Receiver);
    assert(m15.holds(m14) && m15.list.len() == 25);
    let m16 = m15.both("/x-nmos/connection/v1.1"@, Endpoint::ConnectionRoot);
    assert(m16.holds(m15) && m16.list.len() == 27);
    let m17 = m16.both("/x-nmos/connection/v1.1/single"@, Endpoint::SingleRoot);
    assert(m17.holds(m16) && m17.list.len() == 29);
    let m18 = m17.both("/x-nmos/connection/v1.1/single/senders"@, Endpoint::SenderList);
    assert(m18.holds(m17) && m18.list.len() == 31);
    let m19 = m18.both("/x-nmos/connection/v1.1/single/senders/:id"@, Endpoint::SenderParts);
    assert(m19.holds(m18) && m19.list.len() == 33);
    let m20 = m19.both("/x-nmos/connection/v1.1/single/senders/:id/constraints"@, Endpoint::SenderConstraints);
    assert(m20.holds(m19) && m20.list.len() == 35);
    let m21 = m20.both("/x-nmos/connection/v1.1/single/senders/:id/staged"@, Endpoint::SenderStaged);
    assert(m21.holds(m20) && m21.list.len() == 37);
    let m22 = m21.both("/x-nmos/connection/v1.1/single/senders/:id/active"@, Endpoint::SenderActive);
    assert(m22.holds(m21) && m22.list.len() == 39);
    let m23 = m22.both("/x-nmos/connection/v1.1/single/senders/:id/transportfile"@, Endpoint::TransportFile);
    assert(m23.holds(m22) && m23.list.len() == 41);
    let m24 = m23.both("/x-nmos/connection/v1.1/single/receivers"@, Endpoint::ReceiverList);
    assert(m24.holds(m23) && m24.list.len() == 43);
    let m25 = m24.both("/x-nmos/connection/v1.1/single/receivers/:id"@, Endpoint::ReceiverParts);
    assert(m25.holds(m24) && m25.list.len() == 45);
    let m26 = m25.both("/x-nmos/connection/v1.1/single/receivers/:id/constraints"@, Endpoint::ReceiverConstraints);
    assert(m26.holds(m25) && m26.list.len() == 47);
    let m27 = m26.both("/x-nmos/connection/v1.1/single/receivers/:id/staged"@, Endpoint::ReceiverStaged);
    assert(m27.holds(m26) && m27.list.len() == 49);
    let m28 = m27.both("/x-nmos/connection/v1.1/single/receivers/:id/active"@, Endpoint::ReceiverActive);
    assert(m28.holds(m27) && m28.list.len() == 51);
    assert(m1.list[0] == ("/x-nmos"@, Endpoint::Roots));
    assert(m1.list[1] == ("/x-nmos"@ + "/"@, Endpoint::Roots));
    assert(m2.list[2] == ("/x-nmos/node"@, Endpoint::NodeVersions));
    assert(m2.list[3] == ("/x-nmos/node"@ + "/"@, Endpoint::NodeVersions));
    assert(m3.list[4] == ("/x-nmos/connection"@, Endpoint::ConnectionVersions));
    assert(m3.list[5] == ("/x-nmos/connection"@ + "/"@, Endpoint::ConnectionVersions));
    assert(m4.list[6] == ("/x-nmos/node/v1.3"@, Endpoint::NodeRoot));
    assert(m4.list[7] == ("/x-nmos/node/v1.3"@ + "/"@, Endpoint::NodeRoot));
    assert(m5.list[8] == ("/x-nmos/node/v1.3/self"@, Endpoint::NodeSelf));
    assert(m5.list[9] == ("/x-nmos/node/v1.3/self"@ + "/"@, Endpoint::NodeSelf));
    assert(m6.list[10] == ("/x-nmos/node/v1.3/devices"@, Endpoint::Devices));
    assert(m6.list[11] == ("/x-nmos/node/v1.3/devices"@ + "/"@, Endpoint::Devices));
    assert(m7.list[12] == ("/x-nmos/node/v1.3/devices/:id"@, Endpoint::Device));
    assert(m8.list[13] == ("/x-nmos/node/v1.3/sources"@, Endpoint::Sources));
    assert(m8.list[14] == ("/x-nmos/node/v1.3/sources"@ + "/"@, Endpoint::Sources));
    assert(m9.list[15] == ("/x-nmos/node/v1.3/sources/:id"@, Endpoint::Source));
    assert(m10.list[16] == ("/x-nmos/node/v1.3/flows"@, Endpoint::Flows));
    assert(m10.list[17] == ("/x-nmos/node/v1.3/flows"@ + "/"@, Endpoint::Flows));
    assert(m11.list[18] == ("/x-nmos/node/v1.3/flows/:id"@, Endpoint::Flow));
    assert(m12.list[19] == ("/x-nmos/node/v1.3/senders"@, Endpoint::Senders));
    assert(m12.list[20] == ("/x-nmos/node/v1.3/senders"@ + "/"@, Endpoint::Senders));
    assert(m13.list[21] == ("/x-nmos/node/v1.3/senders/:id"@, Endpoint::Sender));
    assert(m14.list[22] == ("/x-nmos/node/v1.3/receivers"@, Endpoint::Receivers));
    assert(m14.list[23] == ("/x-nmos/node/v1.3/receivers"@ + "/"@, Endpoint::Receivers));
    assert(m15.list[24] == ("/x-nmos/node/v1.3/receivers/:id"@, Endpoint::Receiver));
    assert(m16.list[25] == ("/x-nmos/connection/v1.1"@, Endpoint::ConnectionRoot));
    assert(m16.list[26] == ("/x-nmos/connection/v1.1"@ + "/"@, Endpoint::ConnectionRoot));
    assert(m17.list[27] == ("/x-nmos/connection/v1.1/single"@, Endpoint::SingleRoot));
    assert(m17.list[28] == ("/x-nmos/connection/v1.1/single"@ + "/"@, Endpoint::SingleRoot));
    assert(m18.list[29] == ("/x-nmos/connection/v1.1/single/senders"@, Endpoint::SenderList));
    assert(m18.list[30] == ("/x-nmos/connection/v1.1/single/senders"@ + "/"@, Endpoint::SenderList));
    assert(m19.list[31] == ("/x-nmos/connection/v1.1/single/senders/:id"@, Endpoint::SenderParts));
    assert(m19.list[32] == ("/x-nmos/connection/v1.1/single/senders/:id"@ + "/"@, Endpoint::SenderParts));
    assert(m20.list[33] == ("/x-nmos/connection/v1.1/single/senders/:id/constraints"@, Endpoint::SenderConstraints));
    assert(m20.list[34] == ("/x-nmos/connection/v1.1/single/senders/:id/constraints"@ + "/"@, Endpoint::SenderConstraints));
    assert(m21.list[35] == ("/x-nmos/connection/v1.1/single/senders/:id/staged"@, Endpoint::SenderStaged));
    assert(m21.list[36] == ("/x-nmos/connection/v1.1/single/senders/:id/staged"@ + "/"@, Endpoint::SenderStaged));
    assert(m22.list[37] == ("/x-nmos/connection/v1.1/single/senders/:id/active"@, Endpoint::SenderActive));
    assert(m22.list[38] == ("/x-nmos/connection/v1.1/single/senders/:id/active"@ + "/"@, Endpoint::SenderActive));
    assert(m23.list[39] == ("/x-nmos/connection/v1.1/single/senders/:id/transportfile"@, Endpoint::TransportFile));
    assert(m23.list[40] == ("/x-nmos/connection/v1.1/single/senders/:id/transportfile"@ + "/"@, Endpoint::TransportFile));
    assert(m24.list[41] == ("/x-nmos/connection/v1.1/single/receivers"@, Endpoint::ReceiverList));
    assert(m24.list[42] == ("/x-nmos/connection/v1.1/single/receivers"@ + "/"@, Endpoint::ReceiverList));
    assert(m25.list[43] == ("/x-nmos/connection/v1.1/single/receivers/:id"@, Endpoint::ReceiverParts));
    assert(m25.list[44] == ("/x-nmos/connection/v1.1/single/receivers/:id"@ + "/"@, Endpoint::ReceiverParts));
    assert(m26.list[45] == ("/x-nmos/connection/v1.1/single/receivers/:id/constraints"@, Endpoint::ReceiverConstraints));
    assert(m26.list[46] == ("/x-nmos/connection/v1.1/single/receivers/:id/constraints"@ + "/"@, Endpoint::ReceiverConstraints));
    assert(m27.list[47] == ("/x-nmos/connection/v1.1/single/receivers/:id/staged"@, Endpoint::ReceiverStaged));
    assert(m27.list[48] == ("/x-nmos/connection/v1.1/single/receivers/:id/staged"@ + "/"@, Endpoint::ReceiverStaged));
    assert(m28.list[49] == ("/x-nmos/connection/v1.1/single/receivers/:id/active"@, Endpoint::ReceiverActive));
    assert(m28.list[50] == ("/x-nmos/connection/v1.1/single/receivers/:id/active"@ + "/"@, Endpoint::ReceiverActive));
    assert(m28.holds(m27));
    assert(m28.holds(m26));
    assert(m28.holds(m25));
    assert(m28.holds(m24));
    assert(m28.holds(m23));
    assert(m28.holds(m22));
    assert(m28.holds(m21));
    assert(m28.holds(m20));
    assert(m28.holds(m19));
    assert(m28.holds(m18));
    assert(m28.holds(m17));
    assert(m28.holds(m16));
    assert(m28.holds(m15));
    assert(m28.holds(m14));
    assert(m28.holds(m13));
    assert(m28.holds(m12));
    assert(m28.holds(m11));
    assert(m28.holds(m10));
    assert(m28.holds(m9));
    assert(m28.holds(m8));
    assert(m28.holds(m7));
    assert(m28.holds(m6));
    assert(m28.holds(m5));
    assert(m28.holds(m4));
    assert(m28.holds(m3));
    assert(m28.holds(m2));
    assert(m28.holds(m1));
    assert(m28.list[0] == m1.list[0]);
    assert(m28.list[1] == m1.list[1]);
    assert(m28.list[2] == m2.list[2]);
    assert(m28.list[3] == m2.list[3]);
    assert(m28.list[4] == m3.list[4]);
    assert(m28.list[5] == m3.list[5]);
    assert(m28.list[6] == m4.list[6]);
    assert(m28.list[7] == m4.list[7]);
    assert(m28.list[8] == m5.list[8]);
    assert(m28.list[9] == m5.list[9]);
    assert(m28.list[10] == m6.list[10]);
    assert(m28.list[11] == m6.list[11]);
    assert(m28.list[12] == m7.list[12]);
    assert(m28.list[13] == m8.list[13]);
    assert(m28.list[14] == m8.list[14]);
    assert(m28.list[15] == m9.list[15]);
    assert(m28.list[16] == m10.list[16]);
    assert(m28.list[17] == m10.list[17]);
    assert(m28.list[18] == m11.list[18]);
    assert(m28.list[19] == m12.list[19]);
    assert(m28.list[20] == m12.list[20]);
    assert(m28.list[21] == m13.list[21]);
    assert(m28.list[22] == m14.list[22]);
    assert(m28.list[23] == m14.list[23]);
    assert(m28.list[24] == m15.list[24]);
    assert(m28.list[25] == m16.list[25]);
    assert(m28.list[26] == m16.list[26]);
    assert(m28.list[27] == m17.list[27]);
    assert(m28.list[28] == m17.list[28]);
    assert(m28.list[29] == m18.list[29]);
    assert(m28.list[30] == m18.list[30]);
    assert(m28.list[31] == m19.list[31]);
    assert(m28.list[32] == m19.list[32]);
    assert(m28.list[33] == m20.list[33]);
    assert(m28.list[34] == m20.list[34]);
    assert(m28.list[35] == m21.list[35]);
    assert(m28.list[36] == m21.list[36]);
    assert(m28.list[37] == m22.list[37]);
    assert(m28.list[38] == m22.list[38]);
    assert(m28.list[39] == m23.list[39]);
    assert(m28.list[40] == m23.list[40]);
    assert(m28.list[41] == m24.list[41]);
    assert(m28.list[42] == m24.list[42]);
    assert(m28.list[43] == m25.list[43]);
    assert(m28.list[44] == m25.list[44]);
    assert(m28.list[45] == m26.list[45]);
    assert(m28.list[46] == m26.list[46]);
    assert(m28.list[47] == m27.list[47]);
    assert(m28.list[48] == m27.list[48]);
    assert(m28.list[49] == m28.list[49]);
    assert(m28.list[50] == m28.list[50]);
    assert(routes() == m28);
}

} // verus!
