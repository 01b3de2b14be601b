//! The receiver in the connection API (IS-05): the node as a sink that can be
//! controlled. A controller connects it to a sender by staging the description
//! of the sender.

use super::controller;
use super::resources::{activation, no_activation, NmosNode};
use crate::json;
use crate::json::{empty, none, text_or_null, txt, Json, JsonView};
use crate::text;
use vstd::prelude::*;

verus! {

/// The seam to what subscribes: connects the receiver and parts it again. What
/// it may answer is named, and nothing else is asked of it.
pub trait ReceiverControl: Send + Sync {
    /// Whether `r` may be the answer to the wish to connect to `sdp`.
    open spec fn answers_connect(&self, sdp: Seq<char>, r: Result<(), String>) -> bool {
        true
    }

    /// Whether `r` may be the answer to the wish to part.
    open spec fn answers_disconnect(&self, r: Result<(), String>) -> bool {
        true
    }

    /// Whether the receiver may be said to be connected, or not to be.
    open spec fn says_connected(&self, connected: bool) -> bool {
        true
    }

    /// Whether `sdp` may be named as what the receiver is connected to.
    open spec fn says_sdp(&self, sdp: Option<Seq<char>>) -> bool {
        true
    }

    /// Connects the receiver to the sender that `sdp` describes.
    fn connect(&self, sdp: &str) -> (r: Result<(), String>)
        ensures
            self.answers_connect(sdp@, r),
    ;

    /// Parts the receiver from its sender.
    fn disconnect(&self) -> (r: Result<(), String>)
        ensures
            self.answers_disconnect(r),
    ;

    /// The description of the sender that the receiver is connected to.
    fn active_sdp(&self) -> (r: Option<String>)
        ensures
            self.says_sdp(text::optional(r)),
    ;

    /// Whether the receiver is connected.
    fn connected(&self) -> (r: bool)
        ensures
            self.says_connected(r),
    ;
}

/// The connection object of the receiver.
pub open spec fn connection_json(connected: bool, sdp: Option<Seq<char>>) -> JsonView {
    empty()
        .with("master_enable"@, JsonView::Bool(connected))
        .with("sender_id"@, JsonView::Null)
        .with("activation"@, no_activation())
        .with("transport_type"@, txt("urn:x-nmos:transport:rtp.mcast"@))
        .with(
            "transport_file"@,
            empty()
                .with("data"@, text_or_null(sdp))
                .with(
                    "type"@,
                    text_or_null(
                        match sdp {
                            Some(s) => Some("application/sdp"@),
                            None => None,
                        },
                    ),
                ),
        )
        .with(
            "transport_params"@,
            none().item(empty().with("rtp_enabled"@, JsonView::Bool(connected))),
        )
}

/// The connection object of the receiver.
pub fn connection(connected: bool, sdp: &Option<String>) -> (j: Json)
    ensures
        j@ == connection_json(connected, text::optional(*sdp)),
{
    let kind: Json = match sdp {
        Some(_) => json::text_of("application/sdp"),
        None => Json::Null,
    };
    json::object()
        .with_bool("master_enable", connected)
        .with("sender_id", Json::Null)
        .with("activation", activation())
        .with_text("transport_type", "urn:x-nmos:transport:rtp.mcast")
        .with(
            "transport_file",
            json::object().with("data", json::optional_text(sdp)).with("type", kind),
        )
        .with(
            "transport_params",
            json::array().item(json::object().with_bool("rtp_enabled", connected)),
        )
}

/// What a request to stage something asks for.
pub enum PatchStep {
    /// Connect to the sender of this description.
    Connect(String),
    /// Part from the sender.
    Disconnect,
    /// Nothing: the answer is this status with this message.
    Refuse(u16, String),
}

/// What a request to stage something asks for, as a value.
pub enum PatchModel {
    Connect(Seq<char>),
    Disconnect,
    Refuse(u16, Seq<char>),
}

impl View for PatchStep {
    type V = PatchModel;

    open spec fn view(&self) -> PatchModel {
        match *self {
            PatchStep::Connect(s) => PatchModel::Connect(s@),
            PatchStep::Disconnect => PatchModel::Disconnect,
            PatchStep::Refuse(code, s) => PatchModel::Refuse(code, s@),
        }
    }
}

/// What a request asks for: `enable` and `sdp` are what its body holds. Without
/// a word on it, the receiver is meant to be enabled; that takes a description.
pub open spec fn patch_model(
    own: Seq<char>,
    id: Seq<char>,
    enable: Option<bool>,
    sdp: Option<Seq<char>>,
) -> PatchModel {
    if id != own {
        PatchModel::Refuse(404, "unbekannter Receiver"@)
    } else if enable == Some(false) {
        PatchModel::Disconnect
    } else {
        match sdp {
            Some(s) if s.len() > 0 => PatchModel::Connect(s),
            _ => PatchModel::Refuse(400, "transport_file.data (SDP) fehlt"@),
        }
    }
}

/// Decides on a request from what its body holds.
pub fn patch_step(
    node: &NmosNode,
    id: &str,
    enable: Option<bool>,
    sdp: Option<String>,
) -> (step: PatchStep)
    ensures
        step@ == patch_model(node.receiver_id@, id@, enable, text::optional(sdp)),
{
    if !text::same_text(id, node.receiver_id.as_str()) {
        return PatchStep::Refuse(404, text::text("unbekannter Receiver"));
    }
    match enable {
        Some(false) => {
            return PatchStep::Disconnect;
        },
        _ => {},
    }
    match sdp {
        Some(s) => {
            if text::chars_of(s.as_str()).len() > 0 {
                PatchStep::Connect(s)
            } else {
                PatchStep::Refuse(400, text::text("transport_file.data (SDP) fehlt"))
            }
        },
        None => PatchStep::Refuse(400, text::text("transport_file.data (SDP) fehlt")),
    }
}

/// Reads the body of a request, a JSON text, and decides on it.
pub fn patch_of_body(node: &NmosNode, id: &str, body: &str) -> (step: PatchStep)
    ensures
        step@ == patch_model(
            node.receiver_id@,
            id@,
            json::bool_in(body@, "/master_enable"@),
            json::text_in(body@, "/transport_file/data"@),
        ),
{
    let enable: Option<bool> = json::bool_at(body, "/master_enable");
    let sdp: Option<String> = json::text_at(body, "/transport_file/data");
    patch_step(node, id, enable, sdp)
}

/// The answer once the receiver was asked to connect or part: the connection
/// object, or status 500 with what went wrong.
pub fn patch_result(
    outcome: Result<(), String>,
    connected: bool,
    sdp: &Option<String>,
) -> (r: Result<Json, (u16, String)>)
    ensures
        match outcome {
            Ok(_) => r matches Ok(j) && j@ == connection_json(connected, text::optional(*sdp)),
            Err(e) => r == Err::<Json, (u16, String)>((500, e)),
        },
{
    match outcome {
        Ok(_) => Ok(connection(connected, sdp)),
        Err(e) => Err((500, e)),
    }
}

/// Whether a value is the connection object in a state that the control may
/// name.
pub open spec fn named_connection<C: ReceiverControl + ?Sized>(control: &C, j: JsonView) -> bool {
    exists|connected: bool, sdp: Option<Seq<char>>|
        #![trigger connection_json(connected, sdp)]
        control.says_connected(connected) && control.says_sdp(sdp) && j == connection_json(
            connected,
            sdp,
        )
}

/// Whether `r` is the answer to a request whose wish was answered with `outcome`.
pub open spec fn follows<C: ReceiverControl + ?Sized>(
    control: &C,
    outcome: Result<(), String>,
    r: Result<Json, (u16, String)>,
) -> bool {
    match outcome {
        Ok(_) => r matches Ok(j) && named_connection(control, j@),
        Err(e) => r == Err::<Json, (u16, String)>((500, e)),
    }
}

/// The answer to a request whose wish was answered with `outcome`.
fn answered<C: ReceiverControl + ?Sized>(control: &C, outcome: Result<(), String>) -> (r: Result<
    Json,
    (u16, String),
>)
    ensures
        follows(control, outcome, r),
{
    let connected: bool = control.connected();
    let sdp: Option<String> = control.active_sdp();
    let r = patch_result(outcome, connected, &sdp);
    assert(r matches Ok(j) ==> j@ == connection_json(connected, text::optional(sdp)));
    r
}

/// Whether `r` follows from what the control may answer to the wish to connect.
pub open spec fn connected_so<C: ReceiverControl + ?Sized>(
    control: &C,
    sdp: Seq<char>,
    r: Result<Json, (u16, String)>,
) -> bool {
    exists|outcome: Result<(), String>| #[trigger]
        control.answers_connect(sdp, outcome) && follows(control, outcome, r)
}

/// Whether `r` follows from what the control may answer to the wish to part.
pub open spec fn parted_so<C: ReceiverControl + ?Sized>(
    control: &C,
    r: Result<Json, (u16, String)>,
) -> bool {
    exists|outcome: Result<(), String>| #[trigger]
        control.answers_disconnect(outcome) && follows(control, outcome, r)
}

/// Whether `r` is what comes of a request that asks for `wish`.
pub open spec fn staged<C: ReceiverControl + ?Sized>(
    control: &C,
    wish: PatchModel,
    r: Result<Json, (u16, String)>,
) -> bool {
    match wish {
        PatchModel::Refuse(code, message) => r matches Err(e) && e.0 == code && e.1@ == message,
        PatchModel::Connect(sdp) => connected_so(control, sdp, r),
        PatchModel::Disconnect => parted_so(control, r),
    }
}

/// Stages what a request asks for, and activates it at once. What the control
/// answers decides whether that succeeds; a request that is refused reaches it
/// not at all.
pub fn staged_patch<C: ReceiverControl + ?Sized>(
    node: &NmosNode,
    control: &C,
    id: &str,
    body: &str,
) -> (r: Result<Json, (u16, String)>)
    ensures
        staged(
            control,
            patch_model(
                node.receiver_id@,
                id@,
                json::bool_in(body@, "/master_enable"@),
                json::text_in(body@, "/transport_file/data"@),
            ),
            r,
        ),
{
    match patch_of_body(node, id, body) {
        PatchStep::Connect(sdp) => {
            let outcome: Result<(), String> = control.connect(sdp.as_str());
            let ghost said = outcome;
            let r = answered(control, outcome);
            assert(control.answers_connect(sdp@, said));
            assert(connected_so(control, sdp@, r));
            r
        },
        PatchStep::Disconnect => {
            let outcome: Result<(), String> = control.disconnect();
            let ghost said = outcome;
            let r = answered(control, outcome);
            assert(control.answers_disconnect(said));
            assert(parted_so(control, r));
            r
        },
        PatchStep::Refuse(code, message) => Err((code, message)),
    }
}

/// A request for a receiver that is not the node's own is refused with 404,
/// whatever it asks for: it neither connects nor parts the receiver.
pub proof fn foreign_receiver_is_refused(
    own: Seq<char>,
    id: Seq<char>,
    enable: Option<bool>,
    sdp: Option<Seq<char>>,
)
    requires
        id != own,
    ensures
        patch_model(own, id, enable, sdp) == PatchModel::Refuse(404, "unbekannter Receiver"@),
{
}

/// What the controller sends to connect a receiver connects it, and to the
/// description that it was given; what it sends to part a receiver parts it.
pub proof fn controller_is_understood(own: Seq<char>, sdp: Seq<char>)
    requires
        sdp.len() > 0,
    ensures
        ({
            let body = json::members(controller::connect_json(sdp));
            &&& json::member(body, "master_enable"@) == Some(JsonView::Bool(true))
            &&& json::member(body, "transport_file"@) matches Some(file)
            &&& json::member(json::members(file), "data"@) == Some(txt(sdp))
            &&& patch_model(own, own, Some(true), Some(sdp)) == PatchModel::Connect(sdp)
        }),
        ({
            let body = json::members(controller::disconnect_json());
            &&& json::member(body, "master_enable"@) == Some(JsonView::Bool(false))
            &&& forall|got: Option<Seq<char>>|
                #[trigger] patch_model(own, own, Some(false), got) == PatchModel::Disconnect
        }),
{
    reveal_strlit("master_enable");
    reveal_strlit("activation");
    reveal_strlit("transport_file");
    reveal_strlit("data");
    let body = json::members(controller::connect_json(sdp));
    json::lemma_member(body, 0);
    json::lemma_member(body, 2);
    json::lemma_member(json::members(body[2].1), 0);
    json::lemma_member(json::members(controller::disconnect_json()), 0);
}

/// A request for the own receiver with a description connects it, unless it says
/// that the receiver is to be off; then it parts it, with a description or
/// without. A request without a description that says nothing else is refused
/// with status 400, and one for another receiver with status 404.
pub proof fn receiver_does_what_the_request_says(
    own: Seq<char>,
    other: Seq<char>,
    enable: Option<bool>,
    sdp: Seq<char>,
)
    requires
        sdp.len() > 0,
        own != other,
    ensures
        patch_model(own, own, None, Some(sdp)) == PatchModel::Connect(sdp),
        patch_model(own, own, Some(true), Some(sdp)) == PatchModel::Connect(sdp),
        patch_model(own, own, Some(false), Some(sdp)) == PatchModel::Disconnect,
        patch_model(own, own, Some(false), None) == PatchModel::Disconnect,
        enable != Some(false) ==> (patch_model(own, own, enable, None) matches PatchModel::Refuse(
            code,
            _,
        ) && code == 400),
        enable != Some(false) ==> (patch_model(own, own, enable, Some(Seq::empty()))
            matches PatchModel::Refuse(code, _) && code == 400),
        patch_model(own, other, enable, Some(sdp)) matches PatchModel::Refuse(code, _) && code
            == 404,
{
}

} // verus!
