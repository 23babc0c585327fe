//! The admin endpoints of the mesh, as decisions: from what the HTTP layer
//! has read of a request to the reply it sends.
//!
//! The HTTP layer reads method, headers and body, and writes the reply. The
//! wire form of heartbeats and events is its business too. Everything in
//! between is decided here.

use vstd::prelude::*;
use crate::effects::{actions_view, MeshAction};
use crate::heartbeat::MeshHeartbeat;
use crate::registry::{MeshRegistry, PendingRegistration, RegisterError};
use crate::rules::{
    error_message, is_minted_token, refusal, registered_actions, token_matches, ActionView,
    PendingView, RegisterErrorView, Table,
};
use crate::text::{join3, opt_text, str_eq};

verus! {

/// The header that carries a leaf's token, in requests and in replies.
pub const TOKEN_HEADER: &'static str = "X-Mesh-Token";

/// One header of a reply.
#[derive(Debug, PartialEq, Eq)]
pub struct Header {
    pub name: String,
    pub value: String,
}

/// A reply for the HTTP layer to send.
#[derive(Debug, PartialEq, Eq)]
pub struct HttpReply {
    pub status: u16,
    pub headers: Vec<Header>,
    pub body: String,
}

/// A reply as a mathematical value. Each header is a pair of name and value.
pub struct ReplyView {
    pub status: u16,
    pub headers: Seq<(Seq<char>, Seq<char>)>,
    pub body: Seq<char>,
}

impl View for HttpReply {
    type V = ReplyView;

    open spec fn view(&self) -> ReplyView {
        ReplyView {
            status: self.status,
            headers: Seq::new(
                self.headers@.len(),
                |i: int| (self.headers@[i].name@, self.headers@[i].value@),
            ),
            body: self.body@,
        }
    }
}

/// A reply with no header and no body.
pub open spec fn empty_reply(status: u16) -> ReplyView {
    ReplyView { status, headers: Seq::empty(), body: Seq::empty() }
}

/// A reply whose body is of the given content type.
pub open spec fn typed_reply(status: u16, content_type: Seq<char>, body: Seq<char>) -> ReplyView {
    ReplyView { status, headers: seq![("content-type"@, content_type)], body }
}

/// A reply in plain text.
pub open spec fn plaintext_reply(status: u16, body: Seq<char>) -> ReplyView {
    typed_reply(status, "text/plain"@, body)
}

fn empty_response(status: u16) -> (reply: HttpReply)
    ensures
        reply@ == empty_reply(status),
{
    let reply = HttpReply { status, headers: Vec::new(), body: String::new() };
    assert(reply@.headers =~= Seq::empty());
    reply
}

fn typed_response(status: u16, content_type: &str, body: String) -> (reply: HttpReply)
    ensures
        reply@ == typed_reply(status, content_type@, body@),
{
    let mut headers: Vec<Header> = Vec::new();
    headers.push(
        Header { name: String::from_str("content-type"), value: String::from_str(content_type) },
    );
    let reply = HttpReply { status, headers, body };
    assert(reply@.headers =~= seq![("content-type"@, content_type@)]);
    reply
}

fn plaintext_response(status: u16, body: String) -> (reply: HttpReply)
    ensures
        reply@ == plaintext_reply(status, body@),
{
    typed_response(status, "text/plain", body)
}

/// Where a request to the admin server goes.
#[derive(Clone, Copy, Debug, PartialEq, Eq, Structural)]
pub enum AdminRoute {
    PprofProfile,
    PprofHeap,
    Shutdown,
    Tasks,
    ConfigDump,
    Logging,
    MeshRegister,
    MeshNodes,
    MeshEvents,
    MeshLogs,
    /// The handler that the embedding program installed for everything else.
    Fallback,
    Dashboard,
    NotFound,
}

/// The route of a path. The two profiling paths are routes only where the
/// platform has profiling. A path that no endpoint owns goes to the fallback
/// handler where one is installed; without one, the root path shows the
/// dashboard and every other path is not found.
pub open spec fn route_of(path: Seq<char>, profiling: bool, has_fallback: bool) -> AdminRoute {
    if profiling && path == "/debug/pprof/profile"@ {
        AdminRoute::PprofProfile
    } else if profiling && path == "/debug/pprof/heap"@ {
        AdminRoute::PprofHeap
    } else if path == "/quitquitquit"@ {
        AdminRoute::Shutdown
    } else if path == "/debug/tasks"@ {
        AdminRoute::Tasks
    } else if path == "/config_dump"@ {
        AdminRoute::ConfigDump
    } else if path == "/logging"@ {
        AdminRoute::Logging
    } else if path == "/mesh/register"@ {
        AdminRoute::MeshRegister
    } else if path == "/mesh/nodes"@ {
        AdminRoute::MeshNodes
    } else if path == "/mesh/events"@ {
        AdminRoute::MeshEvents
    } else if path == "/mesh/logs"@ {
        AdminRoute::MeshLogs
    } else if has_fallback {
        AdminRoute::Fallback
    } else if path == "/"@ {
        AdminRoute::Dashboard
    } else {
        AdminRoute::NotFound
    }
}

/// Routes a request by its path.
pub fn route(path: &str, profiling: bool, has_fallback: bool) -> (to: AdminRoute)
    ensures
        to == route_of(path@, profiling, has_fallback),
{
    if profiling && str_eq(path, "/debug/pprof/profile") {
        AdminRoute::PprofProfile
    } else if profiling && str_eq(path, "/debug/pprof/heap") {
        AdminRoute::PprofHeap
    } else if str_eq(path, "/quitquitquit") {
        AdminRoute::Shutdown
    } else if str_eq(path, "/debug/tasks") {
        AdminRoute::Tasks
    } else if str_eq(path, "/config_dump") {
        AdminRoute::ConfigDump
    } else if str_eq(path, "/logging") {
        AdminRoute::Logging
    } else if str_eq(path, "/mesh/register") {
        AdminRoute::MeshRegister
    } else if str_eq(path, "/mesh/nodes") {
        AdminRoute::MeshNodes
    } else if str_eq(path, "/mesh/events") {
        AdminRoute::MeshEvents
    } else if str_eq(path, "/mesh/logs") {
        AdminRoute::MeshLogs
    } else if has_fallback {
        AdminRoute::Fallback
    } else if str_eq(path, "/") {
        AdminRoute::Dashboard
    } else {
        AdminRoute::NotFound
    }
}

/// Whether a request may carry a body to the mesh: its method is POST. Of
/// any other request the body is not read.
pub fn is_post(method: &str) -> (post: bool)
    ensures
        post == (method@ == "POST"@),
{
    str_eq(method, "POST")
}

/// What the HTTP layer found of a request that should carry a body.
#[derive(Debug, PartialEq, Eq)]
pub enum Inbound<T> {
    /// The method is not POST. The body was not read.
    WrongMethod,
    /// The body could not be read; the transport's words.
    Unreadable(String),
    /// The body.
    Body(T),
}

/// The reply to a request that never reaches the registry: a wrong method is
/// not allowed, an unreadable body is a bad request.
pub open spec fn early_reply<T>(inbound: Inbound<T>) -> Option<ReplyView> {
    match inbound {
        Inbound::WrongMethod => Some(empty_reply(405)),
        Inbound::Unreadable(why) => Some(
            plaintext_reply(400, "failed to read body: "@ + why@ + "\n"@),
        ),
        Inbound::Body(_) => None,
    }
}

/// The reply to a registration that was denied.
pub open spec fn denied_reply(error: RegisterErrorView) -> ReplyView {
    plaintext_reply(403, "mesh registration denied: "@ + error_message(error) + "\n"@)
}

/// The reply to a registration that went through: the token travels back in
/// the token header.
pub open spec fn registered_reply(token: Seq<char>) -> ReplyView {
    ReplyView {
        status: 200,
        headers: seq![("content-type"@, "text/plain"@), ("X-Mesh-Token"@, token)],
        body: "registered\n"@,
    }
}

/// The reply with which a registration request ends before the registry
/// accepts it, if it ends there. The body is the heartbeat as the wire codec
/// parsed it, or the codec's complaint.
pub open spec fn register_rejection(
    table: Table,
    token: Option<Seq<char>>,
    inbound: Inbound<Result<MeshHeartbeat, String>>,
) -> Option<ReplyView> {
    match inbound {
        Inbound::Body(Ok(heartbeat)) => match refusal(table, heartbeat@.service_name, token) {
            Some(error) => Some(denied_reply(error)),
            None => None,
        },
        Inbound::Body(Err(why)) => Some(
            plaintext_reply(400, "failed to parse heartbeat: "@ + why@ + "\n"@),
        ),
        _ => early_reply(inbound),
    }
}

fn denied_response(error: &RegisterError) -> (reply: HttpReply)
    ensures
        reply@ == denied_reply(error@),
{
    plaintext_response(
        403,
        join3("mesh registration denied: ", error.message().as_str(), "\n"),
    )
}

/// First half of `POST /mesh/register`: everything up to the configuration
/// store.
///
/// A wrong method ends in 405, an unreadable body or a heartbeat that does
/// not parse in 400, a refusal by the registry in 403 with the registry's
/// words; in all these cases the registry stays as it is. Else the registry
/// has accepted the heartbeat, and the registration is handed back for the
/// store to take its projection; `conclude_mesh_register` makes the reply.
pub fn handle_mesh_register(
    registry: &mut MeshRegistry,
    token: Option<String>,
    inbound: Inbound<Result<MeshHeartbeat, String>>,
) -> (outcome: Result<PendingRegistration, HttpReply>)
    ensures
        match register_rejection(old(registry)@, opt_text(token), inbound) {
            Some(reply) => {
                &&& outcome matches Err(r)
                &&& r@ == reply
                &&& final(registry)@ == old(registry)@
            },
            None => {
                &&& outcome matches Ok(pending)
                &&& inbound matches Inbound::Body(Ok(heartbeat))
                &&& pending@.heartbeat == heartbeat@
                &&& match token {
                    Some(t) => pending@.token == t@,
                    None => is_minted_token(pending@.token),
                }
                &&& final(registry)@.contains_key(heartbeat@.service_name)
                &&& final(registry)@[heartbeat@.service_name].metadata == pending@.accepted
                &&& final(registry)@[heartbeat@.service_name].token == pending@.token
                &&& pending@.accepted == heartbeat@.with_blessing(
                    old(registry)@.contains_key(heartbeat@.service_name),
                )
                &&& forall|name: Seq<char>|
                    name != heartbeat@.service_name ==> (final(registry)@.contains_key(name)
                        <==> old(registry)@.contains_key(name)) && final(registry)@[name] == old(
                        registry,
                    )@[name]
            },
        },
{
    match inbound {
        Inbound::WrongMethod => Err(empty_response(405)),
        Inbound::Unreadable(why) => Err(
            plaintext_response(400, join3("failed to read body: ", why.as_str(), "\n")),
        ),
        Inbound::Body(Err(why)) => Err(
            plaintext_response(400, join3("failed to parse heartbeat: ", why.as_str(), "\n")),
        ),
        Inbound::Body(Ok(heartbeat)) => match registry.register(heartbeat, token) {
            Ok(pending) => Ok(pending),
            Err(error) => Err(denied_response(&error)),
        },
    }
}

/// What `POST /mesh/register` ends in once the store has answered.
pub open spec fn conclusion(pending: PendingView, projected: Result<(), String>) -> (
    ReplyView,
    Seq<ActionView>,
) {
    match projected {
        Ok(_) => (
            registered_reply(pending.token),
            registered_actions(pending.heartbeat, pending.accepted),
        ),
        Err(detail) => (
            denied_reply(RegisterErrorView::ProjectionFailed(detail@)),
            Seq::empty(),
        ),
    }
}

/// Second half of `POST /mesh/register`: the reply, and what is still owed.
///
/// Where the store took the projection the reply is 200 with the token in
/// the token header, and the journal record and the event are owed. Where it
/// refused, the reply is 403 with the store's words and nothing is owed.
pub fn conclude_mesh_register(pending: PendingRegistration, projected: Result<(), String>) -> (end:
    (HttpReply, Vec<MeshAction>))
    ensures
        (end.0@, actions_view(end.1@)) == conclusion(pending@, projected),
{
    match pending.settle(projected) {
        Ok(done) => {
            let mut headers: Vec<Header> = Vec::new();
            headers.push(
                Header {
                    name: String::from_str("content-type"),
                    value: String::from_str("text/plain"),
                },
            );
            headers.push(Header { name: String::from_str(TOKEN_HEADER), value: done.token });
            let reply = HttpReply { status: 200, headers, body: String::from_str("registered\n") };
            assert(reply@.headers =~= registered_reply(pending@.token).headers);
            (reply, done.actions)
        },
        Err(error) => {
            let none: Vec<MeshAction> = Vec::new();
            assert(actions_view(none@) =~= Seq::<ActionView>::empty());
            (denied_response(&error), none)
        },
    }
}

/// What a leaf sent to the log endpoint, as far as the endpoint reads it.
#[derive(Debug, PartialEq, Eq)]
pub struct LogPayload {
    /// The member that names the service, where it is a string.
    pub service_name: Option<String>,
    /// The member that holds the log lines, where it is an array: each
    /// element in serde_json's debug notation.
    pub logs: Option<Vec<String>>,
}

/// The views of a list of texts, in order.
pub open spec fn texts_view(texts: Seq<String>) -> Seq<Seq<char>> {
    Seq::new(texts.len(), |i: int| texts[i]@)
}

/// What a parser made of a log body, as a mathematical value: the service
/// name and the log lines, each where the payload has it, or the parser's
/// complaint.
pub type PayloadView = Result<(Option<Seq<char>>, Option<Seq<Seq<char>>>), Seq<char>>;

/// What the HTTP layer found of a request, as a mathematical value.
pub enum InboundView<T> {
    WrongMethod,
    Unreadable(Seq<char>),
    Body(T),
}

/// A log payload, or the complaint of the parser, as a mathematical value.
pub open spec fn payload_view(parsed: Result<LogPayload, String>) -> PayloadView {
    match parsed {
        Ok(payload) => Ok(
            (
                opt_text(payload.service_name),
                match payload.logs {
                    Some(lines) => Some(texts_view(lines@)),
                    None => None,
                },
            ),
        ),
        Err(why) => Err(why@),
    }
}

/// A request with a parsed log body as a mathematical value.
pub open spec fn parsed_view(inbound: Inbound<Result<LogPayload, String>>) -> InboundView<
    PayloadView,
> {
    match inbound {
        Inbound::WrongMethod => InboundView::WrongMethod,
        Inbound::Unreadable(why) => InboundView::Unreadable(why@),
        Inbound::Body(parsed) => InboundView::Body(payload_view(parsed)),
    }
}

/// What serde_json reads from a body: its complaint where the body is not
/// JSON; else the member under `name_key` where it is a string, and the
/// elements of the member under `logs_key` where it is an array, each in
/// serde_json's debug notation.
pub uninterp spec fn parsed_log_body(body: Seq<u8>, name_key: Seq<char>, logs_key: Seq<char>)
    -> Result<(Option<Seq<char>>, Option<Seq<Seq<char>>>), Seq<char>>;

/// `serde_json::from_slice` into a `Value`, then `Value::get`, `as_str` and
/// `as_array` on the two members, and the debug notation of each element.
#[verifier::external_body]
fn parse_log_body(body: &[u8], name_key: &str, logs_key: &str) -> (parsed: Result<
    LogPayload,
    String,
>)
    ensures
        payload_view(parsed) == parsed_log_body(body@, name_key@, logs_key@),
{
    match serde_json::from_slice::<serde_json::Value>(body) {
        Err(error) => Err(error.to_string()),
        Ok(value) => Ok(
            LogPayload {
                service_name: value.get(name_key).and_then(|v| v.as_str()).map(|s| s.to_string()),
                logs: value.get(logs_key).and_then(|v| v.as_array()).map(
                    |items| items.iter().map(|item| format!("{:?}", item)).collect(),
                ),
            },
        ),
    }
}

/// How `POST /mesh/logs` ends: the reply, and the log lines to forward to
/// the host's log sink under the name of the service.
#[derive(Debug, PartialEq, Eq)]
pub struct LogsOutcome {
    pub reply: HttpReply,
    pub service: String,
    pub forwarded: Vec<String>,
}

/// The log endpoint's end as a mathematical value.
pub struct LogsView {
    pub reply: ReplyView,
    pub service: Seq<char>,
    pub forwarded: Seq<Seq<char>>,
}

impl View for LogsOutcome {
    type V = LogsView;

    open spec fn view(&self) -> LogsView {
        LogsView {
            reply: self.reply@,
            service: self.service@,
            forwarded: texts_view(self.forwarded@),
        }
    }
}

/// The service a payload speaks for: the one it names, else `unknown`.
pub open spec fn payload_service(name: Option<Seq<char>>) -> Seq<char> {
    match name {
        Some(name) => name,
        None => "unknown"@,
    }
}

/// The rule of the log endpoint. Logs are forwarded only for a service that
/// is registered and only with its own token; then the reply is 200 and all
/// lines of the payload are forwarded. Every other request that parses ends
/// in 403 and forwards nothing.
pub open spec fn logs_outcome(
    table: Table,
    token: Option<Seq<char>>,
    inbound: InboundView<PayloadView>,
) -> LogsView {
    match inbound {
        InboundView::WrongMethod => LogsView {
            reply: empty_reply(405),
            service: Seq::empty(),
            forwarded: Seq::empty(),
        },
        InboundView::Unreadable(why) => LogsView {
            reply: plaintext_reply(400, "failed to read body: "@ + why + "\n"@),
            service: Seq::empty(),
            forwarded: Seq::empty(),
        },
        InboundView::Body(Err(why)) => LogsView {
            reply: plaintext_reply(400, "failed to parse log payload: "@ + why + "\n"@),
            service: Seq::empty(),
            forwarded: Seq::empty(),
        },
        InboundView::Body(Ok((name, lines))) => {
            let service = payload_service(name);
            if token is Some && token_matches(table, service, token->0) {
                LogsView {
                    reply: plaintext_reply(200, "logs processed\n"@),
                    service,
                    forwarded: match lines {
                        Some(lines) => lines,
                        None => Seq::empty(),
                    },
                }
            } else {
                LogsView {
                    reply: plaintext_reply(403, "invalid mesh token\n"@),
                    service,
                    forwarded: Seq::empty(),
                }
            }
        },
    }
}

/// `POST /mesh/logs` on a body that has been parsed already.
pub fn respond_to_logs(
    registry: &MeshRegistry,
    token: Option<String>,
    inbound: Inbound<Result<LogPayload, String>>,
) -> (end: LogsOutcome)
    ensures
        end@ == logs_outcome(registry@, opt_text(token), parsed_view(inbound)),
{
    let nothing: Vec<String> = Vec::new();
    assert(texts_view(nothing@) =~= Seq::<Seq<char>>::empty());
    match inbound {
        Inbound::WrongMethod => LogsOutcome {
            reply: empty_response(405),
            service: String::new(),
            forwarded: nothing,
        },
        Inbound::Unreadable(why) => LogsOutcome {
            reply: plaintext_response(400, join3("failed to read body: ", why.as_str(), "\n")),
            service: String::new(),
            forwarded: nothing,
        },
        Inbound::Body(Err(why)) => LogsOutcome {
            reply: plaintext_response(
                400,
                join3("failed to parse log payload: ", why.as_str(), "\n"),
            ),
            service: String::new(),
            forwarded: nothing,
        },
        Inbound::Body(Ok(payload)) => {
            let service = match payload.service_name {
                Some(name) => name,
                None => String::from_str("unknown"),
            };
            let authentic = match token {
                Some(token) => registry.validate_token(service.as_str(), token.as_str()),
                None => false,
            };
            if authentic {
                LogsOutcome {
                    reply: plaintext_response(200, String::from_str("logs processed\n")),
                    service,
                    forwarded: match payload.logs {
                        Some(lines) => lines,
                        None => nothing,
                    },
                }
            } else {
                LogsOutcome {
                    reply: plaintext_response(403, String::from_str("invalid mesh token\n")),
                    service,
                    forwarded: nothing,
                }
            }
        },
    }
}

/// What the log endpoint makes of a request: of a body, the payload that
/// serde_json reads from it under the members `serviceName` and `logs`.
pub open spec fn read_log_body(inbound: Inbound<Vec<u8>>) -> InboundView<PayloadView> {
    match inbound {
        Inbound::WrongMethod => InboundView::WrongMethod,
        Inbound::Unreadable(why) => InboundView::Unreadable(why@),
        Inbound::Body(bytes) => InboundView::Body(
            parsed_log_body(bytes@, "serviceName"@, "logs"@),
        ),
    }
}

/// `POST /mesh/logs`: parses the body and answers by the rule of
/// `respond_to_logs`.
pub fn handle_mesh_logs(registry: &MeshRegistry, token: Option<String>, inbound: Inbound<Vec<u8>>) -> (end:
    LogsOutcome)
    ensures
        end@ == logs_outcome(registry@, opt_text(token), read_log_body(inbound)),
{
    let parsed = match inbound {
        Inbound::WrongMethod => Inbound::WrongMethod,
        Inbound::Unreadable(why) => Inbound::Unreadable(why),
        Inbound::Body(bytes) => Inbound::Body(
            parse_log_body(bytes.as_slice(), "serviceName", "logs"),
        ),
    };
    respond_to_logs(registry, token, parsed)
}

/// The reply of `GET /mesh/nodes`, from the outcome of writing the listed
/// heartbeats as JSON: the text with its content type, or 500 with the
/// writer's complaint.
pub open spec fn nodes_reply(serialized: Result<String, String>) -> ReplyView {
    match serialized {
        Ok(json) => typed_reply(200, "application/json"@, json@),
        Err(why) => plaintext_reply(500, "failed to serialize nodes: "@ + why@ + "\n"@),
    }
}

/// `GET /mesh/nodes`: the reply to send for `get_nodes()` of the registry,
/// once the wire codec has written the list.
pub fn handle_mesh_nodes(serialized: Result<String, String>) -> (reply: HttpReply)
    ensures
        reply@ == nodes_reply(serialized),
{
    match serialized {
        Ok(json) => typed_response(200, "application/json", json),
        Err(why) => plaintext_response(
            500,
            join3("failed to serialize nodes: ", why.as_str(), "\n"),
        ),
    }
}

/// The head of the reply that opens an event stream.
pub open spec fn events_reply() -> ReplyView {
    ReplyView {
        status: 200,
        headers: seq![
            ("content-type"@, "text/event-stream"@),
            ("cache-control"@, "no-cache"@),
            ("connection"@, "keep-alive"@),
        ],
        body: Seq::empty(),
    }
}

/// `GET /mesh/events`: the head of the reply. The body is the stream of
/// `sse_frame` of what a receiver from `subscribe()` yields.
pub fn handle_mesh_events() -> (reply: HttpReply)
    ensures
        reply@ == events_reply(),
{
    let mut headers: Vec<Header> = Vec::new();
    headers.push(
        Header {
            name: String::from_str("content-type"),
            value: String::from_str("text/event-stream"),
        },
    );
    headers.push(
        Header { name: String::from_str("cache-control"), value: String::from_str("no-cache") },
    );
    headers.push(
        Header { name: String::from_str("connection"), value: String::from_str("keep-alive") },
    );
    let reply = HttpReply { status: 200, headers, body: String::new() };
    assert(reply@.headers =~= events_reply().headers);
    reply
}

/// One frame of the event stream: an event as a data line, a gap as a
/// comment line that keeps the stream alive. Both end in an empty line.
pub open spec fn frame_of(event_json: Option<Seq<char>>) -> Seq<char> {
    match event_json {
        Some(json) => "data: "@ + json + "\n\n"@,
        None => ": keep-alive\n\n"@,
    }
}

/// Frames what a subscriber received: the JSON text of an event, or `None`
/// where the receiver reports that it fell behind and events were lost.
pub fn sse_frame(event_json: Option<&str>) -> (frame: String)
    ensures
        frame@ == frame_of(
            match event_json {
                Some(json) => Some(json@),
                None => None,
            },
        ),
{
    match event_json {
        Some(json) => join3("data: ", json, "\n\n"),
        None => String::from_str(": keep-alive\n\n"),
    }
}

} // verus!
