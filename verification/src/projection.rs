//! What a heartbeat stands for in the configuration store: one MCP backend
//! with a single target on localhost.

use vstd::prelude::*;
use crate::heartbeat::{HeartbeatView, MeshHeartbeat, TransportType};
use crate::text::join;

verus! {

/// Protocol discriminator of a target that speaks server-sent events.
pub const PROTOCOL_SSE: i32 = 1;

/// Protocol discriminator of a target that speaks streamable HTTP.
pub const PROTOCOL_STREAMABLE_HTTP: i32 = 2;

/// The one target of a projected backend.
#[derive(Debug, PartialEq, Eq)]
pub struct McpTarget {
    pub name: String,
    pub namespace: String,
    pub hostname: String,
    pub port: u32,
    pub path: String,
    pub protocol: i32,
}

/// A target as a mathematical value.
pub struct TargetView {
    pub name: Seq<char>,
    pub namespace: Seq<char>,
    pub hostname: Seq<char>,
    pub port: u32,
    pub path: Seq<char>,
    pub protocol: i32,
}

impl View for McpTarget {
    type V = TargetView;

    open spec fn view(&self) -> TargetView {
        TargetView {
            name: self.name@,
            namespace: self.namespace@,
            hostname: self.hostname@,
            port: self.port,
            path: self.path@,
            protocol: self.protocol,
        }
    }
}

/// The backend resource that a node is projected as.
#[derive(Debug, PartialEq, Eq)]
pub struct McpBackend {
    pub key: String,
    pub name: String,
    pub namespace: String,
    pub targets: Vec<McpTarget>,
    pub stateful_mode: i32,
    pub prefix_mode: i32,
}

/// A backend as a mathematical value.
pub struct BackendView {
    pub key: Seq<char>,
    pub name: Seq<char>,
    pub namespace: Seq<char>,
    pub targets: Seq<TargetView>,
    pub stateful_mode: i32,
    pub prefix_mode: i32,
}

impl View for McpBackend {
    type V = BackendView;

    open spec fn view(&self) -> BackendView {
        BackendView {
            key: self.key@,
            name: self.name@,
            namespace: self.namespace@,
            targets: Seq::new(self.targets@.len(), |i: int| self.targets@[i]@),
            stateful_mode: self.stateful_mode,
            prefix_mode: self.prefix_mode,
        }
    }
}

/// One operation on the configuration store, keyed by resource name.
#[derive(Debug, PartialEq, Eq)]
pub enum XdsUpdate {
    Update { name: String, backend: McpBackend },
    Remove(String),
}

/// A store operation as a mathematical value.
pub enum UpdateView {
    Update { name: Seq<char>, backend: BackendView },
    Remove(Seq<char>),
}

impl View for XdsUpdate {
    type V = UpdateView;

    open spec fn view(&self) -> UpdateView {
        match self {
            XdsUpdate::Update { name, backend } => UpdateView::Update {
                name: name@,
                backend: backend@,
            },
            XdsUpdate::Remove(name) => UpdateView::Remove(name@),
        }
    }
}

/// The store's name for the resource of a service.
pub open spec fn backend_key(service_name: Seq<char>) -> Seq<char> {
    "mesh-"@ + service_name
}

/// The URL path on which a transport is served.
pub open spec fn transport_path(transport: TransportType) -> Seq<char> {
    match transport {
        TransportType::Sse => "/sse"@,
        TransportType::Streamable => "/mcp"@,
    }
}

/// The protocol discriminator of a transport.
pub open spec fn transport_protocol(transport: TransportType) -> i32 {
    match transport {
        TransportType::Sse => PROTOCOL_SSE,
        TransportType::Streamable => PROTOCOL_STREAMABLE_HTTP,
    }
}

/// The backend a heartbeat is projected as.
pub open spec fn projected_backend(hb: HeartbeatView) -> BackendView {
    BackendView {
        key: backend_key(hb.service_name),
        name: hb.service_name,
        namespace: "default"@,
        targets: seq![
            TargetView {
                name: "primary"@,
                namespace: "default"@,
                hostname: "localhost"@,
                port: hb.port as u32,
                path: transport_path(hb.transport),
                protocol: transport_protocol(hb.transport),
            },
        ],
        stateful_mode: 0,
        prefix_mode: 0,
    }
}

/// The store operation that projects a heartbeat.
pub open spec fn projection(hb: HeartbeatView) -> UpdateView {
    UpdateView::Update { name: backend_key(hb.service_name), backend: projected_backend(hb) }
}

/// The store operation that retracts a service.
pub open spec fn retraction(service_name: Seq<char>) -> UpdateView {
    UpdateView::Remove(backend_key(service_name))
}

/// Builds the store operation that makes a heartbeat's service a backend:
/// resource `mesh-<service>` in namespace `default`, with the single target
/// `primary` at `localhost` on the heartbeat's port, served on `/sse` or
/// `/mcp` as the transport says.
///
/// The blessing plays no part: heartbeats that differ only in it project
/// alike.
pub fn project_to_adp(hb: &MeshHeartbeat) -> (update: XdsUpdate)
    ensures
        update@ == projection(hb@),
        update@ == projection(hb@.with_blessing(!hb@.is_blessed)),
{
    let backend_key = join("mesh-", hb.service_name.as_str());
    let (path, protocol) = match hb.transport {
        TransportType::Sse => (String::from_str("/sse"), PROTOCOL_SSE),
        TransportType::Streamable => (String::from_str("/mcp"), PROTOCOL_STREAMABLE_HTTP),
    };
    let target = McpTarget {
        name: String::from_str("primary"),
        namespace: String::from_str("default"),
        hostname: String::from_str("localhost"),
        port: hb.port as u32,
        path,
        protocol,
    };
    let mut targets: Vec<McpTarget> = Vec::new();
    targets.push(target);
    let backend = McpBackend {
        key: backend_key.clone(),
        name: hb.service_name.clone(),
        namespace: String::from_str("default"),
        targets,
        stateful_mode: 0,
        prefix_mode: 0,
    };
    assert(backend@.targets =~= projected_backend(hb@).targets);
    XdsUpdate::Update { name: backend_key, backend }
}

/// Builds the store operation that takes a service's backend away.
pub fn evict_from_adp(service_name: &str) -> (update: XdsUpdate)
    ensures
        update@ == retraction(service_name@),
{
    XdsUpdate::Remove(join("mesh-", service_name))
}

/// What a retraction that the store refused is reported as.
pub open spec fn retraction_failure(detail: Seq<char>) -> Seq<char> {
    "failed to evict mesh resource: "@ + detail
}

/// What becomes of a retraction once the store has answered. It went
/// through exactly if the store took it; else the store's words are kept
/// behind the words that say what failed. The node is gone from the
/// registry either way: the failure is for the log.
pub fn retraction_outcome(answer: Result<(), String>) -> (outcome: Result<(), String>)
    ensures
        match answer {
            Ok(_) => outcome is Ok,
            Err(detail) => outcome matches Err(text) && text@ == retraction_failure(detail@),
        },
{
    match answer {
        Ok(_) => Ok(()),
        Err(detail) => Err(join("failed to evict mesh resource: ", detail.as_str())),
    }
}

} // verus!
