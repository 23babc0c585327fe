use std::collections::BTreeMap;
use std::path::PathBuf;

use mesh_control::admin::{
    conclude_mesh_register, handle_mesh_logs, handle_mesh_nodes, handle_mesh_register, HttpReply,
    Inbound,
};
use mesh_control::effects::{JournalMetadata, MeshAction};
use mesh_control::heartbeat::{MeshEvent, MeshHeartbeat, TransportType};
use mesh_control::ledger::RecoveryLedger;
use mesh_control::projection::{McpBackend, XdsUpdate};
use mesh_control::registry::MeshRegistry;
use tokio::sync::broadcast::error::TryRecvError;

/// What stands around the registry in a gateway, reduced to memory.
struct Gateway {
    registry: MeshRegistry,
    ledger: RecoveryLedger,
    store: BTreeMap<String, McpBackend>,
    store_is_up: bool,
    journal: Vec<String>,
}

fn wire_transport(transport: TransportType) -> &'static str {
    match transport {
        TransportType::Sse => "sse",
        TransportType::Streamable => "streamable",
    }
}

fn wire_heartbeat(hb: &MeshHeartbeat) -> serde_json::Value {
    let mut members = serde_json::Map::new();
    members.insert("serviceName".to_string(), serde_json::Value::from(hb.service_name.clone()));
    members.insert("transport".to_string(), serde_json::Value::from(wire_transport(hb.transport)));
    members.insert("port".to_string(), serde_json::Value::from(hb.port));
    members.insert("activeSessions".to_string(), serde_json::Value::from(hb.active_sessions));
    members.insert("pid".to_string(), serde_json::Value::from(hb.pid));
    members.insert("addr".to_string(), serde_json::Value::Null);
    members.insert("samplingSupported".to_string(), serde_json::Value::from(hb.sampling_supported));
    members.insert("isBlessed".to_string(), serde_json::Value::from(hb.is_blessed));
    serde_json::Value::Object(members)
}

fn parse_heartbeat(body: &str) -> Result<MeshHeartbeat, String> {
    let value: serde_json::Value = serde_json::from_str(body).map_err(|e| e.to_string())?;
    let transport = match value.get("transport").and_then(|t| t.as_str()) {
        Some("sse") => TransportType::Sse,
        Some("streamable") => TransportType::Streamable,
        _ => return Err("unknown transport".to_string()),
    };
    Ok(MeshHeartbeat {
        service_name: value
            .get("serviceName")
            .and_then(|n| n.as_str())
            .ok_or("missing field `serviceName`")?
            .to_string(),
        transport,
        port: value.get("port").and_then(|p| p.as_u64()).ok_or("missing field `port`")? as u16,
        active_sessions: value
            .get("activeSessions")
            .and_then(|p| p.as_u64())
            .ok_or("missing field `activeSessions`")? as usize,
        pid: None,
        addr: None,
        sampling_supported: value
            .get("samplingSupported")
            .and_then(|b| b.as_bool())
            .unwrap_or(false),
        is_blessed: value.get("isBlessed").and_then(|b| b.as_bool()).unwrap_or(false),
    })
}

impl Gateway {
    fn new() -> Gateway {
        Gateway {
            registry: MeshRegistry::new(),
            ledger: RecoveryLedger::new(PathBuf::from("journal.jsonl")),
            store: BTreeMap::new(),
            store_is_up: true,
            journal: Vec::new(),
        }
    }

    fn apply(&mut self, update: XdsUpdate) -> Result<(), String> {
        if !self.store_is_up {
            return Err("store is down".to_string());
        }
        match update {
            XdsUpdate::Update { name, backend } => {
                self.store.insert(name, backend);
            },
            XdsUpdate::Remove(name) => {
                self.store.remove(&name);
            },
        }
        Ok(())
    }

    fn perform(&mut self, actions: Vec<MeshAction>) {
        for action in actions {
            match action {
                MeshAction::Apply(update) => {
                    let _ = self.apply(update);
                },
                MeshAction::Journal(note) => {
                    let metadata = match &note.metadata {
                        JournalMetadata::Heartbeat(hb) => wire_heartbeat(hb).to_string(),
                        JournalMetadata::Json(text) => text.clone(),
                    };
                    let entry = self.ledger.log(&note.service, &note.event, &metadata);
                    self.journal.push(entry.to_line());
                },
                MeshAction::Publish(event) => self.registry.publish(event),
            }
        }
    }

    fn post_register(&mut self, token: Option<&str>, body: &str) -> HttpReply {
        let inbound = Inbound::Body(parse_heartbeat(body));
        match handle_mesh_register(&mut self.registry, token.map(|t| t.to_string()), inbound) {
            Err(reply) => reply,
            Ok(pending) => {
                let projected = self.apply(pending.update());
                let (reply, actions) = conclude_mesh_register(pending, projected);
                self.perform(actions);
                reply
            },
        }
    }

    fn get_nodes(&self) -> HttpReply {
        let nodes: Vec<serde_json::Value> =
            self.registry.get_nodes().iter().map(wire_heartbeat).collect();
        handle_mesh_nodes(serde_json::to_string_pretty(&nodes).map_err(|e| e.to_string()))
    }

    fn reap(&mut self, now: u128) {
        let evicted = self.registry.evict_stale(now);
        let actions = mesh_control::effects::actions_for_evictions(&evicted);
        self.perform(actions);
    }
}

fn header<'a>(reply: &'a HttpReply, name: &str) -> Option<&'a str> {
    reply.headers.iter().find(|h| h.name.eq_ignore_ascii_case(name)).map(|h| h.value.as_str())
}

fn journal_record(line: &str) -> serde_json::Value {
    assert!(line.ends_with('\n'));
    assert_eq!(line.matches('\n').count(), 1);
    serde_json::from_str(line).unwrap()
}

const TOOL_A: &str =
    "{\"serviceName\":\"tool-a\",\"transport\":\"streamable\",\"port\":9000,\"activeSessions\":0}";
const TOOL_A_BUSY: &str =
    "{\"serviceName\":\"tool-a\",\"transport\":\"streamable\",\"port\":9000,\"activeSessions\":7}";
const TOOL_B: &str =
    "{\"serviceName\":\"tool-b\",\"transport\":\"streamable\",\"port\":9001,\"activeSessions\":0}";
const TOOL_C: &str =
    "{\"serviceName\":\"tool-c\",\"transport\":\"sse\",\"port\":7777,\"activeSessions\":0}";

#[test]
fn first_registration_without_token() {
    let mut gateway = Gateway::new();
    let reply = gateway.post_register(None, TOOL_A);
    assert_eq!(reply.status, 200);
    assert_eq!(reply.body, "registered\n");
    let token = header(&reply, "X-Mesh-Token").unwrap().to_string();
    assert_eq!(token.len(), 32);
    assert!(token.chars().all(|c| c.is_ascii_alphanumeric()));

    let listing = gateway.get_nodes();
    assert_eq!(listing.status, 200);
    assert_eq!(header(&listing, "content-type"), Some("application/json"));
    let nodes: serde_json::Value = serde_json::from_str(&listing.body).unwrap();
    let nodes = nodes.as_array().unwrap();
    assert_eq!(nodes.len(), 1);
    assert_eq!(nodes[0].get("serviceName").unwrap(), "tool-a");
    assert_eq!(nodes[0].get("isBlessed").unwrap(), false);

    let backend = gateway.store.get("mesh-tool-a").unwrap();
    assert_eq!(backend.targets.len(), 1);
    assert_eq!(backend.targets[0].hostname, "localhost");
    assert_eq!(backend.targets[0].port, 9000);
    assert_eq!(backend.targets[0].path, "/mcp");

    assert_eq!(gateway.journal.len(), 1);
    let record = journal_record(&gateway.journal[0]);
    assert_eq!(record.get("event").unwrap(), "register");
    assert_eq!(record.get("service").unwrap(), "tool-a");
    assert_eq!(record.get("metadata").unwrap().get("port").unwrap(), 9000);
}

#[test]
fn reregistration_with_correct_token() {
    let mut gateway = Gateway::new();
    let first = gateway.post_register(None, TOOL_A);
    let token = header(&first, "X-Mesh-Token").unwrap().to_string();
    let mut subscriber = gateway.registry.subscribe();

    let reply = gateway.post_register(Some(&token), TOOL_A_BUSY);
    assert_eq!(reply.status, 200);
    assert_eq!(header(&reply, "X-Mesh-Token"), Some(token.as_str()));
    let nodes = gateway.registry.get_nodes();
    assert_eq!(nodes.len(), 1);
    assert!(nodes[0].is_blessed);
    assert_eq!(nodes[0].active_sessions, 7);

    match subscriber.try_recv() {
        Ok(MeshEvent::NodeUpdated(hb)) => {
            assert_eq!(hb.service_name, "tool-a");
            assert_eq!(hb.active_sessions, 7);
            assert!(hb.is_blessed);
        },
        other => panic!("unexpected {:?}", other),
    }
    assert_eq!(subscriber.try_recv(), Err(TryRecvError::Empty));
    assert_eq!(gateway.journal.len(), 2);
}

#[test]
fn reregistration_with_wrong_token() {
    let mut gateway = Gateway::new();
    let first = gateway.post_register(None, TOOL_A);
    let token = header(&first, "X-Mesh-Token").unwrap().to_string();
    let mut subscriber = gateway.registry.subscribe();
    let before = gateway.registry.get_nodes();

    let reply = gateway.post_register(Some("X"), TOOL_A_BUSY);
    assert_eq!(reply.status, 403);
    assert_eq!(reply.body, "mesh registration denied: invalid mesh token for service tool-a\n");
    assert_eq!(header(&reply, "X-Mesh-Token"), None);
    assert_eq!(gateway.registry.get_nodes(), before);
    assert!(gateway.registry.validate_token("tool-a", &token));
    assert_eq!(subscriber.try_recv(), Err(TryRecvError::Empty));
    assert_eq!(gateway.journal.len(), 1);
}

#[test]
fn reregistration_without_token() {
    let mut gateway = Gateway::new();
    gateway.post_register(None, TOOL_A);
    let reply = gateway.post_register(None, TOOL_A_BUSY);
    assert_eq!(reply.status, 403);
    assert_eq!(
        reply.body,
        "mesh registration denied: mesh token required for existing service tool-a\n"
    );
    assert_eq!(gateway.journal.len(), 1);
    assert_eq!(gateway.registry.get_nodes()[0].active_sessions, 0);
}

#[test]
fn logs_from_unknown_service() {
    let mut gateway = Gateway::new();
    let first = gateway.post_register(None, TOOL_A);
    let token = header(&first, "X-Mesh-Token").unwrap().to_string();
    let body = b"{\"serviceName\":\"ghost\",\"logs\":[{\"msg\":\"boo\"}]}".to_vec();
    let end = handle_mesh_logs(&gateway.registry, Some(token), Inbound::Body(body));
    assert_eq!(end.reply.status, 403);
    assert_eq!(end.reply.body, "invalid mesh token\n");
    assert!(end.forwarded.is_empty());
}

#[test]
fn reaper_eviction() {
    let mut gateway = Gateway::new();
    let pending = gateway
        .registry
        .register_at(parse_heartbeat(TOOL_B).unwrap(), None, 1_000, "T".to_string())
        .unwrap();
    let projected = gateway.apply(pending.update());
    let (reply, actions) = conclude_mesh_register(pending, projected);
    assert_eq!(reply.status, 200);
    gateway.perform(actions);
    assert!(gateway.store.contains_key("mesh-tool-b"));
    let mut subscriber = gateway.registry.subscribe();

    gateway.reap(1_000 + 90_000_000_000);
    assert_eq!(gateway.registry.get_nodes().len(), 1);
    assert_eq!(subscriber.try_recv(), Err(TryRecvError::Empty));

    gateway.reap(1_000 + 90_000_000_001);
    let listing = gateway.get_nodes();
    assert_eq!(listing.body, "[]");
    assert_eq!(subscriber.try_recv(), Ok(MeshEvent::NodeRemoved("tool-b".to_string())));
    assert_eq!(subscriber.try_recv(), Err(TryRecvError::Empty));
    assert!(!gateway.store.contains_key("mesh-tool-b"));
    assert_eq!(gateway.journal.len(), 2);
    let record = journal_record(&gateway.journal[1]);
    assert_eq!(record.get("event").unwrap(), "evict");
    assert_eq!(record.get("service").unwrap(), "tool-b");
    assert_eq!(record.get("metadata").unwrap().get("reason").unwrap(), "timeout");
    assert_eq!(record.get("metadata").unwrap().as_object().unwrap().len(), 1);
}

#[test]
fn sse_transport_projection() {
    let mut gateway = Gateway::new();
    let reply = gateway.post_register(None, TOOL_C);
    assert_eq!(reply.status, 200);
    let backend = gateway.store.get("mesh-tool-c").unwrap();
    assert_eq!(backend.key, "mesh-tool-c");
    assert_eq!(backend.name, "tool-c");
    assert_eq!(backend.namespace, "default");
    assert_eq!(backend.targets[0].name, "primary");
    assert_eq!(backend.targets[0].path, "/sse");
    assert_eq!(backend.targets[0].port, 7777);
}

#[test]
fn empty_mesh_lists_an_empty_array() {
    let gateway = Gateway::new();
    let listing = gateway.get_nodes();
    assert_eq!(listing.status, 200);
    assert_eq!(listing.body, "[]");
}

#[test]
fn refused_projection_is_denied_and_healed_by_the_next_heartbeat() {
    let mut gateway = Gateway::new();
    let mut subscriber = gateway.registry.subscribe();
    gateway.store_is_up = false;
    let reply = gateway.post_register(Some("T"), TOOL_A);
    assert_eq!(reply.status, 403);
    assert_eq!(
        reply.body,
        "mesh registration denied: failed to inject mesh resource: store is down\n"
    );
    assert_eq!(gateway.registry.get_nodes().len(), 1);
    assert!(gateway.store.is_empty());
    assert!(gateway.journal.is_empty());
    assert_eq!(subscriber.try_recv(), Err(TryRecvError::Empty));

    gateway.store_is_up = true;
    let reply = gateway.post_register(Some("T"), TOOL_A_BUSY);
    assert_eq!(reply.status, 200);
    assert_eq!(header(&reply, "X-Mesh-Token"), Some("T"));
    assert!(gateway.store.contains_key("mesh-tool-a"));
    assert_eq!(gateway.journal.len(), 1);
    assert!(matches!(subscriber.try_recv(), Ok(MeshEvent::NodeUpdated(_))));
}

#[test]
fn events_about_a_service_are_the_life_of_a_node() {
    let mut gateway = Gateway::new();
    let mut subscriber = gateway.registry.subscribe();
    let second: u128 = 1_000_000_000;
    for (token, now) in [(None, 0), (Some("T"), 10 * second)] {
        let pending = gateway
            .registry
            .register_at(parse_heartbeat(TOOL_B).unwrap(), token.map(str::to_string), now, "T".to_string())
            .unwrap();
        let projected = gateway.apply(pending.update());
        let (_, actions) = conclude_mesh_register(pending, projected);
        gateway.perform(actions);
    }
    gateway.post_register(None, TOOL_A);
    gateway.reap(101 * second);
    gateway.reap(102 * second);
    let pending = gateway
        .registry
        .register_at(parse_heartbeat(TOOL_B).unwrap(), None, 103 * second, "U".to_string())
        .unwrap();
    let projected = gateway.apply(pending.update());
    let (_, actions) = conclude_mesh_register(pending, projected);
    gateway.perform(actions);

    let mut about_b = Vec::new();
    loop {
        match subscriber.try_recv() {
            Ok(MeshEvent::NodeUpdated(hb)) if hb.service_name == "tool-b" => about_b.push("updated"),
            Ok(MeshEvent::NodeRemoved(name)) if name == "tool-b" => about_b.push("removed"),
            Ok(_) => {},
            Err(_) => break,
        }
    }
    assert_eq!(about_b, vec!["updated", "updated", "removed", "updated"]);

    // the journal replays every live node: a register record with no evict after it
    for hb in gateway.registry.get_nodes() {
        let records: Vec<serde_json::Value> =
            gateway.journal.iter().map(|line| journal_record(line)).collect();
        let last_register = records
            .iter()
            .rposition(|r| r.get("service").unwrap() == hb.service_name.as_str()
                && r.get("event").unwrap() == "register")
            .unwrap();
        assert!(records[last_register + 1..].iter().all(|r| {
            !(r.get("service").unwrap() == hb.service_name.as_str()
                && r.get("event").unwrap() == "evict")
        }));
        assert!(gateway.store.contains_key(&format!("mesh-{}", hb.service_name)));
    }
}
