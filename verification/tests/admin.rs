use mesh_control::admin::{
    conclude_mesh_register, handle_mesh_events, handle_mesh_logs, handle_mesh_nodes,
    handle_mesh_register, is_post, respond_to_logs, route, sse_frame, AdminRoute, Header, HttpReply,
    Inbound, LogPayload, TOKEN_HEADER,
};
use mesh_control::heartbeat::{MeshHeartbeat, TransportType};
use mesh_control::registry::MeshRegistry;

fn heartbeat(name: &str) -> MeshHeartbeat {
    MeshHeartbeat {
        service_name: name.to_string(),
        transport: TransportType::Streamable,
        port: 9000,
        active_sessions: 0,
        pid: None,
        addr: None,
        sampling_supported: false,
        is_blessed: false,
    }
}

fn plain(status: u16, body: &str) -> HttpReply {
    HttpReply {
        status,
        headers: vec![Header { name: "content-type".to_string(), value: "text/plain".to_string() }],
        body: body.to_string(),
    }
}

fn registry_with(name: &str, token: &str) -> MeshRegistry {
    let mut registry = MeshRegistry::new();
    registry.register_at(heartbeat(name), Some(token.to_string()), 0, String::new()).unwrap();
    registry
}

#[test]
fn paths_route_to_their_endpoints() {
    assert_eq!(route("/mesh/register", true, false), AdminRoute::MeshRegister);
    assert_eq!(route("/mesh/nodes", true, false), AdminRoute::MeshNodes);
    assert_eq!(route("/mesh/events", true, false), AdminRoute::MeshEvents);
    assert_eq!(route("/mesh/logs", true, false), AdminRoute::MeshLogs);
    assert_eq!(route("/quitquitquit", true, false), AdminRoute::Shutdown);
    assert_eq!(route("/debug/tasks", true, false), AdminRoute::Tasks);
    assert_eq!(route("/config_dump", true, false), AdminRoute::ConfigDump);
    assert_eq!(route("/logging", true, false), AdminRoute::Logging);
    assert_eq!(route("/debug/pprof/profile", true, false), AdminRoute::PprofProfile);
    assert_eq!(route("/debug/pprof/heap", true, false), AdminRoute::PprofHeap);
    assert_eq!(route("/mesh/register", false, true), AdminRoute::MeshRegister);
}

#[test]
fn unowned_paths_fall_back_or_are_not_found() {
    assert_eq!(route("/", false, false), AdminRoute::Dashboard);
    assert_eq!(route("/", false, true), AdminRoute::Fallback);
    assert_eq!(route("/nothing", false, false), AdminRoute::NotFound);
    assert_eq!(route("/nothing", false, true), AdminRoute::Fallback);
    assert_eq!(route("", false, false), AdminRoute::NotFound);
    assert_eq!(route("/mesh/nodes/", false, false), AdminRoute::NotFound);
    assert_eq!(route("/mesh", false, false), AdminRoute::NotFound);
    assert_eq!(route("/debug/pprof/profile", false, false), AdminRoute::NotFound);
    assert_eq!(route("/debug/pprof/heap", false, true), AdminRoute::Fallback);
}

#[test]
fn register_wants_a_post() {
    let mut registry = MeshRegistry::new();
    let end = handle_mesh_register(&mut registry, None, Inbound::WrongMethod);
    assert_eq!(end, Err(HttpReply { status: 405, headers: vec![], body: String::new() }));
    assert!(registry.get_nodes().is_empty());
}

#[test]
fn register_reports_an_unreadable_body() {
    let mut registry = MeshRegistry::new();
    let end = handle_mesh_register(
        &mut registry,
        None,
        Inbound::Unreadable("connection reset".to_string()),
    );
    assert_eq!(end, Err(plain(400, "failed to read body: connection reset\n")));
}

#[test]
fn register_reports_a_heartbeat_that_does_not_parse() {
    let mut registry = MeshRegistry::new();
    let end = handle_mesh_register(
        &mut registry,
        Some("T".to_string()),
        Inbound::Body(Err("missing field `port` at line 1 column 25".to_string())),
    );
    assert_eq!(
        end,
        Err(plain(400, "failed to parse heartbeat: missing field `port` at line 1 column 25\n"))
    );
    assert!(registry.get_nodes().is_empty());
}

#[test]
fn register_denies_what_the_registry_refuses() {
    let mut registry = registry_with("tool-a", "T");
    let end = handle_mesh_register(&mut registry, None, Inbound::Body(Ok(heartbeat("tool-a"))));
    assert_eq!(
        end,
        Err(plain(403, "mesh registration denied: mesh token required for existing service tool-a\n"))
    );
    let end = handle_mesh_register(
        &mut registry,
        Some("X".to_string()),
        Inbound::Body(Ok(heartbeat("tool-a"))),
    );
    assert_eq!(
        end,
        Err(plain(403, "mesh registration denied: invalid mesh token for service tool-a\n"))
    );
}

#[test]
fn register_hands_an_accepted_heartbeat_on() {
    let mut registry = MeshRegistry::new();
    let pending = handle_mesh_register(
        &mut registry,
        Some("T".to_string()),
        Inbound::Body(Ok(heartbeat("tool-a"))),
    )
    .unwrap();
    assert_eq!(pending.token, "T");
    assert_eq!(pending.heartbeat, heartbeat("tool-a"));
    assert!(registry.validate_token("tool-a", "T"));
}

#[test]
fn a_settled_registration_is_answered_with_the_token() {
    let mut registry = MeshRegistry::new();
    let pending = registry.register_at(heartbeat("tool-a"), None, 0, "T0KEN".to_string()).unwrap();
    let (reply, actions) = conclude_mesh_register(pending, Ok(()));
    assert_eq!(TOKEN_HEADER, "X-Mesh-Token");
    assert_eq!(
        reply,
        HttpReply {
            status: 200,
            headers: vec![
                Header { name: "content-type".to_string(), value: "text/plain".to_string() },
                Header { name: "X-Mesh-Token".to_string(), value: "T0KEN".to_string() },
            ],
            body: "registered\n".to_string(),
        }
    );
    assert_eq!(actions.len(), 2);
}

#[test]
fn a_refused_projection_is_answered_with_the_stores_words() {
    let mut registry = MeshRegistry::new();
    let pending = registry.register_at(heartbeat("tool-a"), None, 0, "T".to_string()).unwrap();
    let (reply, actions) = conclude_mesh_register(pending, Err("[Rejected]".to_string()));
    assert_eq!(
        reply,
        plain(403, "mesh registration denied: failed to inject mesh resource: [Rejected]\n")
    );
    assert!(actions.is_empty());
}

#[test]
fn logs_are_forwarded_for_the_service_that_owns_the_token() {
    let registry = registry_with("tool-a", "T");
    let body = b"{\"serviceName\":\"tool-a\",\"logs\":[\"started\",{\"level\":\"warn\",\"n\":2},7]}".to_vec();
    let end = handle_mesh_logs(&registry, Some("T".to_string()), Inbound::Body(body));
    assert_eq!(end.reply, plain(200, "logs processed\n"));
    assert_eq!(end.service, "tool-a");
    assert_eq!(
        end.forwarded,
        vec![
            "String(\"started\")".to_string(),
            "Object {\"level\": String(\"warn\"), \"n\": Number(2)}".to_string(),
            "Number(7)".to_string(),
        ]
    );
}

#[test]
fn logs_without_a_list_are_processed_and_forward_nothing() {
    let registry = registry_with("tool-a", "T");
    let end = handle_mesh_logs(
        &registry,
        Some("T".to_string()),
        Inbound::Body(b"{\"serviceName\":\"tool-a\",\"logs\":\"not a list\"}".to_vec()),
    );
    assert_eq!(end.reply, plain(200, "logs processed\n"));
    assert!(end.forwarded.is_empty());
}

#[test]
fn logs_without_or_with_a_wrong_token_are_denied() {
    let registry = registry_with("tool-a", "T");
    let body = b"{\"serviceName\":\"tool-a\",\"logs\":[1]}".to_vec();
    let end = handle_mesh_logs(&registry, None, Inbound::Body(body.clone()));
    assert_eq!(end.reply, plain(403, "invalid mesh token\n"));
    assert!(end.forwarded.is_empty());
    let end = handle_mesh_logs(&registry, Some("X".to_string()), Inbound::Body(body));
    assert_eq!(end.reply, plain(403, "invalid mesh token\n"));
    assert!(end.forwarded.is_empty());
}

#[test]
fn logs_without_a_service_name_speak_for_unknown() {
    let registry = registry_with("unknown", "T");
    let end = handle_mesh_logs(
        &registry,
        Some("T".to_string()),
        Inbound::Body(b"{\"logs\":[null]}".to_vec()),
    );
    assert_eq!(end.reply.status, 200);
    assert_eq!(end.service, "unknown");
    assert_eq!(end.forwarded, vec!["Null".to_string()]);

    let other = registry_with("tool-a", "T");
    let end = handle_mesh_logs(
        &other,
        Some("T".to_string()),
        Inbound::Body(b"{\"serviceName\":5,\"logs\":[null]}".to_vec()),
    );
    assert_eq!(end.reply.status, 403);
    assert_eq!(end.service, "unknown");
}

#[test]
fn logs_that_are_not_json_are_a_bad_request() {
    let registry = registry_with("tool-a", "T");
    let end = handle_mesh_logs(&registry, Some("T".to_string()), Inbound::Body(b"{".to_vec()));
    assert_eq!(end.reply.status, 400);
    assert!(end.reply.body.starts_with("failed to parse log payload: "));
    assert!(end.reply.body.ends_with("\n"));
    assert!(end.reply.body.len() > "failed to parse log payload: \n".len());
    assert!(end.forwarded.is_empty());
}

#[test]
fn logs_want_a_post_and_a_readable_body() {
    let registry = registry_with("tool-a", "T");
    let end = handle_mesh_logs(&registry, Some("T".to_string()), Inbound::WrongMethod);
    assert_eq!(end.reply, HttpReply { status: 405, headers: vec![], body: String::new() });
    let end = handle_mesh_logs(
        &registry,
        Some("T".to_string()),
        Inbound::Unreadable("timed out".to_string()),
    );
    assert_eq!(end.reply, plain(400, "failed to read body: timed out\n"));
}

#[test]
fn a_parsed_payload_is_answered_by_the_same_rule() {
    let registry = registry_with("tool-a", "T");
    let payload = LogPayload {
        service_name: Some("tool-a".to_string()),
        logs: Some(vec!["one".to_string(), "two".to_string()]),
    };
    let end = respond_to_logs(&registry, Some("T".to_string()), Inbound::Body(Ok(payload)));
    assert_eq!(end.reply, plain(200, "logs processed\n"));
    assert_eq!(end.forwarded, vec!["one".to_string(), "two".to_string()]);
    let end = respond_to_logs(
        &registry,
        Some("T".to_string()),
        Inbound::Body(Err("expected value".to_string())),
    );
    assert_eq!(end.reply, plain(400, "failed to parse log payload: expected value\n"));
}

#[test]
fn nodes_are_answered_as_json() {
    let reply = handle_mesh_nodes(Ok("[]".to_string()));
    assert_eq!(
        reply,
        HttpReply {
            status: 200,
            headers: vec![Header {
                name: "content-type".to_string(),
                value: "application/json".to_string(),
            }],
            body: "[]".to_string(),
        }
    );
    let reply = handle_mesh_nodes(Err("key must be a string".to_string()));
    assert_eq!(reply, plain(500, "failed to serialize nodes: key must be a string\n"));
}

#[test]
fn the_event_stream_opens_with_its_headers() {
    let reply = handle_mesh_events();
    assert_eq!(reply.status, 200);
    assert_eq!(
        reply.headers,
        vec![
            Header { name: "content-type".to_string(), value: "text/event-stream".to_string() },
            Header { name: "cache-control".to_string(), value: "no-cache".to_string() },
            Header { name: "connection".to_string(), value: "keep-alive".to_string() },
        ]
    );
    assert_eq!(reply.body, "");
}

#[test]
fn events_are_framed_as_data_and_gaps_as_comments() {
    assert_eq!(
        sse_frame(Some("{\"nodeRemoved\":\"tool-b\"}")),
        "data: {\"nodeRemoved\":\"tool-b\"}\n\n"
    );
    assert_eq!(sse_frame(Some("")), "data: \n\n");
    assert_eq!(sse_frame(None), ": keep-alive\n\n");
}

#[test]
fn only_post_carries_a_body() {
    assert!(is_post("POST"));
    assert!(!is_post("GET"));
    assert!(!is_post("post"));
    assert!(!is_post("PUT"));
    assert!(!is_post(""));
    assert!(!is_post("POST "));
}
