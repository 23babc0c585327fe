use mesh_control::heartbeat::{MeshHeartbeat, TransportType};
use mesh_control::projection::{
    evict_from_adp, project_to_adp, retraction_outcome, McpBackend, McpTarget, XdsUpdate,
    PROTOCOL_SSE, PROTOCOL_STREAMABLE_HTTP,
};
use mesh_control::text::{join, join3, str_eq};

fn heartbeat(name: &str, transport: TransportType, port: u16) -> MeshHeartbeat {
    MeshHeartbeat {
        service_name: name.to_string(),
        transport,
        port,
        active_sessions: 0,
        pid: None,
        addr: None,
        sampling_supported: false,
        is_blessed: false,
    }
}

#[test]
fn streamable_heartbeat_projects_onto_mcp_path() {
    let update = project_to_adp(&heartbeat("tool-a", TransportType::Streamable, 9000));
    assert_eq!(
        update,
        XdsUpdate::Update {
            name: "mesh-tool-a".to_string(),
            backend: McpBackend {
                key: "mesh-tool-a".to_string(),
                name: "tool-a".to_string(),
                namespace: "default".to_string(),
                targets: vec![McpTarget {
                    name: "primary".to_string(),
                    namespace: "default".to_string(),
                    hostname: "localhost".to_string(),
                    port: 9000,
                    path: "/mcp".to_string(),
                    protocol: 2,
                }],
                stateful_mode: 0,
                prefix_mode: 0,
            },
        }
    );
}

#[test]
fn sse_heartbeat_projects_onto_sse_path() {
    let update = project_to_adp(&heartbeat("tool-c", TransportType::Sse, 7777));
    match update {
        XdsUpdate::Update { name, backend } => {
            assert_eq!(name, "mesh-tool-c");
            assert_eq!(backend.key, "mesh-tool-c");
            assert_eq!(backend.targets.len(), 1);
            assert_eq!(backend.targets[0].path, "/sse");
            assert_eq!(backend.targets[0].port, 7777);
            assert_eq!(backend.targets[0].protocol, 1);
            assert_eq!(backend.targets[0].hostname, "localhost");
        },
        other => panic!("unexpected update {:?}", other),
    }
}

#[test]
fn transports_have_distinct_protocols() {
    assert_eq!(PROTOCOL_SSE, 1);
    assert_eq!(PROTOCOL_STREAMABLE_HTTP, 2);
    assert_ne!(PROTOCOL_SSE, PROTOCOL_STREAMABLE_HTTP);
}

#[test]
fn blessing_does_not_change_the_projection() {
    let plain = heartbeat("tool-a", TransportType::Sse, 1);
    let mut blessed = heartbeat("tool-a", TransportType::Sse, 1);
    blessed.is_blessed = true;
    assert_eq!(project_to_adp(&plain), project_to_adp(&blessed));
}

#[test]
fn highest_port_fits() {
    match project_to_adp(&heartbeat("edge", TransportType::Sse, u16::MAX)) {
        XdsUpdate::Update { backend, .. } => assert_eq!(backend.targets[0].port, 65535),
        other => panic!("unexpected update {:?}", other),
    }
}

#[test]
fn eviction_removes_the_resource_of_the_service() {
    assert_eq!(evict_from_adp("tool-b"), XdsUpdate::Remove("mesh-tool-b".to_string()));
    assert_eq!(evict_from_adp(""), XdsUpdate::Remove("mesh-".to_string()));
}

#[test]
fn strings_compare_by_their_characters() {
    assert!(str_eq("", ""));
    assert!(str_eq("mesh", "mesh"));
    assert!(!str_eq("mesh", "mesh-"));
    assert!(!str_eq("mesh", "mesH"));
    assert!(str_eq("gr\u{fc}n", "gr\u{fc}n"));
    assert!(!str_eq("gr\u{fc}n", "gru\u{308}n"));
}

#[test]
fn strings_join_in_order() {
    assert_eq!(join("mesh-", "tool"), "mesh-tool");
    assert_eq!(join("", ""), "");
    assert_eq!(join3("a", "b", "c"), "abc");
    assert_eq!(join3("data: ", "{}", "\n\n"), "data: {}\n\n");
}

#[test]
fn a_retraction_goes_through_exactly_if_the_store_takes_it() {
    assert_eq!(retraction_outcome(Ok(())), Ok(()));
    assert_eq!(
        retraction_outcome(Err("[Rejected(\"mesh-tool-b\")]".to_string())),
        Err("failed to evict mesh resource: [Rejected(\"mesh-tool-b\")]".to_string())
    );
    assert_eq!(
        retraction_outcome(Err(String::new())),
        Err("failed to evict mesh resource: ".to_string())
    );
}
