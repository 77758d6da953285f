//! The multiplexing engine: spawning, id translation, routing, garbage
//! collection, reload and status.

use lspmux::config::InstanceTimeout;
use lspmux::error::MuxError;
use lspmux::instance::NotificationRoute;
use lspmux::jsonrpc::RequestId;
use lspmux::key::WorkspaceKey;
use lspmux::registry::{GetOrSpawn, Registry};
use lspmux::lsp::InitializeResult;
use lspmux::status::snapshot;

fn key(root: &str) -> WorkspaceKey {
    WorkspaceKey {
        workspace_root: root.to_string(),
        server: "rust-analyzer".to_string(),
        args: Vec::new(),
    }
}

/// Spawn one live instance for `root` and return its registry id.
fn spawn_live(reg: &mut Registry, root: &str, now: u64, pid: u32) -> u64 {
    match reg.get_or_spawn(key(root), now) {
        GetOrSpawn::StartSpawn { id } => {
            reg.finish_spawn(id, pid).expect("finish_spawn");
            id
        }
        GetOrSpawn::Existing { .. } => panic!("instance existed already"),
    }
}

fn position(reg: &Registry, id: u64) -> usize {
    reg.find_by_id(id).expect("instance present")
}

#[test]
fn scenario_two_clients_one_workspace() {
    // Client A and client B both open file:///ws1 with the same server
    // command: exactly one instance is created.
    let mut reg = Registry::new();
    let id = match reg.get_or_spawn(key("file:///ws1"), 10) {
        GetOrSpawn::StartSpawn { id } => id,
        GetOrSpawn::Existing { .. } => panic!("first access must spawn"),
    };
    reg.finish_spawn(id, 4242).expect("finish_spawn");

    let before = reg.instances.len();
    match reg.get_or_spawn(key("file:///ws1"), 11) {
        GetOrSpawn::Existing { id: found, spawning } => {
            assert_eq!(found, id);
            assert!(!spawning);
        }
        GetOrSpawn::StartSpawn { .. } => panic!("second access must not spawn"),
    }
    assert_eq!(reg.instances.len(), before);

    let i = position(&reg, id);
    reg.instances[i].attach(1, 50001).expect("attach A");
    reg.instances[i].attach(2, 50002).expect("attach B");

    // A sends request id=1 "foo"; B concurrently sends request id=1
    // "bar". The server observes two distinct generated ids.
    let sid_a = reg.instances[i]
        .relay_request(1, RequestId::Number(1), 12)
        .expect("relay A");
    let sid_b = reg.instances[i]
        .relay_request(2, RequestId::Number(1), 13)
        .expect("relay B");
    assert_ne!(sid_a, sid_b);

    // When both responses arrive, each client gets its own id=1 back.
    match reg.instances[i].route_response(sid_b, 14) {
        Some((session, RequestId::Number(1))) => assert_eq!(session, 2),
        _ => panic!("response for B must restore B's id"),
    }
    match reg.instances[i].route_response(sid_a, 15) {
        Some((session, RequestId::Number(1))) => assert_eq!(session, 1),
        _ => panic!("response for A must restore A's id"),
    }
}

#[test]
fn string_ids_translate_like_numeric_ones() {
    let mut reg = Registry::new();
    let id = spawn_live(&mut reg, "/ws", 0, 1);
    let i = position(&reg, id);
    reg.instances[i].attach(7, 40000).expect("attach");
    let sid = reg.instances[i]
        .relay_request(7, RequestId::Text("req-alpha".to_string()), 1)
        .expect("relay");
    match reg.instances[i].route_response(sid, 2) {
        Some((7, RequestId::Text(t))) => assert_eq!(t, "req-alpha"),
        _ => panic!("string id must come back unchanged"),
    }
}

#[test]
fn duplicate_live_client_id_is_a_protocol_violation() {
    let mut reg = Registry::new();
    let id = spawn_live(&mut reg, "/ws", 0, 1);
    let i = position(&reg, id);
    reg.instances[i].attach(1, 40001).expect("attach");
    reg.instances[i]
        .relay_request(1, RequestId::Number(9), 1)
        .expect("first use");
    match reg.instances[i].relay_request(1, RequestId::Number(9), 2) {
        Err(MuxError::ProtocolViolation) => {}
        _ => panic!("reusing a live client id must be refused"),
    }
}

#[test]
fn response_for_unknown_id_is_discarded() {
    let mut reg = Registry::new();
    let id = spawn_live(&mut reg, "/ws", 0, 1);
    let i = position(&reg, id);
    assert!(reg.instances[i].route_response(77, 1).is_none());
}

#[test]
fn cancel_translates_and_retires_the_entry() {
    let mut reg = Registry::new();
    let id = spawn_live(&mut reg, "/ws", 0, 1);
    let i = position(&reg, id);
    reg.instances[i].attach(1, 40001).expect("attach");
    let sid = reg.instances[i]
        .relay_request(1, RequestId::Number(3), 1)
        .expect("relay");
    assert_eq!(reg.instances[i].relay_cancel(1, &RequestId::Number(3), 2), Some(sid));
    // The late response for a cancelled id is discarded.
    assert!(reg.instances[i].route_response(sid, 3).is_none());
}

#[test]
fn cancel_for_unknown_id_is_a_silent_no_op() {
    let mut reg = Registry::new();
    let id = spawn_live(&mut reg, "/ws", 0, 1);
    let i = position(&reg, id);
    reg.instances[i].attach(1, 40001).expect("attach");
    assert!(reg.instances[i].relay_cancel(1, &RequestId::Number(99), 1).is_none());
}

#[test]
fn detach_leaves_other_sessions_traffic_alone() {
    let mut reg = Registry::new();
    let id = spawn_live(&mut reg, "/ws", 0, 1);
    let i = position(&reg, id);
    reg.instances[i].attach(1, 40001).expect("attach A");
    reg.instances[i].attach(2, 40002).expect("attach B");
    let sid_a = reg.instances[i]
        .relay_request(1, RequestId::Number(1), 1)
        .expect("relay A");
    let sid_b = reg.instances[i]
        .relay_request(2, RequestId::Number(1), 2)
        .expect("relay B");

    // A disconnects: its entry is gone, B's pending request is not.
    reg.instances[i].detach(1);
    assert!(reg.instances[i].route_response(sid_a, 3).is_none());
    match reg.instances[i].route_response(sid_b, 4) {
        Some((2, RequestId::Number(1))) => {}
        _ => panic!("B's response must still be delivered"),
    }
    // And B can keep sending afterwards.
    assert!(reg.instances[i].relay_request(2, RequestId::Number(2), 5).is_ok());
}

#[test]
fn second_attach_of_one_session_is_refused() {
    let mut reg = Registry::new();
    let id = spawn_live(&mut reg, "/ws", 0, 1);
    let i = position(&reg, id);
    reg.instances[i].attach(1, 40001).expect("attach");
    assert!(matches!(reg.instances[i].attach(1, 40001), Err(MuxError::ProtocolViolation)));
}

#[test]
fn replay_is_owed_only_after_first_initialize() {
    let mut reg = Registry::new();
    let id = spawn_live(&mut reg, "/ws", 0, 1);
    let i = position(&reg, id);
    assert!(reg.instances[i].needs_initialize());
    reg.instances[i].mark_initialized(InitializeResult {
        capabilities: serde_json::Value::Null,
        server_info: None,
    });
    // A later session is handed the captured answer; the server never
    // sees a second initialize.
    assert!(!reg.instances[i].needs_initialize());
}

#[test]
fn owned_progress_token_routes_to_its_session_only() {
    let mut reg = Registry::new();
    let id = spawn_live(&mut reg, "/ws", 0, 1);
    let i = position(&reg, id);
    reg.instances[i].attach(1, 40001).expect("attach A");
    reg.instances[i].attach(2, 40002).expect("attach B");
    assert!(reg.instances[i].register_token(2, RequestId::Text("tok".to_string())));
    // First owner wins.
    assert!(!reg.instances[i].register_token(1, RequestId::Text("tok".to_string())));

    let owned = RequestId::Text("tok".to_string());
    match reg.instances[i].route_notification(Some(&owned)) {
        NotificationRoute::ToSession(2) => {}
        _ => panic!("owned token must route to its owner"),
    }
    let unowned = RequestId::Text("other".to_string());
    assert!(matches!(
        reg.instances[i].route_notification(Some(&unowned)),
        NotificationRoute::Broadcast
    ));
    assert!(matches!(reg.instances[i].route_notification(None), NotificationRoute::Broadcast));
}

#[test]
fn gc_reaps_idle_instance_past_timeout() {
    let mut reg = Registry::new();
    let id = spawn_live(&mut reg, "/ws", 100, 1);
    let removed = reg.gc_collect(200, &InstanceTimeout::After(50));
    assert_eq!(removed.len(), 1);
    assert_eq!(removed[0].id, id);
    assert!(reg.instances.is_empty());
}

#[test]
fn gc_keeps_instance_within_the_idle_window() {
    let mut reg = Registry::new();
    spawn_live(&mut reg, "/ws", 100, 1);
    let removed = reg.gc_collect(120, &InstanceTimeout::After(50));
    assert!(removed.is_empty());
    assert_eq!(reg.instances.len(), 1);
}

#[test]
fn gc_never_reaps_with_timeout_disabled() {
    let mut reg = Registry::new();
    spawn_live(&mut reg, "/ws", 0, 1);
    let removed = reg.gc_collect(u64::MAX, &InstanceTimeout::Disabled);
    assert!(removed.is_empty());
    assert_eq!(reg.instances.len(), 1);
}

#[test]
fn gc_spares_instances_with_attached_sessions() {
    let mut reg = Registry::new();
    let id = spawn_live(&mut reg, "/ws", 100, 1);
    let i = position(&reg, id);
    reg.instances[i].attach(1, 40001).expect("attach");
    let removed = reg.gc_collect(10_000, &InstanceTimeout::After(50));
    assert!(removed.is_empty());
    assert_eq!(reg.instances.len(), 1);
}

#[test]
fn spawn_failure_removes_the_record() {
    let mut reg = Registry::new();
    let id = match reg.get_or_spawn(key("/ws"), 0) {
        GetOrSpawn::StartSpawn { id } => id,
        _ => panic!("must spawn"),
    };
    reg.fail_spawn(id).expect("fail_spawn");
    assert!(reg.instances.is_empty());
    // The next access starts a fresh spawn.
    assert!(matches!(reg.get_or_spawn(key("/ws"), 1), GetOrSpawn::StartSpawn { .. }));
}

#[test]
fn finish_spawn_for_unknown_id_is_a_registry_error() {
    let mut reg = Registry::new();
    assert!(matches!(reg.finish_spawn(9, 1), Err(MuxError::Registry)));
}

#[test]
fn terminate_races_in_flight_spawn_as_registry_error() {
    let mut reg = Registry::new();
    let id = match reg.get_or_spawn(key("/ws"), 0) {
        GetOrSpawn::StartSpawn { id } => id,
        _ => panic!("must spawn"),
    };
    assert!(matches!(reg.terminate(id), Err(MuxError::Registry)));
    reg.finish_spawn(id, 7).expect("finish_spawn");
    let inst = reg.terminate(id).expect("terminate live");
    assert_eq!(inst.id, id);
    assert!(reg.instances.is_empty());
}

#[test]
fn reload_targets_instances_under_the_given_directory() {
    let mut reg = Registry::new();
    let id1 = spawn_live(&mut reg, "/ws1", 0, 1);
    let _id2 = spawn_live(&mut reg, "/ws2", 0, 2);
    let targets = reg.reload_targets(&"/ws1/crate/src".to_string());
    assert_eq!(targets, vec![id1]);
    for id in targets {
        reg.terminate(id).expect("terminate");
    }
    assert_eq!(reg.instances.len(), 1);
    // The next use of /ws1 respawns.
    assert!(matches!(reg.get_or_spawn(key("/ws1"), 5), GetOrSpawn::StartSpawn { .. }));
}

#[test]
fn status_reports_exactly_the_attached_sessions() {
    let mut reg = Registry::new();
    let id1 = spawn_live(&mut reg, "/ws1", 40, 4001);
    let id2 = spawn_live(&mut reg, "/ws2", 41, 4002);
    let i1 = position(&reg, id1);
    reg.instances[i1].attach(1, 50001).expect("attach");
    reg.instances[i1].attach(2, 50002).expect("attach");
    let i2 = position(&reg, id2);
    reg.instances[i2].attach(3, 50003).expect("attach");
    // A third instance whose spawn is still in flight is not listed.
    match reg.get_or_spawn(key("/ws3"), 42) {
        GetOrSpawn::StartSpawn { .. } => {}
        _ => panic!("must spawn"),
    }

    let status = snapshot(&reg);
    assert_eq!(status.instances.len(), 2);
    assert_eq!(status.instances[0].pid, 4001);
    assert_eq!(status.instances[0].workspace_root, "/ws1");
    assert_eq!(status.instances[0].server, "rust-analyzer");
    let ports: Vec<u16> = status.instances[0].clients.iter().map(|c| c.port).collect();
    assert_eq!(ports, vec![50001, 50002]);
    assert_eq!(status.instances[1].pid, 4002);
    let ports2: Vec<u16> = status.instances[1].clients.iter().map(|c| c.port).collect();
    assert_eq!(ports2, vec![50003]);
}

#[test]
fn detach_then_status_drops_the_client_entry() {
    let mut reg = Registry::new();
    let id = spawn_live(&mut reg, "/ws", 0, 9);
    let i = position(&reg, id);
    reg.instances[i].attach(1, 50001).expect("attach");
    reg.instances[i].attach(2, 50002).expect("attach");
    reg.instances[i].detach(1);
    let status = snapshot(&reg);
    let ports: Vec<u16> = status.instances[0].clients.iter().map(|c| c.port).collect();
    assert_eq!(ports, vec![50002]);
}

#[test]
fn relaying_refreshes_last_used() {
    let mut reg = Registry::new();
    let id = spawn_live(&mut reg, "/ws", 100, 1);
    let i = position(&reg, id);
    reg.instances[i].attach(1, 40001).expect("attach");
    reg.instances[i]
        .relay_request(1, RequestId::Number(1), 500)
        .expect("relay");
    assert_eq!(reg.instances[i].last_used, 500);
    // Refreshed activity keeps the instance out of the sweep.
    reg.instances[i].detach(1);
    let removed = reg.gc_collect(510, &InstanceTimeout::After(50));
    assert!(removed.is_empty());
}

#[test]
fn terminate_by_key_matches_terminate_by_id() {
    let mut reg = Registry::new();
    spawn_live(&mut reg, "/ws1", 0, 11);
    let id2 = spawn_live(&mut reg, "/ws2", 0, 22);
    let inst = reg.terminate_key(&key("/ws2")).expect("terminate by key");
    assert_eq!(inst.id, id2);
    assert_eq!(reg.instances.len(), 1);
    assert!(matches!(reg.terminate_key(&key("/ws2")), Err(MuxError::Registry)));
}
