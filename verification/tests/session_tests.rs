//! The per-message relay decisions of a proxying session.

use lspmux::error::MuxError;
use lspmux::instance::Instance;
use lspmux::jsonrpc::RequestId;
use lspmux::key::WorkspaceKey;
use lspmux::session::{
    relay_client_message, route_server_message, ClientAction, ClientMessage, ServerAction,
    ServerMessage,
};

fn live_instance() -> Instance {
    let key = WorkspaceKey {
        workspace_root: "/ws".to_string(),
        server: "srv".to_string(),
        args: Vec::new(),
    };
    let mut inst = Instance::fresh(0, key, 0);
    inst.set_live(1);
    inst.attach(1, 50001).expect("attach");
    inst.attach(2, 50002).expect("attach");
    inst
}

#[test]
fn request_is_forwarded_under_a_fresh_server_id() {
    let mut inst = live_instance();
    match relay_client_message(&mut inst, 1, ClientMessage::Request { id: RequestId::Number(7) }, 5)
    {
        ClientAction::Forward { server_id } => assert_eq!(server_id, 0),
        _ => panic!("request must be forwarded"),
    }
    assert_eq!(inst.last_used, 5);
    // The same client id on the other session forwards under another id.
    match relay_client_message(&mut inst, 2, ClientMessage::Request { id: RequestId::Number(7) }, 6)
    {
        ClientAction::Forward { server_id } => assert_eq!(server_id, 1),
        _ => panic!("request must be forwarded"),
    }
}

#[test]
fn duplicate_request_id_is_refused() {
    let mut inst = live_instance();
    relay_client_message(&mut inst, 1, ClientMessage::Request { id: RequestId::Number(7) }, 5);
    match relay_client_message(&mut inst, 1, ClientMessage::Request { id: RequestId::Number(7) }, 6)
    {
        ClientAction::Refuse(MuxError::ProtocolViolation) => {}
        _ => panic!("a live client id must be refused"),
    }
}

#[test]
fn cancel_is_translated_or_dropped() {
    let mut inst = live_instance();
    let sid = match relay_client_message(
        &mut inst,
        1,
        ClientMessage::Request { id: RequestId::Number(7) },
        5,
    ) {
        ClientAction::Forward { server_id } => server_id,
        _ => panic!("request must be forwarded"),
    };
    match relay_client_message(
        &mut inst,
        1,
        ClientMessage::CancelRequest { id: RequestId::Number(7) },
        6,
    ) {
        ClientAction::ForwardCancel { server_id } => assert_eq!(server_id, sid),
        _ => panic!("a live cancel must be translated"),
    }
    match relay_client_message(
        &mut inst,
        1,
        ClientMessage::CancelRequest { id: RequestId::Number(7) },
        7,
    ) {
        ClientAction::DropSilently => {}
        _ => panic!("an unknown cancel is a silent no-op"),
    }
}

#[test]
fn plain_notification_passes_and_refreshes() {
    let mut inst = live_instance();
    match relay_client_message(&mut inst, 1, ClientMessage::Notification, 9) {
        ClientAction::ForwardNotification => {}
        _ => panic!("notifications pass unmodified"),
    }
    assert_eq!(inst.last_used, 9);
}

#[test]
fn response_goes_back_to_its_session_with_its_id() {
    let mut inst = live_instance();
    relay_client_message(&mut inst, 2, ClientMessage::Request { id: RequestId::Number(4) }, 5);
    match route_server_message(&mut inst, &ServerMessage::Response { server_id: 0 }, 6) {
        ServerAction::DeliverResponse { session, client_id: RequestId::Number(4) } => {
            assert_eq!(session, 2)
        }
        _ => panic!("the response must reach session 2 with id 4"),
    }
    match route_server_message(&mut inst, &ServerMessage::Response { server_id: 0 }, 7) {
        ServerAction::Discard => {}
        _ => panic!("a second response for the id is discarded"),
    }
}

#[test]
fn server_notifications_broadcast_unless_token_owned() {
    let mut inst = live_instance();
    assert!(inst.register_token(2, RequestId::Number(88)));
    match route_server_message(
        &mut inst,
        &ServerMessage::Notification { progress_token: Some(RequestId::Number(88)) },
        5,
    ) {
        ServerAction::DeliverNotification { session } => assert_eq!(session, 2),
        _ => panic!("owned token must route to its owner"),
    }
    match route_server_message(
        &mut inst,
        &ServerMessage::Notification { progress_token: Some(RequestId::Number(99)) },
        6,
    ) {
        ServerAction::Broadcast => {}
        _ => panic!("unowned token must broadcast"),
    }
    match route_server_message(&mut inst, &ServerMessage::Notification { progress_token: None }, 7)
    {
        ServerAction::Broadcast => {}
        _ => panic!("id-less notifications broadcast"),
    }
}
