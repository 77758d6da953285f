//! The duplex relay of a proxying session: what happens to each message.
//!
//! After the handshake a proxying session relays messages in both
//! directions. Client requests get a fresh server-facing id; cancel
//! notifications have their target id translated through the same table,
//! and a cancel naming an unknown id is silently dropped; other
//! notifications pass unchanged. Server responses are delivered to the
//! one session whose table entry carries the server id, with the original
//! client id restored; id-less server notifications are broadcast unless
//! a progress token routes them to one owner. Every relayed message
//! refreshes the instance's last_used time.

use vstd::prelude::*;

use crate::error::MuxError;
use crate::instance::{
    client_id_live, server_id_live, token_owned, Instance, NotificationRoute, PendingRequest,
};
use crate::jsonrpc::{id_eq, RequestId};

verus! {

/// A client-to-server message, as far as the relay inspects it.
pub enum ClientMessage {
    /// A request carrying the client's chosen id.
    Request { id: RequestId },
    /// A cancel notification naming the request to abandon.
    CancelRequest { id: RequestId },
    /// Any other notification; the relay does not look inside.
    Notification,
}

/// What to do with a client-to-server message.
pub enum ClientAction {
    /// Forward the request with its id rewritten to this server id.
    Forward { server_id: u64 },
    /// Forward the notification unmodified.
    ForwardNotification,
    /// Forward the cancel with its target rewritten to this server id.
    ForwardCancel { server_id: u64 },
    /// Say nothing to the server: a cancel for an id with no live entry
    /// is a no-op, not an error.
    DropSilently,
    /// Answer the client with this error; the server sees nothing.
    Refuse(MuxError),
}

/// Decide, and record, what happens to one client-to-server message.
pub fn relay_client_message(
    inst: &mut Instance,
    session: u64,
    msg: ClientMessage,
    now: u64,
) -> (r: ClientAction)
    requires
        old(inst).wf(),
        crate::instance::session_attached(old(inst).sessions@, session),
        old(inst).next_server_id < u64::MAX,
    ensures
        final(inst).wf(),
        final(inst).sessions == old(inst).sessions,
        final(inst).tokens == old(inst).tokens,
        final(inst).id == old(inst).id,
        final(inst).key == old(inst).key,
        final(inst).phase == old(inst).phase,
        final(inst).init_result == old(inst).init_result,
        msg matches ClientMessage::Request { id } ==> {
            &&& !client_id_live(old(inst).pending@, session, id) ==> {
                &&& r == (ClientAction::Forward { server_id: old(inst).next_server_id })
                &&& final(inst).pending@ == old(inst).pending@.push(
                    PendingRequest { server_id: old(inst).next_server_id, session, client_id: id },
                )
                &&& final(inst).next_server_id == old(inst).next_server_id + 1
                &&& final(inst).last_used == now
            }
            &&& client_id_live(old(inst).pending@, session, id) ==> r == ClientAction::Refuse(
                MuxError::ProtocolViolation,
            ) && *final(inst) == *old(inst)
        },
        msg matches ClientMessage::CancelRequest { id } ==> {
            &&& final(inst).last_used == now
            &&& final(inst).next_server_id == old(inst).next_server_id
            &&& !client_id_live(old(inst).pending@, session, id) ==> r
                == ClientAction::DropSilently && final(inst).pending@ == old(inst).pending@
            &&& forall|i: int|
                0 <= i < old(inst).pending@.len() && old(inst).pending@[i].session == session
                    && id_eq(#[trigger] old(inst).pending@[i].client_id, id) ==> r
                    == (ClientAction::ForwardCancel { server_id: old(inst).pending@[i].server_id })
                    && final(inst).pending@ == old(inst).pending@.remove(i)
        },
        msg is Notification ==> r == ClientAction::ForwardNotification && final(inst).pending@
            == old(inst).pending@ && final(inst).next_server_id == old(inst).next_server_id
            && final(inst).last_used == now,
{
    match msg {
        ClientMessage::Request { id } => match inst.relay_request(session, id, now) {
            Ok(server_id) => ClientAction::Forward { server_id },
            Err(e) => ClientAction::Refuse(e),
        },
        ClientMessage::CancelRequest { id } => match inst.relay_cancel(session, &id, now) {
            Some(server_id) => ClientAction::ForwardCancel { server_id },
            None => ClientAction::DropSilently,
        },
        ClientMessage::Notification => {
            inst.touch(now);
            ClientAction::ForwardNotification
        },
    }
}

/// A server-to-client message, as far as the relay inspects it.
pub enum ServerMessage {
    /// A response carrying the server-facing id of some request.
    Response { server_id: u64 },
    /// An id-less notification, with its progress token if it is a
    /// progress notification.
    Notification { progress_token: Option<RequestId> },
}

/// What to do with a server-to-client message.
pub enum ServerAction {
    /// Deliver only to this session, with the id rewritten back to the
    /// client's original.
    DeliverResponse { session: u64, client_id: RequestId },
    /// Nobody claims this response — its session disconnected or the
    /// request was cancelled: drop it.
    Discard,
    /// One copy to every attached session.
    Broadcast,
    /// Only to the session owning the progress token.
    DeliverNotification { session: u64 },
}

/// Decide, and record, what happens to one server-to-client message.
pub fn route_server_message(inst: &mut Instance, msg: &ServerMessage, now: u64) -> (r:
    ServerAction)
    requires
        old(inst).wf(),
    ensures
        final(inst).wf(),
        final(inst).sessions == old(inst).sessions,
        final(inst).tokens == old(inst).tokens,
        final(inst).next_server_id == old(inst).next_server_id,
        final(inst).id == old(inst).id,
        final(inst).key == old(inst).key,
        final(inst).phase == old(inst).phase,
        final(inst).init_result == old(inst).init_result,
        *msg matches ServerMessage::Response { server_id } ==> {
            &&& !server_id_live(old(inst).pending@, server_id) ==> r == ServerAction::Discard
                && *final(inst) == *old(inst)
            &&& forall|i: int|
                0 <= i < old(inst).pending@.len() && #[trigger] old(inst).pending@[i].server_id
                    == server_id ==> r == (ServerAction::DeliverResponse {
                    session: old(inst).pending@[i].session,
                    client_id: old(inst).pending@[i].client_id,
                }) && final(inst).pending@ == old(inst).pending@.remove(i) && final(inst).last_used
                    == now
        },
        *msg matches ServerMessage::Notification { progress_token } ==> {
            &&& final(inst).pending@ == old(inst).pending@
            &&& final(inst).last_used == now
            &&& progress_token is None ==> r == ServerAction::Broadcast
            &&& progress_token matches Some(t) ==> {
                &&& !token_owned(old(inst).tokens@, t) ==> r == ServerAction::Broadcast
                &&& forall|i: int|
                    0 <= i < old(inst).tokens@.len() && id_eq(
                        #[trigger] old(inst).tokens@[i].token,
                        t,
                    ) ==> r == (ServerAction::DeliverNotification {
                        session: old(inst).tokens@[i].session,
                    })
            }
        },
{
    match msg {
        ServerMessage::Response { server_id } => match inst.route_response(*server_id, now) {
            Some((session, client_id)) => ServerAction::DeliverResponse { session, client_id },
            None => ServerAction::Discard,
        },
        ServerMessage::Notification { progress_token } => {
            let route = inst.route_notification(progress_token.as_ref());
            inst.touch(now);
            match route {
                NotificationRoute::Broadcast => ServerAction::Broadcast,
                NotificationRoute::ToSession(session) => ServerAction::DeliverNotification {
                    session,
                },
            }
        },
    }
}

} // verus!
