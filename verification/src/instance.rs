//! One language-server instance and its per-session request-id
//! translation.
//!
//! Many sessions share one server process, which has a single request-id
//! space. Every client request therefore gets a freshly allocated,
//! instance-unique server id; the pair (client id, owning session) is
//! remembered so the matching response can be rewritten back and delivered
//! to exactly the session that asked. Id-less notifications are broadcast,
//! except progress notifications whose token is owned by one request's
//! session. Detaching a session drops only that session's entries.

use vstd::prelude::*;

use crate::config::InstanceTimeout;
use crate::error::MuxError;
use crate::jsonrpc::{id_eq, RequestId};
use crate::key::WorkspaceKey;
use crate::lsp::InitializeResult;

verus! {

/// One client connection attached to an instance, named by its session id
/// and by the peer port Status reports for it.
pub struct AttachedSession {
    pub session: u64,
    pub port: u16,
}

/// One in-flight request: the server-facing id the proxy allocated, and
/// the session and client-chosen id it stands for.
pub struct PendingRequest {
    pub server_id: u64,
    pub session: u64,
    pub client_id: RequestId,
}

/// One progress token and the session owning the request that registered
/// it.
pub struct TokenOwner {
    pub token: RequestId,
    pub session: u64,
}

/// Whether the server process is still being spawned or is running.
pub enum Phase {
    Spawning,
    Live { pid: u32 },
}

/// One spawned language-server process bound to one workspace key,
/// together with the sessions attached to it and the translation state of
/// their in-flight requests.
pub struct Instance {
    pub id: u64,
    pub key: WorkspaceKey,
    pub phase: Phase,
    /// Unix seconds of the last relayed message in either direction; the
    /// garbage collector reaps instances idle beyond the timeout.
    pub last_used: u64,
    /// Monotonic source of server-facing request ids.
    pub next_server_id: u64,
    pub sessions: Vec<AttachedSession>,
    pub pending: Vec<PendingRequest>,
    pub tokens: Vec<TokenOwner>,
    /// The captured answer to the first `initialize`, replayed to every
    /// session attaching later so the server sees only one `initialize`.
    pub init_result: Option<InitializeResult>,
}

/// Whether a session id is attached.
pub open spec fn session_attached(s: Seq<AttachedSession>, sid: u64) -> bool {
    exists|i: int| 0 <= i < s.len() && s[i].session == sid
}

/// Whether some in-flight request of `session` already uses `client_id`.
pub open spec fn client_id_live(p: Seq<PendingRequest>, session: u64, client_id: RequestId) -> bool {
    exists|i: int| 0 <= i < p.len() && p[i].session == session && id_eq(p[i].client_id, client_id)
}

/// Whether some in-flight request carries the server id `sid`.
pub open spec fn server_id_live(p: Seq<PendingRequest>, sid: u64) -> bool {
    exists|i: int| 0 <= i < p.len() && p[i].server_id == sid
}

/// Whether a progress token already has an owner.
pub open spec fn token_owned(t: Seq<TokenOwner>, token: RequestId) -> bool {
    exists|i: int| 0 <= i < t.len() && id_eq(t[i].token, token)
}

impl Instance {
    /// Well-formedness: sessions are distinct; server ids are distinct,
    /// all below the allocation counter; no session has two in-flight
    /// requests under one client id; every in-flight request and every
    /// owned token belongs to an attached session; tokens have at most
    /// one owner.
    pub open spec fn wf(self) -> bool {
        &&& forall|i: int, j: int|
            0 <= i < j < self.sessions@.len() ==> self.sessions@[i].session
                != self.sessions@[j].session
        &&& forall|i: int, j: int|
            0 <= i < j < self.pending@.len() ==> self.pending@[i].server_id
                != self.pending@[j].server_id
        &&& forall|i: int|
            0 <= i < self.pending@.len() ==> #[trigger] self.pending@[i].server_id
                < self.next_server_id
        &&& forall|i: int, j: int|
            0 <= i < j < self.pending@.len() ==> !(self.pending@[i].session
                == self.pending@[j].session && id_eq(
                self.pending@[i].client_id,
                self.pending@[j].client_id,
            ))
        &&& forall|i: int|
            0 <= i < self.pending@.len() ==> session_attached(
                self.sessions@,
                #[trigger] self.pending@[i].session,
            )
        &&& forall|i: int, j: int|
            0 <= i < j < self.tokens@.len() ==> !id_eq(
                self.tokens@[i].token,
                self.tokens@[j].token,
            )
        &&& forall|i: int|
            0 <= i < self.tokens@.len() ==> session_attached(
                self.sessions@,
                #[trigger] self.tokens@[i].session,
            )
    }

    /// A fresh instance for `key`, in the spawning phase, with no
    /// sessions attached and nothing in flight.
    pub fn fresh(id: u64, key: WorkspaceKey, now: u64) -> (r: Instance)
        ensures
            r.wf(),
            r.id == id,
            r.key == key,
            r.phase == Phase::Spawning,
            r.last_used == now,
            r.next_server_id == 0,
            r.sessions@.len() == 0,
            r.pending@.len() == 0,
            r.tokens@.len() == 0,
            r.init_result is None,
    {
        Instance {
            id,
            key,
            phase: Phase::Spawning,
            last_used: now,
            next_server_id: 0,
            sessions: Vec::new(),
            pending: Vec::new(),
            tokens: Vec::new(),
            init_result: None,
        }
    }

    /// Attach a session. Fails without effect when the session id is
    /// already attached. On success the session set grows by exactly this
    /// session and nothing else changes.
    pub fn attach(&mut self, session: u64, port: u16) -> (r: Result<(), MuxError>)
        requires
            old(self).wf(),
        ensures
            final(self).wf(),
            session_attached(old(self).sessions@, session) ==> r == Err::<(), MuxError>(
                MuxError::ProtocolViolation,
            ) && *final(self) == *old(self),
            !session_attached(old(self).sessions@, session) ==> {
                &&& r == Ok::<(), MuxError>(())
                &&& final(self).sessions@ == old(self).sessions@.push(
                    AttachedSession { session, port },
                )
                &&& final(self).id == old(self).id
                &&& final(self).key == old(self).key
                &&& final(self).phase == old(self).phase
                &&& final(self).last_used == old(self).last_used
                &&& final(self).next_server_id == old(self).next_server_id
                &&& final(self).pending == old(self).pending
                &&& final(self).tokens == old(self).tokens
                &&& final(self).init_result == old(self).init_result
            },
    {
        let n: usize = self.sessions.len();
        let mut i: usize = 0;
        while i < n
            invariant
                *self == *old(self),
                old(self).wf(),
                n == self.sessions@.len(),
                i <= n,
                forall|k: int| 0 <= k < i ==> self.sessions@[k].session != session,
            decreases n - i,
        {
            if self.sessions[i].session == session {
                return Err(MuxError::ProtocolViolation);
            }
            i += 1;
        }
        self.sessions.push(AttachedSession { session, port });
        proof {
            assert forall|a: int|
                0 <= a < self.pending@.len() implies session_attached(
                self.sessions@,
                #[trigger] self.pending@[a].session,
            ) by {
                assert(self.pending@[a] == old(self).pending@[a]);
                assert(session_attached(old(self).sessions@, old(self).pending@[a].session));
                let w = choose|k: int|
                    0 <= k < old(self).sessions@.len() && old(self).sessions@[k].session == old(
                        self,
                    ).pending@[a].session;
                assert(self.sessions@[w] == old(self).sessions@[w]);
                assert(self.sessions@[w].session == self.pending@[a].session);
            }
            assert forall|a: int|
                0 <= a < self.tokens@.len() implies session_attached(
                self.sessions@,
                #[trigger] self.tokens@[a].session,
            ) by {
                assert(self.tokens@[a] == old(self).tokens@[a]);
                assert(session_attached(old(self).sessions@, old(self).tokens@[a].session));
                let w = choose|k: int|
                    0 <= k < old(self).sessions@.len() && old(self).sessions@[k].session == old(
                        self,
                    ).tokens@[a].session;
                assert(self.sessions@[w] == old(self).sessions@[w]);
                assert(self.sessions@[w].session == self.tokens@[a].session);
            }
        }
        Ok(())
    }

    /// Whether this instance still owes its caller the real `initialize`
    /// round-trip: true until the first session's answer was captured.
    pub fn needs_initialize(&self) -> (r: bool)
        ensures
            r == (self.init_result is None),
    {
        self.init_result.is_none()
    }

    /// Detach a session: it disappears from the session set, and exactly
    /// its in-flight requests and its token registrations are dropped.
    /// Everything of every other session, and their order, is kept.
    pub fn detach(&mut self, session: u64)
        requires
            old(self).wf(),
        ensures
            final(self).wf(),
            final(self).sessions@ == old(self).sessions@.filter(
                |a: AttachedSession| a.session != session,
            ),
            final(self).pending@ == old(self).pending@.filter(
                |p: PendingRequest| p.session != session,
            ),
            final(self).tokens@ == old(self).tokens@.filter(|t: TokenOwner| t.session != session),
            final(self).id == old(self).id,
            final(self).key == old(self).key,
            final(self).phase == old(self).phase,
            final(self).last_used == old(self).last_used,
            final(self).next_server_id == old(self).next_server_id,
            final(self).init_result == old(self).init_result,
            !session_attached(final(self).sessions@, session),
    {
        let ghost old_sessions = self.sessions@;
        let ghost old_pending = self.pending@;
        let ghost old_tokens = self.tokens@;

        let mut kept_sessions: Vec<AttachedSession> = Vec::new();
        let n: usize = self.sessions.len();
        let mut i: usize = 0;
        while i < n
            invariant
                n == old_sessions.len(),
                self.sessions@ == old_sessions,
                i <= n,
                kept_sessions@ == old_sessions.take(i as int).filter(
                    |a: AttachedSession| a.session != session,
                ),
            decreases n - i,
        {
            let s = self.sessions[i].session;
            let p = self.sessions[i].port;
            proof {
                reveal(Seq::filter);
                assert(old_sessions.take(i + 1).drop_last() =~= old_sessions.take(i as int));
                assert(old_sessions.take(i + 1).last() == old_sessions[i as int]);
            }
            if s != session {
                kept_sessions.push(AttachedSession { session: s, port: p });
                proof {
                    assert(self.sessions@[i as int] == (AttachedSession { session: s, port: p }));
                }
            }
            i += 1;
        }
        proof {
            assert(old_sessions.take(n as int) =~= old_sessions);
        }
        self.sessions = kept_sessions;

        let mut kept_pending: Vec<PendingRequest> = Vec::new();
        let np: usize = self.pending.len();
        let mut j: usize = 0;
        while j < np
            invariant
                np == old_pending.len(),
                self.pending@ == old_pending,
                j <= np,
                kept_pending@ == old_pending.take(j as int).filter(
                    |p: PendingRequest| p.session != session,
                ),
            decreases np - j,
        {
            let s = self.pending[j].session;
            proof {
                reveal(Seq::filter);
                assert(old_pending.take(j + 1).drop_last() =~= old_pending.take(j as int));
                assert(old_pending.take(j + 1).last() == old_pending[j as int]);
            }
            if s != session {
                let sid = self.pending[j].server_id;
                let cid = self.pending[j].client_id.duplicate();
                kept_pending.push(PendingRequest { server_id: sid, session: s, client_id: cid });
                proof {
                    assert(self.pending@[j as int] == (PendingRequest {
                        server_id: sid,
                        session: s,
                        client_id: cid,
                    }));
                }
            }
            j += 1;
        }
        proof {
            assert(old_pending.take(np as int) =~= old_pending);
        }
        self.pending = kept_pending;

        let mut kept_tokens: Vec<TokenOwner> = Vec::new();
        let nt: usize = self.tokens.len();
        let mut k: usize = 0;
        while k < nt
            invariant
                nt == old_tokens.len(),
                self.tokens@ == old_tokens,
                k <= nt,
                kept_tokens@ == old_tokens.take(k as int).filter(
                    |t: TokenOwner| t.session != session,
                ),
            decreases nt - k,
        {
            let s = self.tokens[k].session;
            proof {
                reveal(Seq::filter);
                assert(old_tokens.take(k + 1).drop_last() =~= old_tokens.take(k as int));
                assert(old_tokens.take(k + 1).last() == old_tokens[k as int]);
            }
            if s != session {
                let tok = self.tokens[k].token.duplicate();
                kept_tokens.push(TokenOwner { token: tok, session: s });
                proof {
                    assert(self.tokens@[k as int] == (TokenOwner { token: tok, session: s }));
                }
            }
            k += 1;
        }
        proof {
            assert(old_tokens.take(nt as int) =~= old_tokens);
        }
        self.tokens = kept_tokens;

        proof {
            lemma_filter_keeps_pairwise(old_sessions, old_pending, old_tokens, session, *self);
        }
    }

    /// Note that a message was relayed now, in either direction: the
    /// garbage collector measures idleness from this point.
    pub fn touch(&mut self, now: u64)
        requires
            old(self).wf(),
        ensures
            final(self).wf(),
            final(self).last_used == now,
            final(self).id == old(self).id,
            final(self).key == old(self).key,
            final(self).phase == old(self).phase,
            final(self).next_server_id == old(self).next_server_id,
            final(self).sessions == old(self).sessions,
            final(self).pending == old(self).pending,
            final(self).tokens == old(self).tokens,
            final(self).init_result == old(self).init_result,
    {
        self.last_used = now;
    }

    /// The server process is running: leave the spawning phase.
    pub fn set_live(&mut self, pid: u32)
        requires
            old(self).wf(),
        ensures
            final(self).wf(),
            final(self).phase == (Phase::Live { pid }),
            final(self).id == old(self).id,
            final(self).key == old(self).key,
            final(self).last_used == old(self).last_used,
            final(self).next_server_id == old(self).next_server_id,
            final(self).sessions == old(self).sessions,
            final(self).pending == old(self).pending,
            final(self).tokens == old(self).tokens,
            final(self).init_result == old(self).init_result,
    {
        self.phase = Phase::Live { pid };
    }

    /// Capture the server's answer to the first `initialize`; every later
    /// session is handed this answer instead of a second round-trip.
    pub fn mark_initialized(&mut self, result: InitializeResult)
        requires
            old(self).wf(),
            old(self).init_result is None,
        ensures
            final(self).wf(),
            final(self).init_result == Some(result),
            final(self).id == old(self).id,
            final(self).key == old(self).key,
            final(self).phase == old(self).phase,
            final(self).last_used == old(self).last_used,
            final(self).next_server_id == old(self).next_server_id,
            final(self).sessions == old(self).sessions,
            final(self).pending == old(self).pending,
            final(self).tokens == old(self).tokens,
    {
        self.init_result = Some(result);
    }

    /// The captured `initialize` answer to replay to a session attaching
    /// after the first: present exactly once the first session's
    /// round-trip completed.
    pub fn replay_result(&self) -> (r: Option<&InitializeResult>)
        ensures
            r is Some <==> self.init_result is Some,
            r matches Some(x) ==> self.init_result == Some(*x),
    {
        self.init_result.as_ref()
    }

    /// Relay a client request: allocate a fresh server-facing id, record
    /// the translation for this session's client id, and refresh
    /// last_used. A client id that is already live for this session is a
    /// protocol violation and changes nothing.
    pub fn relay_request(&mut self, session: u64, client_id: RequestId, now: u64) -> (r: Result<
        u64,
        MuxError,
    >)
        requires
            old(self).wf(),
            session_attached(old(self).sessions@, session),
            old(self).next_server_id < u64::MAX,
        ensures
            final(self).wf(),
            client_id_live(old(self).pending@, session, client_id) ==> r == Err::<u64, MuxError>(
                MuxError::ProtocolViolation,
            ) && *final(self) == *old(self),
            !client_id_live(old(self).pending@, session, client_id) ==> {
                &&& r == Ok::<u64, MuxError>(old(self).next_server_id)
                &&& final(self).pending@ == old(self).pending@.push(
                    PendingRequest { server_id: old(self).next_server_id, session, client_id },
                )
                &&& final(self).next_server_id == old(self).next_server_id + 1
                &&& final(self).last_used == now
                &&& final(self).id == old(self).id
                &&& final(self).key == old(self).key
                &&& final(self).phase == old(self).phase
                &&& final(self).sessions == old(self).sessions
                &&& final(self).tokens == old(self).tokens
                &&& final(self).init_result == old(self).init_result
            },
    {
        let n: usize = self.pending.len();
        let mut i: usize = 0;
        while i < n
            invariant
                *self == *old(self),
                old(self).wf(),
                n == self.pending@.len(),
                i <= n,
                forall|k: int|
                    0 <= k < i ==> !(self.pending@[k].session == session && id_eq(
                        self.pending@[k].client_id,
                        client_id,
                    )),
            decreases n - i,
        {
            if self.pending[i].session == session && self.pending[i].client_id.same_as(
                &client_id,
            ) {
                return Err(MuxError::ProtocolViolation);
            }
            i += 1;
        }
        let sid = self.next_server_id;
        self.pending.push(PendingRequest { server_id: sid, session, client_id });
        self.next_server_id = sid + 1;
        self.last_used = now;
        proof {
            assert forall|a: int|
                0 <= a < self.pending@.len() implies session_attached(
                self.sessions@,
                #[trigger] self.pending@[a].session,
            ) by {
                if a < old(self).pending@.len() {
                    assert(self.pending@[a] == old(self).pending@[a]);
                    assert(session_attached(old(self).sessions@, old(self).pending@[a].session));
                } else {
                    assert(self.pending@[a].session == session);
                }
            }
        }
        Ok(sid)
    }

    /// Relay a cancel notification: translate the client's id to the
    /// server-facing id and retire the entry — a response arriving later
    /// for a cancelled id is discarded as unknown. A cancel naming an id
    /// with no live entry is a silent no-op, not an error; either way the
    /// message counts as activity.
    pub fn relay_cancel(&mut self, session: u64, client_id: &RequestId, now: u64) -> (r: Option<
        u64,
    >)
        requires
            old(self).wf(),
        ensures
            final(self).wf(),
            final(self).last_used == now,
            final(self).id == old(self).id,
            final(self).key == old(self).key,
            final(self).phase == old(self).phase,
            final(self).next_server_id == old(self).next_server_id,
            final(self).sessions == old(self).sessions,
            final(self).tokens == old(self).tokens,
            final(self).init_result == old(self).init_result,
            !client_id_live(old(self).pending@, session, *client_id) ==> r is None
                && final(self).pending@ == old(self).pending@,
            forall|i: int|
                0 <= i < old(self).pending@.len() && old(self).pending@[i].session == session
                    && id_eq(#[trigger] old(self).pending@[i].client_id, *client_id) ==> r == Some(
                    old(self).pending@[i].server_id,
                ) && final(self).pending@ == old(self).pending@.remove(i),
    {
        let n: usize = self.pending.len();
        let mut i: usize = 0;
        while i < n
            invariant
                *self == *old(self),
                old(self).wf(),
                n == self.pending@.len(),
                i <= n,
                forall|k: int|
                    0 <= k < i ==> !(self.pending@[k].session == session && id_eq(
                        self.pending@[k].client_id,
                        *client_id,
                    )),
            decreases n - i,
        {
            if self.pending[i].session == session && self.pending[i].client_id.same_as(client_id) {
                let e = self.pending.remove(i);
                self.last_used = now;
                proof {
                    lemma_remove_keeps_wf(old(self).pending@, i as int, *self);
                    assert forall|k: int|
                        0 <= k < old(self).pending@.len() && old(self).pending@[k].session
                            == session && id_eq(
                        #[trigger] old(self).pending@[k].client_id,
                        *client_id,
                    ) implies k == i by {
                        if k != i {
                            crate::jsonrpc::lemma_id_eq_same_target(
                                old(self).pending@[k].client_id,
                                old(self).pending@[i as int].client_id,
                                *client_id,
                            );
                            if k < i {
                                assert(!(old(self).pending@[k].session == old(
                                    self,
                                ).pending@[i as int].session && id_eq(
                                    old(self).pending@[k].client_id,
                                    old(self).pending@[i as int].client_id,
                                )));
                            } else {
                                assert(!(old(self).pending@[i as int].session == old(
                                    self,
                                ).pending@[k].session && id_eq(
                                    old(self).pending@[i as int].client_id,
                                    old(self).pending@[k].client_id,
                                )));
                            }
                            assert(false);
                        }
                    }
                }
                return Some(e.server_id);
            }
            i += 1;
        }
        self.last_used = now;
        None
    }

    /// Route a server response by its server-facing id: retire the one
    /// entry carrying it and hand back the owning session and the client
    /// id to restore. A response for an unknown id — for example one
    /// whose session disconnected, or one already cancelled — is
    /// discarded and changes nothing.
    pub fn route_response(&mut self, server_id: u64, now: u64) -> (r: Option<(u64, RequestId)>)
        requires
            old(self).wf(),
        ensures
            final(self).wf(),
            final(self).id == old(self).id,
            final(self).key == old(self).key,
            final(self).phase == old(self).phase,
            final(self).next_server_id == old(self).next_server_id,
            final(self).sessions == old(self).sessions,
            final(self).tokens == old(self).tokens,
            final(self).init_result == old(self).init_result,
            !server_id_live(old(self).pending@, server_id) ==> r is None && *final(self) == *old(
                self,
            ),
            forall|i: int|
                0 <= i < old(self).pending@.len() && #[trigger] old(self).pending@[i].server_id
                    == server_id ==> r == Some(
                    (old(self).pending@[i].session, old(self).pending@[i].client_id),
                ) && final(self).pending@ == old(self).pending@.remove(i) && final(self).last_used
                    == now,
    {
        let n: usize = self.pending.len();
        let mut i: usize = 0;
        while i < n
            invariant
                *self == *old(self),
                old(self).wf(),
                n == self.pending@.len(),
                i <= n,
                forall|k: int| 0 <= k < i ==> self.pending@[k].server_id != server_id,
            decreases n - i,
        {
            if self.pending[i].server_id == server_id {
                let e = self.pending.remove(i);
                self.last_used = now;
                proof {
                    lemma_remove_keeps_wf(old(self).pending@, i as int, *self);
                    assert forall|k: int|
                        0 <= k < old(self).pending@.len() && #[trigger] old(
                            self,
                        ).pending@[k].server_id == server_id implies k == i by {
                        if k != i {
                            assert(old(self).pending@[k].server_id != old(
                                self,
                            ).pending@[i as int].server_id);
                        }
                    }
                }
                return Some((e.session, e.client_id));
            }
            i += 1;
        }
        None
    }

    /// Register a progress token as owned by the session whose request
    /// announced it. The first owner wins: a token that is already owned
    /// stays with its owner, and the registration reports false.
    pub fn register_token(&mut self, session: u64, token: RequestId) -> (r: bool)
        requires
            old(self).wf(),
            session_attached(old(self).sessions@, session),
        ensures
            final(self).wf(),
            token_owned(old(self).tokens@, token) ==> r == false && *final(self) == *old(self),
            !token_owned(old(self).tokens@, token) ==> {
                &&& r == true
                &&& final(self).tokens@ == old(self).tokens@.push(TokenOwner { token, session })
                &&& final(self).id == old(self).id
                &&& final(self).key == old(self).key
                &&& final(self).phase == old(self).phase
                &&& final(self).last_used == old(self).last_used
                &&& final(self).next_server_id == old(self).next_server_id
                &&& final(self).sessions == old(self).sessions
                &&& final(self).pending == old(self).pending
                &&& final(self).init_result == old(self).init_result
            },
    {
        let n: usize = self.tokens.len();
        let mut i: usize = 0;
        while i < n
            invariant
                *self == *old(self),
                old(self).wf(),
                n == self.tokens@.len(),
                i <= n,
                forall|k: int| 0 <= k < i ==> !id_eq(self.tokens@[k].token, token),
            decreases n - i,
        {
            if self.tokens[i].token.same_as(&token) {
                return false;
            }
            i += 1;
        }
        self.tokens.push(TokenOwner { token, session });
        proof {
            assert forall|a: int|
                0 <= a < self.tokens@.len() implies session_attached(
                self.sessions@,
                #[trigger] self.tokens@[a].session,
            ) by {
                if a < old(self).tokens@.len() {
                    assert(self.tokens@[a] == old(self).tokens@[a]);
                    assert(session_attached(old(self).sessions@, old(self).tokens@[a].session));
                } else {
                    assert(self.tokens@[a].session == session);
                }
            }
        }
        true
    }

    /// Decide where a server message without a request id goes: a
    /// progress notification whose token is owned goes only to the
    /// owner's session; everything else is broadcast, one copy per
    /// attached session.
    pub fn route_notification(&self, token: Option<&RequestId>) -> (r: NotificationRoute)
        requires
            self.wf(),
        ensures
            token is None ==> r == NotificationRoute::Broadcast,
            token matches Some(t) && !token_owned(self.tokens@, *t) ==> r
                == NotificationRoute::Broadcast,
            forall|i: int|
                token matches Some(t) && 0 <= i < self.tokens@.len() && id_eq(
                    #[trigger] self.tokens@[i].token,
                    *t,
                ) ==> r == NotificationRoute::ToSession(self.tokens@[i].session),
    {
        match token {
            None => NotificationRoute::Broadcast,
            Some(t) => {
                let n: usize = self.tokens.len();
                let mut i: usize = 0;
                while i < n
                    invariant
                        self.wf(),
                        token == Some(t),
                        n == self.tokens@.len(),
                        i <= n,
                        forall|k: int| 0 <= k < i ==> !id_eq(self.tokens@[k].token, *t),
                    decreases n - i,
                {
                    if self.tokens[i].token.same_as(t) {
                        proof {
                            assert forall|k: int|
                                0 <= k < self.tokens@.len() && id_eq(
                                    #[trigger] self.tokens@[k].token,
                                    *t,
                                ) implies k == i by {
                                if k != i {
                                    crate::jsonrpc::lemma_id_eq_same_target(
                                        self.tokens@[k].token,
                                        self.tokens@[i as int].token,
                                        *t,
                                    );
                                    if k < i {
                                        assert(!id_eq(
                                            self.tokens@[k].token,
                                            self.tokens@[i as int].token,
                                        ));
                                    } else {
                                        assert(!id_eq(
                                            self.tokens@[i as int].token,
                                            self.tokens@[k].token,
                                        ));
                                    }
                                    assert(false);
                                }
                            }
                        }
                        return NotificationRoute::ToSession(self.tokens[i].session);
                    }
                    i += 1;
                }
                NotificationRoute::Broadcast
            },
        }
    }

    /// Whether the garbage collector may reap this instance now: no
    /// session is attached, the process is running (a spawn still in
    /// flight is never reaped by the collector), the timeout is enabled,
    /// and the instance has been idle at least that long. A disabled
    /// timeout means idle instances are never reclaimed this way.
    pub fn gc_eligible(&self, now: u64, timeout: &InstanceTimeout) -> (r: bool)
        ensures
            r == self.spec_gc_eligible(now, *timeout),
    {
        if self.sessions.len() != 0 {
            return false;
        }
        let is_live: bool = match self.phase {
            Phase::Live { .. } => true,
            Phase::Spawning => false,
        };
        if !is_live {
            return false;
        }
        match timeout {
            InstanceTimeout::Disabled => false,
            InstanceTimeout::After(t) => now >= self.last_used && now - self.last_used
                >= (*t as u64),
        }
    }

    /// When the collector may reap: idle at least the enabled timeout,
    /// nothing attached, process running.
    pub open spec fn spec_gc_eligible(self, now: u64, timeout: InstanceTimeout) -> bool {
        &&& self.sessions@.len() == 0
        &&& self.phase is Live
        &&& match timeout {
            InstanceTimeout::Disabled => false,
            InstanceTimeout::After(t) => now as int >= self.last_used as int + t as int,
        }
    }
}

/// Where a server message without a request id is delivered.
pub enum NotificationRoute {
    /// One copy to every attached session.
    Broadcast,
    /// Only to this session, which owns the progress token.
    ToSession(u64),
}

/// Retiring one in-flight entry keeps the translation state well formed:
/// the remaining entries keep their distinct server ids, their per-session
/// client-id uniqueness, and their attached owners.
proof fn lemma_remove_keeps_wf(old_pending: Seq<PendingRequest>, at: int, new: Instance)
    requires
        0 <= at < old_pending.len(),
        forall|i: int, j: int|
            0 <= i < j < old_pending.len() ==> old_pending[i].server_id
                != old_pending[j].server_id,
        forall|i: int, j: int|
            0 <= i < j < old_pending.len() ==> !(old_pending[i].session == old_pending[j].session
                && id_eq(old_pending[i].client_id, old_pending[j].client_id)),
        forall|i: int|
            0 <= i < old_pending.len() ==> #[trigger] old_pending[i].server_id
                < new.next_server_id,
        forall|i: int|
            0 <= i < old_pending.len() ==> session_attached(
                new.sessions@,
                #[trigger] old_pending[i].session,
            ),
        forall|i: int, j: int|
            0 <= i < j < new.sessions@.len() ==> new.sessions@[i].session
                != new.sessions@[j].session,
        forall|i: int, j: int|
            0 <= i < j < new.tokens@.len() ==> !id_eq(new.tokens@[i].token, new.tokens@[j].token),
        forall|i: int|
            0 <= i < new.tokens@.len() ==> session_attached(
                new.sessions@,
                #[trigger] new.tokens@[i].session,
            ),
        new.pending@ == old_pending.remove(at),
    ensures
        new.wf(),
{
    assert forall|i: int|
        0 <= i < new.pending@.len() implies session_attached(
        new.sessions@,
        #[trigger] new.pending@[i].session,
    ) by {
        if i < at {
            assert(new.pending@[i] == old_pending[i]);
            assert(session_attached(new.sessions@, old_pending[i].session));
        } else {
            assert(new.pending@[i] == old_pending[i + 1]);
            assert(session_attached(new.sessions@, old_pending[i + 1].session));
        }
    }
    assert forall|i: int|
        0 <= i < new.pending@.len() implies #[trigger] new.pending@[i].server_id
        < new.next_server_id by {
        if i < at {
            assert(new.pending@[i] == old_pending[i]);
        } else {
            assert(new.pending@[i] == old_pending[i + 1]);
        }
    }
    assert forall|i: int, j: int|
        0 <= i < j < new.pending@.len() implies new.pending@[i].server_id
        != new.pending@[j].server_id && !(new.pending@[i].session == new.pending@[j].session
        && id_eq(new.pending@[i].client_id, new.pending@[j].client_id)) by {
        let oi: int = if i < at { i } else { i + 1 };
        let oj: int = if j < at { j } else { j + 1 };
        assert(new.pending@[i] == old_pending[oi]);
        assert(new.pending@[j] == old_pending[oj]);
        assert(0 <= oi < oj < old_pending.len());
    }
}

/// Every entry a filter keeps comes from the unfiltered sequence, at a
/// strictly larger index for a later position. Hence all pairwise facts —
/// distinct session ids, distinct server ids, unique client ids per
/// session, unique token owners — survive filtering, and entries of other
/// sessions keep an attached owner.
proof fn lemma_filter_keeps_pairwise(
    old_sessions: Seq<AttachedSession>,
    old_pending: Seq<PendingRequest>,
    old_tokens: Seq<TokenOwner>,
    session: u64,
    new: Instance,
)
    requires
        forall|i: int, j: int|
            0 <= i < j < old_sessions.len() ==> old_sessions[i].session != old_sessions[j].session,
        forall|i: int, j: int|
            0 <= i < j < old_pending.len() ==> old_pending[i].server_id
                != old_pending[j].server_id,
        forall|i: int, j: int|
            0 <= i < j < old_pending.len() ==> !(old_pending[i].session == old_pending[j].session
                && id_eq(old_pending[i].client_id, old_pending[j].client_id)),
        forall|i: int, j: int|
            0 <= i < j < old_tokens.len() ==> !id_eq(old_tokens[i].token, old_tokens[j].token),
        forall|i: int|
            0 <= i < old_pending.len() ==> session_attached(
                old_sessions,
                #[trigger] old_pending[i].session,
            ),
        forall|i: int|
            0 <= i < old_tokens.len() ==> session_attached(
                old_sessions,
                #[trigger] old_tokens[i].session,
            ),
        forall|i: int|
            0 <= i < old_pending.len() ==> #[trigger] old_pending[i].server_id
                < new.next_server_id,
        new.sessions@ == old_sessions.filter(|a: AttachedSession| a.session != session),
        new.pending@ == old_pending.filter(|p: PendingRequest| p.session != session),
        new.tokens@ == old_tokens.filter(|t: TokenOwner| t.session != session),
    ensures
        new.wf(),
        !session_attached(new.sessions@, session),
{
    let keep_s = |a: AttachedSession| a.session != session;
    let keep_p = |p: PendingRequest| p.session != session;
    let keep_t = |t: TokenOwner| t.session != session;
    lemma_filter_origin(old_sessions, keep_s);
    lemma_filter_origin(old_pending, keep_p);
    lemma_filter_origin(old_tokens, keep_t);
    lemma_filter_pairwise(
        old_sessions,
        keep_s,
        |a: AttachedSession, b: AttachedSession| a.session != b.session,
    );
    lemma_filter_pairwise(
        old_pending,
        keep_p,
        |a: PendingRequest, b: PendingRequest| a.server_id != b.server_id && !(a.session
            == b.session && id_eq(a.client_id, b.client_id)),
    );
    lemma_filter_pairwise(
        old_tokens,
        keep_t,
        |a: TokenOwner, b: TokenOwner| !id_eq(a.token, b.token),
    );
    assert forall|i: int|
        0 <= i < new.pending@.len() implies #[trigger] new.pending@[i].server_id
        < new.next_server_id by {
        assert(old_pending.contains(new.pending@[i]));
        let oi = choose|oi: int| 0 <= oi < old_pending.len() && old_pending[oi] == new.pending@[i];
        assert(old_pending[oi].server_id < new.next_server_id);
    }
    assert(!session_attached(new.sessions@, session)) by {
        if session_attached(new.sessions@, session) {
            let w = choose|w: int|
                0 <= w < new.sessions@.len() && new.sessions@[w].session == session;
            old_sessions.lemma_filter_pred(keep_s, w);
            assert(false);
        }
    }

    assert forall|i: int|
        0 <= i < new.pending@.len() implies session_attached(
        new.sessions@,
        #[trigger] new.pending@[i].session,
    ) by {
        assert(old_pending.contains(new.pending@[i]));
        old_pending.lemma_filter_pred(keep_p, i);
        let oi = choose|oi: int| 0 <= oi < old_pending.len() && old_pending[oi] == new.pending@[i];
        assert(session_attached(old_sessions, old_pending[oi].session));
        let w = choose|w: int|
            0 <= w < old_sessions.len() && old_sessions[w].session == old_pending[oi].session;
        assert(keep_s(old_sessions[w]));
        old_sessions.lemma_filter_contains(keep_s, w);
        let nw = choose|nw: int|
            0 <= nw < new.sessions@.len() && new.sessions@[nw] == old_sessions[w];
        assert(new.sessions@[nw].session == new.pending@[i].session);
    }
    assert forall|i: int|
        0 <= i < new.tokens@.len() implies session_attached(
        new.sessions@,
        #[trigger] new.tokens@[i].session,
    ) by {
        assert(old_tokens.contains(new.tokens@[i]));
        old_tokens.lemma_filter_pred(keep_t, i);
        let oi = choose|oi: int| 0 <= oi < old_tokens.len() && old_tokens[oi] == new.tokens@[i];
        assert(session_attached(old_sessions, old_tokens[oi].session));
        let w = choose|w: int|
            0 <= w < old_sessions.len() && old_sessions[w].session == old_tokens[oi].session;
        assert(keep_s(old_sessions[w]));
        old_sessions.lemma_filter_contains(keep_s, w);
        let nw = choose|nw: int|
            0 <= nw < new.sessions@.len() && new.sessions@[nw] == old_sessions[w];
        assert(new.sessions@[nw].session == new.tokens@[i].session);
    }
}

/// Every element a filter keeps appears in the unfiltered sequence.
pub(crate) proof fn lemma_filter_origin<T>(s: Seq<T>, pred: spec_fn(T) -> bool)
    ensures
        forall|i: int|
            0 <= i < s.filter(pred).len() ==> s.contains(#[trigger] s.filter(pred)[i]),
    decreases s.len(),
{
    reveal(Seq::filter);
    if s.len() > 0 {
        let butlast = s.drop_last();
        lemma_filter_origin(butlast, pred);
        assert forall|i: int|
            0 <= i < s.filter(pred).len() implies s.contains(#[trigger] s.filter(pred)[i]) by {
            reveal(Seq::filter);
            assert(s.filter(pred) == if pred(s.last()) {
                butlast.filter(pred).push(s.last())
            } else {
                butlast.filter(pred)
            });
            if pred(s.last()) && i == s.filter(pred).len() - 1 {
                assert(s[s.len() - 1] == s.filter(pred)[i]);
            } else {
                assert(s.filter(pred)[i] == butlast.filter(pred)[i]);
                assert(butlast.contains(butlast.filter(pred)[i]));
                let oi = choose|oi: int| 0 <= oi < butlast.len() && butlast[oi] == butlast.filter(
                    pred,
                )[i];
                assert(s[oi] == s.filter(pred)[i]);
            }
        }
    }
}

/// Any fact that holds of every ordered pair of a sequence still holds of
/// every ordered pair of a filtered copy: filtering keeps order and drops
/// elements only.
pub(crate) proof fn lemma_filter_pairwise<T>(s: Seq<T>, pred: spec_fn(T) -> bool, rel: spec_fn(T, T) -> bool)
    requires
        forall|i: int, j: int| 0 <= i < j < s.len() ==> rel(#[trigger] s[i], #[trigger] s[j]),
    ensures
        forall|i: int, j: int|
            0 <= i < j < s.filter(pred).len() ==> rel(
                #[trigger] s.filter(pred)[i],
                #[trigger] s.filter(pred)[j],
            ),
    decreases s.len(),
{
    reveal(Seq::filter);
    if s.len() > 0 {
        let butlast = s.drop_last();
        assert forall|i: int, j: int|
            0 <= i < j < butlast.len() implies rel(#[trigger] butlast[i], #[trigger] butlast[j]) by {
            assert(butlast[i] == s[i]);
            assert(butlast[j] == s[j]);
        }
        lemma_filter_pairwise(butlast, pred, rel);
        lemma_filter_origin(butlast, pred);
        assert forall|i: int, j: int|
            0 <= i < j < s.filter(pred).len() implies rel(
            #[trigger] s.filter(pred)[i],
            #[trigger] s.filter(pred)[j],
        ) by {
            reveal(Seq::filter);
            assert(s.filter(pred) == if pred(s.last()) {
                butlast.filter(pred).push(s.last())
            } else {
                butlast.filter(pred)
            });
            if pred(s.last()) && j == s.filter(pred).len() - 1 {
                assert(s.filter(pred)[i] == butlast.filter(pred)[i]);
                assert(butlast.contains(butlast.filter(pred)[i]));
                let oi = choose|oi: int| 0 <= oi < butlast.len() && butlast[oi] == butlast.filter(
                    pred,
                )[i];
                assert(s[oi] == s.filter(pred)[i]);
                assert(rel(s[oi], s[s.len() - 1]));
                assert(s.filter(pred)[j] == s[s.len() - 1]);
            } else {
                assert(s.filter(pred)[i] == butlast.filter(pred)[i]);
                assert(s.filter(pred)[j] == butlast.filter(pred)[j]);
            }
        }
    }
}

} // verus!
