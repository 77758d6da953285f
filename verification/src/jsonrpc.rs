//! The identifier model of the JSON-RPC envelopes the proxy relays.
//!
//! A request id is either a number or a string. The proxy rewrites ids of
//! client requests before they reach the shared server, and rewrites them
//! back on the matching response, so id equality is the one operation the
//! routing logic needs.

use vstd::prelude::*;

verus! {

/// A JSON-RPC request id: an integer or a string.
pub enum RequestId {
    Number(u64),
    Text(String),
}

/// When two request ids are the same id. String ids compare by their
/// characters; a numeric id never equals a string id.
pub open spec fn id_eq(a: RequestId, b: RequestId) -> bool {
    match a {
        RequestId::Number(x) => match b {
            RequestId::Number(y) => x == y,
            RequestId::Text(_) => false,
        },
        RequestId::Text(x) => match b {
            RequestId::Text(y) => x@ == y@,
            RequestId::Number(_) => false,
        },
    }
}

/// Id equality is reflexive, symmetric and transitive.
pub proof fn lemma_id_eq_equivalence(a: RequestId, b: RequestId, c: RequestId)
    ensures
        id_eq(a, a),
        id_eq(a, b) == id_eq(b, a),
        id_eq(a, b) && id_eq(b, c) ==> id_eq(a, c),
{
}

/// Two ids equal to a third are equal to each other, either way round.
pub proof fn lemma_id_eq_same_target(a: RequestId, b: RequestId, t: RequestId)
    requires
        id_eq(a, t),
        id_eq(b, t),
    ensures
        id_eq(a, b),
        id_eq(b, a),
{
    lemma_id_eq_equivalence(a, t, b);
    lemma_id_eq_equivalence(b, t, a);
}

impl RequestId {
    /// Decide id equality.
    pub fn same_as(&self, other: &RequestId) -> (r: bool)
        ensures
            r == id_eq(*self, *other),
    {
        match self {
            RequestId::Number(x) => match other {
                RequestId::Number(y) => *x == *y,
                RequestId::Text(_) => false,
            },
            RequestId::Text(x) => match other {
                RequestId::Text(y) => *x == *y,
                RequestId::Number(_) => false,
            },
        }
    }

    /// An exact copy of the id.
    pub fn duplicate(&self) -> (r: RequestId)
        ensures
            r == *self,
    {
        match self {
            RequestId::Number(x) => RequestId::Number(*x),
            RequestId::Text(x) => RequestId::Text(x.clone()),
        }
    }
}

} // verus!
