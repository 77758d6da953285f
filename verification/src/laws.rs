//! The routing and lifecycle guarantees of the proxy, stated on their
//! own: what holds of every well-formed instance and registry, beyond
//! the contracts of the individual operations.

use vstd::prelude::*;

use crate::config::InstanceTimeout;
use crate::instance::{Instance, PendingRequest};
use crate::key::key_eq;
use crate::registry::Registry;

verus! {

/// No cross-delivery: two in-flight requests of one instance — even two
/// whose clients chose the same id on different sessions — always carry
/// distinct server-facing ids, so a server response, which names one
/// server id, resolves to exactly one session and one original client
/// id.
pub proof fn lemma_no_cross_delivery(inst: Instance, i: int, j: int)
    requires
        inst.wf(),
        0 <= i < inst.pending@.len(),
        0 <= j < inst.pending@.len(),
        i != j,
    ensures
        inst.pending@[i].server_id != inst.pending@[j].server_id,
{
    if i < j {
        assert(inst.pending@[i].server_id != inst.pending@[j].server_id);
    } else {
        assert(inst.pending@[j].server_id != inst.pending@[i].server_id);
    }
}

/// Single instance per key: a well-formed registry never holds two
/// instances for one workspace key, so getting an instance for a key can
/// never spawn beside an existing one.
pub proof fn lemma_single_instance_per_key(reg: Registry, i: int, j: int)
    requires
        reg.wf(),
        0 <= i < reg.instances@.len(),
        0 <= j < reg.instances@.len(),
        i != j,
    ensures
        !key_eq(reg.instances@[i].key, reg.instances@[j].key),
{
    if i < j {
        assert(!key_eq(reg.instances@[i].key, reg.instances@[j].key));
    } else {
        assert(!key_eq(reg.instances@[j].key, reg.instances@[i].key));
    }
}

/// The collector's sweep is exact: an instance that is eligible now —
/// nothing attached and idle at least the enabled timeout — lands in the
/// removed half of the sweep, and one that is not eligible, for example
/// still within the idle window, lands in the kept half.
pub proof fn lemma_gc_sweep_exact(s: Seq<Instance>, now: u64, timeout: InstanceTimeout, i: int)
    requires
        0 <= i < s.len(),
    ensures
        s[i].spec_gc_eligible(now, timeout) ==> s.filter(
            |inst: Instance| inst.spec_gc_eligible(now, timeout),
        ).contains(s[i]),
        !s[i].spec_gc_eligible(now, timeout) ==> s.filter(
            |inst: Instance| !inst.spec_gc_eligible(now, timeout),
        ).contains(s[i]),
{
    if s[i].spec_gc_eligible(now, timeout) {
        s.lemma_filter_contains(|inst: Instance| inst.spec_gc_eligible(now, timeout), i);
    } else {
        s.lemma_filter_contains(|inst: Instance| !inst.spec_gc_eligible(now, timeout), i);
    }
}

/// A disabled timeout means no instance is ever eligible for the
/// collector, however long it has been idle: such instances go away only
/// through reload or process exit.
pub proof fn lemma_timeout_disabled_never_reaped(inst: Instance, now: u64)
    ensures
        !inst.spec_gc_eligible(now, InstanceTimeout::Disabled),
{
}

/// A disconnecting session takes only its own in-flight requests with it:
/// every other session's entry survives the detach filter, so pending and
/// future traffic of the remaining sessions is unaffected.
pub proof fn lemma_detach_keeps_other_sessions(
    pending: Seq<PendingRequest>,
    session: u64,
    i: int,
)
    requires
        0 <= i < pending.len(),
        pending[i].session != session,
    ensures
        pending.filter(|p: PendingRequest| p.session != session).contains(pending[i]),
{
    pending.lemma_filter_contains(|p: PendingRequest| p.session != session, i);
}

} // verus!
