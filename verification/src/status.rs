//! The status snapshot: what the control plane reports about the
//! registry.
//!
//! The snapshot lists every running instance with its process id, launch
//! command, workspace root, last-used time, and one client entry per
//! attached session — exactly the live attached set, nothing else.

use vstd::prelude::*;

use crate::instance::{Instance, Phase};
use crate::registry::Registry;

verus! {

/// One client connection as Status reports it.
pub struct ClientStatus {
    pub port: u16,
}

/// One running instance as Status reports it.
pub struct InstanceStatus {
    pub pid: u32,
    pub server: String,
    pub args: Vec<String>,
    pub workspace_root: String,
    pub last_used: u64,
    pub clients: Vec<ClientStatus>,
}

/// The answer to a Status request.
pub struct StatusResponse {
    pub instances: Vec<InstanceStatus>,
}

/// Whether a status entry reports exactly this instance: its process id,
/// command, root and last-used time, and one client per attached session,
/// in order, with that session's port.
pub open spec fn reports(st: InstanceStatus, inst: Instance) -> bool {
    &&& inst.phase matches Phase::Live { pid } ==> st.pid == pid
    &&& st.server@ == inst.key.server@
    &&& st.args.deep_view() == inst.key.args.deep_view()
    &&& st.workspace_root@ == inst.key.workspace_root@
    &&& st.last_used == inst.last_used
    &&& st.clients@.len() == inst.sessions@.len()
    &&& forall|m: int|
        0 <= m < inst.sessions@.len() ==> (#[trigger] st.clients@[m]).port
            == inst.sessions@[m].port
}

/// Render one instance as a status entry.
fn render_instance(inst: &Instance) -> (r: InstanceStatus)
    ensures
        reports(r, *inst),
{
    let pid: u32 = match inst.phase {
        Phase::Live { pid } => pid,
        Phase::Spawning => 0,
    };
    let mut clients: Vec<ClientStatus> = Vec::new();
    let n: usize = inst.sessions.len();
    let mut m: usize = 0;
    while m < n
        invariant
            n == inst.sessions@.len(),
            m <= n,
            clients@.len() == m,
            forall|k: int| 0 <= k < m ==> (#[trigger] clients@[k]).port == inst.sessions@[k].port,
        decreases n - m,
    {
        clients.push(ClientStatus { port: inst.sessions[m].port });
        m += 1;
    }
    let key = inst.key.duplicate();
    proof {
        assert forall|k: int|
            0 <= k < key.args@.len() implies key.args.deep_view()[k]
            == inst.key.args.deep_view()[k] by {
            assert(key.args.deep_view()[k] == key.args@[k]@);
            assert(inst.key.args.deep_view()[k] == inst.key.args@[k]@);
        }
        assert(key.args.deep_view() =~= inst.key.args.deep_view());
    }
    InstanceStatus {
        pid,
        server: key.server,
        args: key.args,
        workspace_root: key.workspace_root,
        last_used: inst.last_used,
        clients,
    }
}

/// The registry snapshot behind a Status answer: one entry per running
/// instance, in registry order, each reporting exactly its attached
/// sessions. An instance whose spawn is still in flight has no process
/// yet and is not listed.
pub fn snapshot(reg: &Registry) -> (r: StatusResponse)
    requires
        reg.wf(),
    ensures
        r.instances@.len() == reg.instances@.filter(|inst: Instance| inst.phase is Live).len(),
        forall|k: int|
            0 <= k < r.instances@.len() ==> reports(
                #[trigger] r.instances@[k],
                reg.instances@.filter(|inst: Instance| inst.phase is Live)[k],
            ),
{
    let mut out: Vec<InstanceStatus> = Vec::new();
    let n: usize = reg.instances.len();
    let mut i: usize = 0;
    while i < n
        invariant
            reg.wf(),
            n == reg.instances@.len(),
            i <= n,
            out@.len() == reg.instances@.take(i as int).filter(
                |inst: Instance| inst.phase is Live,
            ).len(),
            forall|k: int|
                0 <= k < out@.len() ==> reports(
                    #[trigger] out@[k],
                    reg.instances@.take(i as int).filter(|inst: Instance| inst.phase is Live)[k],
                ),
        decreases n - i,
    {
        proof {
            reveal(Seq::filter);
            assert(reg.instances@.take(i + 1).drop_last() =~= reg.instances@.take(i as int));
            assert(reg.instances@.take(i + 1).last() == reg.instances@[i as int]);
        }
        let live: bool = match reg.instances[i].phase {
            Phase::Live { .. } => true,
            Phase::Spawning => false,
        };
        if live {
            let st = render_instance(&reg.instances[i]);
            out.push(st);
        }
        i += 1;
    }
    proof {
        assert(reg.instances@.take(n as int) =~= reg.instances@);
    }
    StatusResponse { instances: out }
}

} // verus!
