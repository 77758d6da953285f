//! The shared registry of server instances: at most one per workspace key.
//!
//! The registry decides when a process must be spawned (exactly once per
//! key: a second comer joins the in-flight spawn or the live instance),
//! removes instances — on spawn failure, on garbage collection of idle
//! ones, on reload — and renders the status snapshot.

use vstd::prelude::*;

use crate::config::InstanceTimeout;
use crate::error::MuxError;
use crate::instance::{AttachedSession, Instance, Phase};
use crate::key::{is_prefix_of, key_eq, WorkspaceKey};

verus! {

/// The registry: the live instances, each with a distinct id and a
/// distinct workspace key, and the source of fresh instance ids.
pub struct Registry {
    pub instances: Vec<Instance>,
    pub next_instance_id: u64,
}

/// What get_or_spawn decided.
pub enum GetOrSpawn {
    /// An instance for this key already exists — nothing is spawned. The
    /// caller attaches to it; while `spawning` is true the process is
    /// still being started by whoever came first.
    Existing { id: u64, spawning: bool },
    /// No instance existed: a record was created in the spawning phase
    /// and the caller must start the process, then report finish_spawn
    /// or fail_spawn.
    StartSpawn { id: u64 },
}

/// Whether some instance carries this workspace key.
pub open spec fn has_key(s: Seq<Instance>, key: WorkspaceKey) -> bool {
    exists|i: int| 0 <= i < s.len() && key_eq(s[i].key, key)
}

/// Whether some instance carries this id.
pub open spec fn has_id(s: Seq<Instance>, id: u64) -> bool {
    exists|i: int| 0 <= i < s.len() && s[i].id == id
}

impl Registry {
    /// Well-formedness: every instance is well formed, ids are distinct
    /// and below the id counter, and no two instances share a workspace
    /// key — the single-instance-per-key guarantee.
    pub open spec fn wf(self) -> bool {
        &&& forall|i: int|
            0 <= i < self.instances@.len() ==> (#[trigger] self.instances@[i]).wf()
        &&& forall|i: int|
            0 <= i < self.instances@.len() ==> (#[trigger] self.instances@[i].id)
                < self.next_instance_id
        &&& forall|i: int, j: int|
            0 <= i < j < self.instances@.len() ==> self.instances@[i].id
                != self.instances@[j].id
        &&& forall|i: int, j: int|
            0 <= i < j < self.instances@.len() ==> !key_eq(
                self.instances@[i].key,
                self.instances@[j].key,
            )
    }

    /// An empty registry.
    pub fn new() -> (r: Registry)
        ensures
            r.wf(),
            r.instances@.len() == 0,
            r.next_instance_id == 0,
    {
        Registry { instances: Vec::new(), next_instance_id: 0 }
    }

    /// The position of the instance carrying `id`, if any.
    pub fn find_by_id(&self, id: u64) -> (r: Option<usize>)
        requires
            self.wf(),
        ensures
            r is None ==> !has_id(self.instances@, id),
            r matches Some(i) ==> i < self.instances@.len() && self.instances@[i as int].id == id,
    {
        let n: usize = self.instances.len();
        let mut i: usize = 0;
        while i < n
            invariant
                n == self.instances@.len(),
                i <= n,
                forall|k: int| 0 <= k < i ==> self.instances@[k].id != id,
            decreases n - i,
        {
            if self.instances[i].id == id {
                return Some(i);
            }
            i += 1;
        }
        None
    }

    /// The position of the instance carrying `key`, if any.
    pub fn find_by_key(&self, key: &WorkspaceKey) -> (r: Option<usize>)
        requires
            self.wf(),
        ensures
            r is None ==> !has_key(self.instances@, *key),
            r matches Some(i) ==> i < self.instances@.len() && key_eq(
                self.instances@[i as int].key,
                *key,
            ),
    {
        let n: usize = self.instances.len();
        let mut i: usize = 0;
        while i < n
            invariant
                n == self.instances@.len(),
                i <= n,
                forall|k: int| 0 <= k < i ==> !key_eq(self.instances@[k].key, *key),
            decreases n - i,
        {
            if self.instances[i].key.same_as(key) {
                return Some(i);
            }
            i += 1;
        }
        None
    }

    /// Get the instance for a key, or decide that one must be spawned.
    ///
    /// When an instance with this key exists, nothing is spawned — even
    /// while its process is still being started by the first comer — and
    /// its last_used is refreshed. Otherwise exactly one new record is
    /// created, in the spawning phase; concurrent callers for the same
    /// key serialize on the registry and every later one finds the record
    /// the first created.
    pub fn get_or_spawn(&mut self, key: WorkspaceKey, now: u64) -> (r: GetOrSpawn)
        requires
            old(self).wf(),
            old(self).next_instance_id < u64::MAX,
        ensures
            final(self).wf(),
            final(self).instances@.len() >= old(self).instances@.len(),
            !has_key(old(self).instances@, key) ==> {
                &&& r == GetOrSpawn::StartSpawn { id: old(self).next_instance_id }
                &&& final(self).instances@.len() == old(self).instances@.len() + 1
                &&& final(self).instances@.subrange(0, old(self).instances@.len() as int) == old(self).instances@
                &&& final(self).instances@.last().id == old(self).next_instance_id
                &&& final(self).instances@.last().key == key
                &&& final(self).instances@.last().phase is Spawning
                &&& final(self).instances@.last().last_used == now
                &&& final(self).instances@.last().sessions@.len() == 0
                &&& final(self).instances@.last().pending@.len() == 0
                &&& final(self).instances@.last().tokens@.len() == 0
                &&& final(self).instances@.last().init_result is None
                &&& final(self).next_instance_id == old(self).next_instance_id + 1
            },
            forall|i: int|
                0 <= i < old(self).instances@.len() && key_eq(
                    (#[trigger] old(self).instances@[i]).key,
                    key,
                ) ==> {
                    &&& r == (GetOrSpawn::Existing {
                        id: old(self).instances@[i].id,
                        spawning: old(self).instances@[i].phase is Spawning,
                    })
                    &&& final(self).instances@ == old(self).instances@.update(
                        i,
                        Instance { last_used: now, ..old(self).instances@[i] },
                    )
                    &&& final(self).next_instance_id == old(self).next_instance_id
                },
    {
        let found = self.find_by_key(&key);
        match found {
            Some(i) => {
                let id = self.instances[i].id;
                let spawning: bool = match self.instances[i].phase {
                    Phase::Spawning => true,
                    Phase::Live { .. } => false,
                };
                let mut inst = self.instances.remove(i);
                inst.touch(now);
                self.instances.insert(i, inst);
                proof {
                    assert(self.instances@ =~= old(self).instances@.update(
                        i as int,
                        Instance { last_used: now, ..old(self).instances@[i as int] },
                    ));
                    assert forall|a: int|
                        0 <= a < old(self).instances@.len() && key_eq(
                            (#[trigger] old(self).instances@[a]).key,
                            key,
                        ) implies a == i by {
                        if a != i {
                            crate::key::lemma_key_eq_same_target(
                                old(self).instances@[a].key,
                                old(self).instances@[i as int].key,
                                key,
                            );
                            if a < i {
                                assert(!key_eq(
                                    old(self).instances@[a].key,
                                    old(self).instances@[i as int].key,
                                ));
                            } else {
                                assert(!key_eq(
                                    old(self).instances@[i as int].key,
                                    old(self).instances@[a].key,
                                ));
                            }
                            assert(false);
                        }
                    }
                    assert forall|a: int, b: int|
                        0 <= a < b < self.instances@.len() implies !key_eq(
                        self.instances@[a].key,
                        self.instances@[b].key,
                    ) && self.instances@[a].id != self.instances@[b].id by {
                        assert(self.instances@[a] == if a == i {
                            Instance { last_used: now, ..old(self).instances@[a] }
                        } else {
                            old(self).instances@[a]
                        });
                        assert(self.instances@[b] == if b == i {
                            Instance { last_used: now, ..old(self).instances@[b] }
                        } else {
                            old(self).instances@[b]
                        });
                    }
                }
                GetOrSpawn::Existing { id, spawning }
            },
            None => {
                let id = self.next_instance_id;
                let inst = Instance::fresh(id, key, now);
                self.instances.push(inst);
                self.next_instance_id = id + 1;
                proof {
                    assert(self.instances@.subrange(0, old(self).instances@.len() as int)
                        =~= old(self).instances@);
                    assert forall|a: int, b: int|
                        0 <= a < b < self.instances@.len() implies !key_eq(
                        self.instances@[a].key,
                        self.instances@[b].key,
                    ) && self.instances@[a].id != self.instances@[b].id by {
                        if b < old(self).instances@.len() {
                            assert(self.instances@[a] == old(self).instances@[a]);
                            assert(self.instances@[b] == old(self).instances@[b]);
                        } else {
                            assert(self.instances@[a] == old(self).instances@[a]);
                            assert(!key_eq(old(self).instances@[a].key, key));
                            assert(old(self).instances@[a].id < old(self).next_instance_id);
                        }
                    }
                }
                GetOrSpawn::StartSpawn { id }
            },
        }
    }

    /// Report that the process for a spawning instance is running. Fails,
    /// changing nothing, when the id is unknown or the instance is not in
    /// the spawning phase.
    pub fn finish_spawn(&mut self, id: u64, pid: u32) -> (r: Result<(), MuxError>)
        requires
            old(self).wf(),
        ensures
            final(self).wf(),
            final(self).next_instance_id == old(self).next_instance_id,
            !has_id(old(self).instances@, id) ==> r == Err::<(), MuxError>(MuxError::Registry)
                && *final(self) == *old(self),
            forall|i: int|
                0 <= i < old(self).instances@.len() && (#[trigger] old(self).instances@[i]).id
                    == id ==> if old(self).instances@[i].phase is Spawning {
                    r == Ok::<(), MuxError>(()) && final(self).instances@ == old(self).instances@.update(
                        i,
                        Instance { phase: Phase::Live { pid }, ..old(self).instances@[i] },
                    )
                } else {
                    r == Err::<(), MuxError>(MuxError::Registry) && *final(self) == *old(self)
                },
    {
        let found = self.find_by_id(id);
        match found {
            None => Err(MuxError::Registry),
            Some(i) => {
                let spawning: bool = match self.instances[i].phase {
                    Phase::Spawning => true,
                    Phase::Live { .. } => false,
                };
                if !spawning {
                    return Err(MuxError::Registry);
                }
                let mut inst = self.instances.remove(i);
                inst.set_live(pid);
                self.instances.insert(i, inst);
                proof {
                    assert(self.instances@ =~= old(self).instances@.update(
                        i as int,
                        Instance { phase: Phase::Live { pid }, ..old(self).instances@[i as int] },
                    ));
                    lemma_same_ids_same_keys_keep_wf(old(self).instances@, *self);
                    lemma_unique_id_pins(old(self).instances@, i as int, id);
                }
                Ok(())
            },
        }
    }

    /// Remove the record of a spawn that failed: no process exists, so
    /// nothing is killed. Fails, changing nothing, when the id is unknown
    /// or the instance is already running.
    pub fn fail_spawn(&mut self, id: u64) -> (r: Result<(), MuxError>)
        requires
            old(self).wf(),
        ensures
            final(self).wf(),
            final(self).next_instance_id == old(self).next_instance_id,
            !has_id(old(self).instances@, id) ==> r == Err::<(), MuxError>(MuxError::Registry)
                && *final(self) == *old(self),
            forall|i: int|
                0 <= i < old(self).instances@.len() && (#[trigger] old(self).instances@[i]).id
                    == id ==> if old(self).instances@[i].phase is Spawning {
                    r == Ok::<(), MuxError>(()) && final(self).instances@ == old(self).instances@.remove(i)
                } else {
                    r == Err::<(), MuxError>(MuxError::Registry) && *final(self) == *old(self)
                },
    {
        let found = self.find_by_id(id);
        match found {
            None => Err(MuxError::Registry),
            Some(i) => {
                let spawning: bool = match self.instances[i].phase {
                    Phase::Spawning => true,
                    Phase::Live { .. } => false,
                };
                if !spawning {
                    return Err(MuxError::Registry);
                }
                let _ = self.instances.remove(i);
                proof {
                    lemma_registry_remove_keeps_wf(old(self).instances@, i as int, *self);
                    lemma_unique_id_pins(old(self).instances@, i as int, id);
                }
                Ok(())
            },
        }
    }

    /// Remove a running instance and hand its record — process id,
    /// attached sessions — to the caller, which kills the process and
    /// tells the sessions. Terminating while the spawn is still in flight
    /// is refused: that race is a registry error, and an unknown id too.
    pub fn terminate(&mut self, id: u64) -> (r: Result<Instance, MuxError>)
        requires
            old(self).wf(),
        ensures
            final(self).wf(),
            final(self).next_instance_id == old(self).next_instance_id,
            !has_id(old(self).instances@, id) ==> r == Err::<Instance, MuxError>(MuxError::Registry)
                && *final(self) == *old(self),
            forall|i: int|
                0 <= i < old(self).instances@.len() && (#[trigger] old(self).instances@[i]).id
                    == id ==> if old(self).instances@[i].phase is Live {
                    r == Ok::<Instance, MuxError>(old(self).instances@[i]) && final(self).instances@ == old(self).instances@.remove(i)
                } else {
                    r == Err::<Instance, MuxError>(MuxError::Registry) && *final(self) == *old(self)
                },
    {
        let found = self.find_by_id(id);
        match found {
            None => Err(MuxError::Registry),
            Some(i) => {
                let live: bool = match self.instances[i].phase {
                    Phase::Spawning => false,
                    Phase::Live { .. } => true,
                };
                if !live {
                    return Err(MuxError::Registry);
                }
                let inst = self.instances.remove(i);
                proof {
                    lemma_registry_remove_keeps_wf(old(self).instances@, i as int, *self);
                    lemma_unique_id_pins(old(self).instances@, i as int, id);
                }
                Ok(inst)
            },
        }
    }

    /// Remove the running instance for a workspace key, as `terminate`
    /// does by id. An unknown key, or one whose spawn is still in flight,
    /// is a registry error and changes nothing.
    pub fn terminate_key(&mut self, key: &WorkspaceKey) -> (r: Result<Instance, MuxError>)
        requires
            old(self).wf(),
        ensures
            final(self).wf(),
            final(self).next_instance_id == old(self).next_instance_id,
            !has_key(old(self).instances@, *key) ==> r == Err::<Instance, MuxError>(
                MuxError::Registry,
            ) && *final(self) == *old(self),
            forall|i: int|
                0 <= i < old(self).instances@.len() && key_eq(
                    (#[trigger] old(self).instances@[i]).key,
                    *key,
                ) ==> if old(self).instances@[i].phase is Live {
                    r == Ok::<Instance, MuxError>(old(self).instances@[i]) && final(self).instances@ == old(self).instances@.remove(i)
                } else {
                    r == Err::<Instance, MuxError>(MuxError::Registry) && *final(self) == *old(
                        self,
                    )
                },
    {
        let found = self.find_by_key(key);
        match found {
            None => Err(MuxError::Registry),
            Some(i) => {
                proof {
                    assert forall|a: int|
                        0 <= a < self.instances@.len() && key_eq(
                            (#[trigger] self.instances@[a]).key,
                            *key,
                        ) implies a == i by {
                        if a != i {
                            crate::key::lemma_key_eq_same_target(
                                self.instances@[a].key,
                                self.instances@[i as int].key,
                                *key,
                            );
                            if a < i {
                                assert(!key_eq(
                                    self.instances@[a].key,
                                    self.instances@[i as int].key,
                                ));
                            } else {
                                assert(!key_eq(
                                    self.instances@[i as int].key,
                                    self.instances@[a].key,
                                ));
                            }
                            assert(false);
                        }
                    }
                }
                let live: bool = match self.instances[i].phase {
                    Phase::Spawning => false,
                    Phase::Live { .. } => true,
                };
                if !live {
                    return Err(MuxError::Registry);
                }
                let inst = self.instances.remove(i);
                proof {
                    lemma_registry_remove_keeps_wf(old(self).instances@, i as int, *self);
                }
                Ok(inst)
            },
        }
    }

    /// The ids of every instance whose workspace root is a prefix of the
    /// directory a reload was issued from, in registry order: reload
    /// terminates exactly those, and their next use respawns them.
    pub fn reload_targets(&self, cwd: &String) -> (r: Vec<u64>)
        requires
            self.wf(),
        ensures
            r@ == self.instances@.filter(
                |inst: Instance| is_prefix_of(inst.key.workspace_root@, cwd@),
            ).map_values(|inst: Instance| inst.id),
    {
        let mut r: Vec<u64> = Vec::new();
        let n: usize = self.instances.len();
        let mut i: usize = 0;
        while i < n
            invariant
                self.wf(),
                n == self.instances@.len(),
                i <= n,
                r@ == self.instances@.take(i as int).filter(
                    |inst: Instance| is_prefix_of(inst.key.workspace_root@, cwd@),
                ).map_values(|inst: Instance| inst.id),
            decreases n - i,
        {
            proof {
                reveal(Seq::filter);
                assert(self.instances@.take(i + 1).drop_last() =~= self.instances@.take(i as int));
                assert(self.instances@.take(i + 1).last() == self.instances@[i as int]);
            }
            if crate::key::str_is_prefix_of(&self.instances[i].key.workspace_root, cwd) {
                r.push(self.instances[i].id);
                proof {
                    assert(self.instances@.take(i + 1).filter(
                        |inst: Instance| is_prefix_of(inst.key.workspace_root@, cwd@),
                    ).map_values(|inst: Instance| inst.id) =~= r@);
                }
            } else {
                proof {
                    assert(self.instances@.take(i + 1).filter(
                        |inst: Instance| is_prefix_of(inst.key.workspace_root@, cwd@),
                    ).map_values(|inst: Instance| inst.id) =~= r@);
                }
            }
            i += 1;
        }
        proof {
            assert(self.instances@.take(n as int) =~= self.instances@);
        }
        r
    }

    /// One sweep of the garbage collector: remove and hand back exactly
    /// the instances that are eligible now — nothing attached, process
    /// running, idle at least the enabled timeout. With the timeout
    /// disabled nothing is ever eligible. The caller kills the returned
    /// processes.
    pub fn gc_collect(&mut self, now: u64, timeout: &InstanceTimeout) -> (r: Vec<Instance>)
        requires
            old(self).wf(),
        ensures
            final(self).wf(),
            final(self).next_instance_id == old(self).next_instance_id,
            final(self).instances@ == old(self).instances@.filter(
                |inst: Instance| !inst.spec_gc_eligible(now, *timeout),
            ),
            r@ == old(self).instances@.filter(
                |inst: Instance| inst.spec_gc_eligible(now, *timeout),
            ),
            *timeout is Disabled ==> final(self).instances@ == old(self).instances@ && r@.len()
                == 0,
    {
        let ghost old_seq = self.instances@;
        let mut kept: Vec<Instance> = Vec::new();
        let mut removed: Vec<Instance> = Vec::new();
        let n: usize = self.instances.len();
        let mut i: usize = 0;
        while i < n
            invariant
                n == old_seq.len(),
                self.instances@ == old_seq.skip(i as int),
                self.next_instance_id == old(self).next_instance_id,
                i <= n,
                kept@ == old_seq.take(i as int).filter(
                    |inst: Instance| !inst.spec_gc_eligible(now, *timeout),
                ),
                removed@ == old_seq.take(i as int).filter(
                    |inst: Instance| inst.spec_gc_eligible(now, *timeout),
                ),
            decreases n - i,
        {
            proof {
                reveal(Seq::filter);
                assert(old_seq.take(i + 1).drop_last() =~= old_seq.take(i as int));
                assert(old_seq.take(i + 1).last() == old_seq[i as int]);
                assert(old_seq.skip(i as int)[0] == old_seq[i as int]);
            }
            let inst = self.instances.remove(0);
            proof {
                assert(self.instances@ =~= old_seq.skip(i + 1));
            }
            let eligible = inst.gc_eligible(now, timeout);
            if eligible {
                removed.push(inst);
                proof {
                    assert(removed@ =~= old_seq.take(i + 1).filter(
                        |inst: Instance| inst.spec_gc_eligible(now, *timeout),
                    ));
                    assert(kept@ =~= old_seq.take(i + 1).filter(
                        |inst: Instance| !inst.spec_gc_eligible(now, *timeout),
                    ));
                }
            } else {
                kept.push(inst);
                proof {
                    assert(removed@ =~= old_seq.take(i + 1).filter(
                        |inst: Instance| inst.spec_gc_eligible(now, *timeout),
                    ));
                    assert(kept@ =~= old_seq.take(i + 1).filter(
                        |inst: Instance| !inst.spec_gc_eligible(now, *timeout),
                    ));
                }
            }
            i += 1;
        }
        proof {
            assert(old_seq.take(n as int) =~= old_seq);
        }
        self.instances = kept;
        proof {
            let keep = |inst: Instance| !inst.spec_gc_eligible(now, *timeout);
            crate::instance::lemma_filter_origin(old_seq, keep);
            crate::instance::lemma_filter_pairwise(
                old_seq,
                keep,
                |a: Instance, b: Instance| a.id != b.id && !key_eq(a.key, b.key),
            );
            assert forall|a: int|
                0 <= a < self.instances@.len() implies (#[trigger] self.instances@[a]).wf()
                && self.instances@[a].id < self.next_instance_id by {
                assert(old_seq.contains(self.instances@[a]));
                let oi = choose|oi: int| 0 <= oi < old_seq.len() && old_seq[oi]
                    == self.instances@[a];
                assert(old_seq[oi].wf());
            }
            if *timeout is Disabled {
                assert forall|k: int| 0 <= k < old_seq.len() implies keep(#[trigger] old_seq[k]) by {}
                lemma_filter_all(old_seq, keep);
                old_seq.lemma_all_neg_filter_empty(
                    |inst: Instance| inst.spec_gc_eligible(now, *timeout),
                );
            }
        }
        removed
    }
}

/// Two instances updated in place keep distinct ids and keys when ids and
/// keys were untouched.
proof fn lemma_same_ids_same_keys_keep_wf(old_seq: Seq<Instance>, new: Registry)
    requires
        new.instances@.len() == old_seq.len(),
        forall|i: int|
            0 <= i < old_seq.len() ==> (#[trigger] new.instances@[i]).id == old_seq[i].id
                && new.instances@[i].key == old_seq[i].key && new.instances@[i].wf()
                && new.instances@[i].id < new.next_instance_id,
        forall|i: int, j: int| 0 <= i < j < old_seq.len() ==> old_seq[i].id != old_seq[j].id,
        forall|i: int, j: int|
            0 <= i < j < old_seq.len() ==> !key_eq(old_seq[i].key, old_seq[j].key),
    ensures
        new.wf(),
{
    assert forall|i: int, j: int|
        0 <= i < j < new.instances@.len() implies new.instances@[i].id != new.instances@[j].id
        && !key_eq(new.instances@[i].key, new.instances@[j].key) by {
        assert(new.instances@[i].id == old_seq[i].id && new.instances@[j].id == old_seq[j].id);
        assert(new.instances@[i].key == old_seq[i].key && new.instances@[j].key == old_seq[j].key);
    }
}

/// In a registry with distinct ids, at most one position carries `id`.
proof fn lemma_unique_id_pins(s: Seq<Instance>, at: int, id: u64)
    requires
        0 <= at < s.len(),
        s[at].id == id,
        forall|i: int, j: int| 0 <= i < j < s.len() ==> s[i].id != s[j].id,
    ensures
        forall|i: int| 0 <= i < s.len() && (#[trigger] s[i]).id == id ==> i == at,
{
    assert forall|i: int| 0 <= i < s.len() && (#[trigger] s[i]).id == id implies i == at by {
        if i != at {
            if i < at {
                assert(s[i].id != s[at].id);
            } else {
                assert(s[at].id != s[i].id);
            }
        }
    }
}

/// Removing one instance keeps the registry well formed.
proof fn lemma_registry_remove_keeps_wf(old_seq: Seq<Instance>, at: int, new: Registry)
    requires
        0 <= at < old_seq.len(),
        forall|i: int| 0 <= i < old_seq.len() ==> (#[trigger] old_seq[i]).wf(),
        forall|i: int|
            0 <= i < old_seq.len() ==> (#[trigger] old_seq[i].id) < new.next_instance_id,
        forall|i: int, j: int| 0 <= i < j < old_seq.len() ==> old_seq[i].id != old_seq[j].id,
        forall|i: int, j: int|
            0 <= i < j < old_seq.len() ==> !key_eq(old_seq[i].key, old_seq[j].key),
        new.instances@ == old_seq.remove(at),
    ensures
        new.wf(),
{
    assert forall|i: int|
        0 <= i < new.instances@.len() implies (#[trigger] new.instances@[i]).wf()
        && new.instances@[i].id < new.next_instance_id by {
        if i < at {
            assert(new.instances@[i] == old_seq[i]);
        } else {
            assert(new.instances@[i] == old_seq[i + 1]);
        }
    }
    assert forall|i: int, j: int|
        0 <= i < j < new.instances@.len() implies new.instances@[i].id != new.instances@[j].id
        && !key_eq(new.instances@[i].key, new.instances@[j].key) by {
        let oi: int = if i < at { i } else { i + 1 };
        let oj: int = if j < at { j } else { j + 1 };
        assert(new.instances@[i] == old_seq[oi]);
        assert(new.instances@[j] == old_seq[oj]);
        assert(0 <= oi < oj < old_seq.len());
    }
}

/// When the predicate holds everywhere, filtering keeps the sequence as
/// it is.
proof fn lemma_filter_all<T>(s: Seq<T>, pred: spec_fn(T) -> bool)
    requires
        forall|i: int| 0 <= i < s.len() ==> pred(#[trigger] s[i]),
    ensures
        s.filter(pred) == s,
    decreases s.len(),
{
    reveal(Seq::filter);
    if s.len() > 0 {
        let butlast = s.drop_last();
        assert forall|i: int| 0 <= i < butlast.len() implies pred(#[trigger] butlast[i]) by {
            assert(butlast[i] == s[i]);
        }
        lemma_filter_all(butlast, pred);
        assert(s.filter(pred) =~= s);
    } else {
        assert(s.filter(pred) =~= s);
    }
}

} // verus!
