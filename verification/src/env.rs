//! Environment handles and their lifecycle.
//!
//! An [`Env`] is a handle with shared ownership of one environment resource
//! held by a [`Runtime`]: cloning a handle adds a reference, releasing a
//! handle drops one, and teardown fires exactly when the last reference
//! goes. An encrypted environment owns one bridge record in the runtime's
//! bridge table; teardown of the environment is the single destroy call on
//! that record. Thread-pool controls configure worker counts and scheduling
//! priority on the resource behind a handle.
#![allow(unused_imports)]
use vstd::prelude::*;

use crate::Error;
use crate::bridge::BridgeTable;
use crate::bridge::CipherBridge;
use crate::cipher::CustomCipher;

verus! {

/// What backs an environment: the default resource-backed environment, a
/// purely in-memory one, or an encrypted one wrapping the bridge record at
/// the carried opaque address.
#[derive(Clone, Copy, Debug, PartialEq, Eq, Structural)]
pub enum EnvKind {
    Default,
    Mem,
    Encrypted(usize),
}

/// One environment resource: its kind, how many handles still own it, the
/// sizes of the three named worker-pool categories, how many worker threads
/// it has started that have not yet terminated, and which best-effort
/// priority demotions have been applied.
#[derive(Clone, Copy, Debug, PartialEq, Eq, Structural)]
pub struct EnvResource {
    pub kind: EnvKind,
    pub refs: usize,
    pub low_threads: i32,
    pub high_threads: i32,
    pub bottom_threads: i32,
    pub workers: u64,
    pub low_pool_io_lowered: bool,
    pub high_pool_io_lowered: bool,
    pub low_pool_cpu_lowered: bool,
    pub high_pool_cpu_lowered: bool,
}

impl EnvResource {
    /// The opaque address of the bridge record this resource owns, if it is
    /// an encrypted environment.
    pub open spec fn bridge_addr(self) -> Option<usize> {
        match self.kind {
            EnvKind::Encrypted(addr) => Some(addr),
            _ => None,
        }
    }
}

/// A freshly constructed resource: one owning handle, every worker-pool
/// category at its default size of one, no worker threads started yet, no
/// priority demotion applied.
pub open spec fn fresh_resource(kind: EnvKind) -> EnvResource {
    EnvResource {
        kind,
        refs: 1,
        low_threads: 1,
        high_threads: 1,
        bottom_threads: 1,
        workers: 0,
        low_pool_io_lowered: false,
        high_pool_io_lowered: false,
        low_pool_cpu_lowered: false,
        high_pool_cpu_lowered: false,
    }
}

/// The native layer's state: every environment resource ever created and
/// every bridge record ever handed over. Resource slots, like bridge
/// addresses, are never reused, so a torn-down environment stays dead.
///
/// `fail_next_create` makes the next environment construction fail the way
/// the native layer can: construction returns an error, retains no partial
/// state, and — for an encrypted environment — the constructing side
/// releases the already-allocated bridge record itself, since destroy will
/// never fire for it.
pub struct Runtime<C> {
    pub bridges: BridgeTable<C>,
    pub envs: Vec<Option<EnvResource>>,
    pub fail_next_create: bool,
}

impl<C> Runtime<C> {
    /// How many environment resources have ever been created.
    pub open spec fn env_count(self) -> int {
        self.envs@.len() as int
    }

    /// Whether the resource `id` still exists (its last handle has not been
    /// released).
    pub open spec fn env_live(self, id: int) -> bool {
        0 <= id < self.env_count() && self.envs@[id] is Some
    }

    /// The resource at a live id.
    pub open spec fn env_at(self, id: int) -> EnvResource {
        self.envs@[id]->0
    }

    /// A live resource is sane: it is owned by at least one handle, and if
    /// it is encrypted its bridge record is still live.
    pub open spec fn env_res_ok(self, id: int) -> bool {
        &&& self.env_at(id).refs >= 1
        &&& (self.env_at(id).bridge_addr() matches Some(a) ==> self.bridges.live(a as int))
    }

    /// Well-formedness of the whole native state: the bridge table is
    /// well-formed, every live resource is sane, and no two live resources
    /// share a bridge record — independently constructed environments are
    /// independent.
    pub open spec fn wf(self) -> bool {
        &&& self.bridges.wf()
        &&& forall|id: int| #[trigger] self.env_live(id) ==> self.env_res_ok(id)
        &&& forall|i: int, j: int|
            self.env_live(i) && self.env_live(j) && i != j && (#[trigger] self.env_at(
                i,
            ).bridge_addr()) is Some && (#[trigger] self.env_at(j).bridge_addr()) is Some
                ==> self.env_at(i).bridge_addr() != self.env_at(j).bridge_addr()
    }

    /// A fresh native layer: no environment, no bridge, no injected
    /// construction failure.
    pub fn new() -> (rt: Runtime<C>)
        ensures
            rt.wf(),
            rt.env_count() == 0,
            rt.bridges.slot_count() == 0,
            rt.bridges.log() =~= Seq::<usize>::empty(),
            !rt.fail_next_create,
    {
        Runtime { bridges: BridgeTable::empty(), envs: Vec::new(), fail_next_create: false }
    }
}

/// A shared handle to one environment resource of a [`Runtime`].
///
/// Handles are duplicated only through [`Env::clone_handle`], which counts
/// the new reference, and consumed by [`Env::release`], which drops one —
/// so ownership is the sole gate to teardown, and no operation can reach an
/// already-torn-down environment through a handle.
#[derive(Debug)]
pub struct Env {
    pub id: usize,
}

/// How many worker threads are outstanding after resizing a pool from
/// `cur` to `n`: growing a pool starts one thread per added slot (capped at
/// the counter's range); shrinking starts none.
pub open spec fn grown_workers(workers: u64, cur: i32, n: i32) -> u64 {
    if n > cur {
        if workers + (n - cur) <= u64::MAX {
            (workers + (n - cur)) as u64
        } else {
            u64::MAX
        }
    } else {
        workers
    }
}

/// Computes [`grown_workers`] without overflow.
fn grow_workers(workers: u64, cur: i32, n: i32) -> (r: u64)
    ensures
        r == grown_workers(workers, cur, n),
{
    if n > cur {
        let d: u64 = ((n as i64) - (cur as i64)) as u64;
        if workers <= u64::MAX - d {
            workers + d
        } else {
            u64::MAX
        }
    } else {
        workers
    }
}

/// Constructs [`fresh_resource`] in executable code.
fn new_resource(kind: EnvKind) -> (r: EnvResource)
    ensures
        r == fresh_resource(kind),
{
    EnvResource {
        kind,
        refs: 1,
        low_threads: 1,
        high_threads: 1,
        bottom_threads: 1,
        workers: 0,
        low_pool_io_lowered: false,
        high_pool_io_lowered: false,
        low_pool_cpu_lowered: false,
        high_pool_cpu_lowered: false,
    }
}

/// Well-formedness depends only on the contents of the resource slots and
/// of the bridge table, not on the runtime value as a whole.
proof fn lemma_wf_same_state<C>(pre: Runtime<C>, post: Runtime<C>)
    requires
        pre.wf(),
        post.envs@ == pre.envs@,
        post.bridges.slots@ == pre.bridges.slots@,
        post.bridges.destroy_log@ == pre.bridges.destroy_log@,
    ensures
        post.wf(),
{
    assert(post.bridges.wf()) by {
        assert forall|i: int|
            0 <= i < post.bridges.log().len() implies (#[trigger] post.bridges.log()[i])
            < post.bridges.slot_count() && !post.bridges.live(post.bridges.log()[i] as int) by {
            assert(pre.bridges.log()[i] < pre.bridges.slot_count());
            assert(!pre.bridges.live(pre.bridges.log()[i] as int));
        }
        assert forall|i: int, j: int|
            0 <= i < j < post.bridges.log().len() implies post.bridges.log()[i]
            != post.bridges.log()[j] by {
            assert(pre.bridges.log()[i] != pre.bridges.log()[j]);
        }
    }
    assert forall|id: int| #[trigger] post.env_live(id) implies post.env_res_ok(id) by {
        assert(pre.env_live(id));
        assert(pre.env_res_ok(id));
        assert(post.env_at(id) == pre.env_at(id));
    }
    assert forall|i: int, j: int|
        post.env_live(i) && post.env_live(j) && i != j && (#[trigger] post.env_at(
            i,
        ).bridge_addr()) is Some && (#[trigger] post.env_at(j).bridge_addr()) is Some implies post.env_at(
        i,
    ).bridge_addr() != post.env_at(j).bridge_addr() by {
        assert(pre.env_live(i) && pre.env_live(j));
        assert(post.env_at(i) == pre.env_at(i));
        assert(post.env_at(j) == pre.env_at(j));
    }
}

/// Well-formedness survives replacing one live resource by another of the
/// same kind that is still owned, with the bridge table untouched.
proof fn lemma_wf_update_same_kind<C>(pre: Runtime<C>, post: Runtime<C>, id: int)
    requires
        pre.wf(),
        post.bridges == pre.bridges,
        post.env_count() == pre.env_count(),
        pre.env_live(id),
        post.env_live(id),
        forall|j: int| 0 <= j < pre.env_count() && j != id ==> post.envs@[j] == pre.envs@[j],
        post.env_at(id).kind == pre.env_at(id).kind,
        post.env_at(id).refs >= 1,
    ensures
        post.wf(),
{
    assert forall|j: int| #[trigger] post.env_live(j) implies post.env_res_ok(j) by {
        assert(pre.env_live(j));
        if j != id {
            assert(post.env_at(j) == pre.env_at(j));
        }
        assert(pre.env_res_ok(j));
    }
    assert forall|i: int, j: int|
        post.env_live(i) && post.env_live(j) && i != j && (#[trigger] post.env_at(
            i,
        ).bridge_addr()) is Some && (#[trigger] post.env_at(j).bridge_addr()) is Some implies post.env_at(
        i,
    ).bridge_addr() != post.env_at(j).bridge_addr() by {
        assert(pre.env_live(i) && pre.env_live(j));
        assert(post.env_at(i).bridge_addr() == pre.env_at(i).bridge_addr());
        assert(post.env_at(j).bridge_addr() == pre.env_at(j).bridge_addr());
    }
}

impl Env {
    /// Returns a default, resource-backed environment, or
    /// [`Error::EnvCreationFailed`] when the native layer cannot allocate
    /// one — in which case no partial state is retained.
    pub fn new<C: CustomCipher>(rt: &mut Runtime<C>) -> (r: Result<Env, Error>)
        requires
            old(rt).wf(),
        ensures
            final(rt).wf(),
            !final(rt).fail_next_create,
            final(rt).bridges == old(rt).bridges,
            old(rt).fail_next_create ==> r == Err::<Env, Error>(Error::EnvCreationFailed)
                && final(rt).envs == old(rt).envs,
            !old(rt).fail_next_create ==> ({
                &&& r matches Ok(env)
                &&& env.id == old(rt).env_count()
                &&& final(rt).env_count() == old(rt).env_count() + 1
                &&& final(rt).env_live(env.id as int)
                &&& final(rt).env_at(env.id as int) == fresh_resource(EnvKind::Default)
                &&& forall|j: int|
                    0 <= j < old(rt).env_count() ==> final(rt).envs@[j] == old(rt).envs@[j]
            }),
    {
        create_plain(rt, EnvKind::Default)
    }

    /// Returns a new environment that stores its data in memory, with the
    /// same failure mode and cleanup contract as [`Env::new`].
    pub fn mem_env<C: CustomCipher>(rt: &mut Runtime<C>) -> (r: Result<Env, Error>)
        requires
            old(rt).wf(),
        ensures
            final(rt).wf(),
            !final(rt).fail_next_create,
            final(rt).bridges == old(rt).bridges,
            old(rt).fail_next_create ==> r == Err::<Env, Error>(Error::EnvCreationFailed)
                && final(rt).envs == old(rt).envs,
            !old(rt).fail_next_create ==> ({
                &&& r matches Ok(env)
                &&& env.id == old(rt).env_count()
                &&& final(rt).env_count() == old(rt).env_count() + 1
                &&& final(rt).env_live(env.id as int)
                &&& final(rt).env_at(env.id as int) == fresh_resource(EnvKind::Mem)
                &&& forall|j: int|
                    0 <= j < old(rt).env_count() ==> final(rt).envs@[j] == old(rt).envs@[j]
            }),
    {
        create_plain(rt, EnvKind::Mem)
    }

    /// Creates an encrypted environment around `cipher` and the two byte
    /// sizes fixed for every subsequent call.
    ///
    /// A bridge record is always allocated first and handed its fresh
    /// opaque address. On success the new environment owns that record; on
    /// construction failure the record is released immediately by this
    /// side — destroy never fires in that path — and nothing else changes.
    pub fn encrypted<C: CustomCipher>(
        rt: &mut Runtime<C>,
        cipher: C,
        metadata_size: usize,
        block_size: usize,
    ) -> (r: Result<Env, Error>)
        requires
            old(rt).wf(),
        ensures
            final(rt).wf(),
            !final(rt).fail_next_create,
            old(rt).fail_next_create ==> r == Err::<Env, Error>(Error::EnvCreationFailed)
                && final(rt).envs == old(rt).envs && final(rt).bridges.slots@ == old(rt).bridges.slots@ && final(rt).bridges.log() == old(rt).bridges.log(),
            !old(rt).fail_next_create ==> ({
                &&& r matches Ok(env)
                &&& env.id == old(rt).env_count()
                &&& final(rt).env_count() == old(rt).env_count() + 1
                &&& final(rt).env_live(env.id as int)
                &&& final(rt).env_at(env.id as int) == fresh_resource(
                    EnvKind::Encrypted(old(rt).bridges.slot_count() as usize),
                )
                &&& final(rt).bridges.slot_count() == old(rt).bridges.slot_count() + 1
                &&& final(rt).bridges.live(old(rt).bridges.slot_count())
                &&& final(rt).bridges.record(old(rt).bridges.slot_count()) == (CipherBridge {
                    cipher,
                    block_size,
                    metadata_size,
                })
                &&& final(rt).bridges.log() == old(rt).bridges.log()
                &&& forall|a: int|
                    0 <= a < old(rt).bridges.slot_count() ==> final(rt).bridges.slots@[a]
                        == old(rt).bridges.slots@[a]
                &&& forall|j: int|
                    0 <= j < old(rt).env_count() ==> final(rt).envs@[j] == old(rt).envs@[j]
            }),
    {
        let addr = rt.bridges.register(cipher, block_size, metadata_size);
        if rt.fail_next_create {
            rt.fail_next_create = false;
            rt.bridges.release_unconstructed(addr);
            proof {
                assert(rt.bridges.slots@ =~= old(rt).bridges.slots@);
                lemma_wf_same_state(*old(rt), *rt);
            }
            Err(Error::EnvCreationFailed)
        } else {
            let id = rt.envs.len();
            rt.envs.push(Some(new_resource(EnvKind::Encrypted(addr))));
            proof {
                assert forall|j: int| #[trigger] rt.env_live(j) implies rt.env_res_ok(j) by {
                    if j < old(rt).env_count() {
                        assert(old(rt).env_live(j));
                        assert(old(rt).env_res_ok(j));
                        assert(rt.env_at(j) == old(rt).env_at(j));
                        if rt.env_at(j).bridge_addr() is Some {
                            let a = rt.env_at(j).bridge_addr()->0;
                            assert(old(rt).bridges.live(a as int));
                            assert(rt.bridges.live(a as int));
                        }
                    } else {
                        assert(j == id);
                        assert(rt.env_at(j) == fresh_resource(EnvKind::Encrypted(addr)));
                        assert(rt.bridges.live(addr as int));
                    }
                }
                assert forall|i: int, j: int|
                    rt.env_live(i) && rt.env_live(j) && i != j && (#[trigger] rt.env_at(
                        i,
                    ).bridge_addr()) is Some && (#[trigger] rt.env_at(j).bridge_addr()) is Some implies rt.env_at(
                    i,
                ).bridge_addr() != rt.env_at(j).bridge_addr() by {
                    if i < old(rt).env_count() && j < old(rt).env_count() {
                        assert(old(rt).env_live(i) && old(rt).env_live(j));
                    } else if i == id && j < old(rt).env_count() {
                        let b = rt.env_at(j).bridge_addr()->0;
                        assert(old(rt).env_live(j));
                        assert(old(rt).env_res_ok(j));
                        assert(old(rt).bridges.live(b as int));
                        assert(b < addr);
                    } else if j == id && i < old(rt).env_count() {
                        let b = rt.env_at(i).bridge_addr()->0;
                        assert(old(rt).env_live(i));
                        assert(old(rt).env_res_ok(i));
                        assert(old(rt).bridges.live(b as int));
                        assert(b < addr);
                    }
                }
            }
            Ok(Env { id })
        }
    }

    /// Counts one more owning reference to this handle's resource and
    /// returns the new handle. The resource is shared, not copied.
    pub fn clone_handle<C: CustomCipher>(&self, rt: &mut Runtime<C>) -> (h: Env)
        requires
            old(rt).wf(),
            old(rt).env_live(self.id as int),
            old(rt).env_at(self.id as int).refs < usize::MAX,
        ensures
            final(rt).wf(),
            h.id == self.id,
            final(rt).env_count() == old(rt).env_count(),
            final(rt).env_live(self.id as int),
            final(rt).env_at(self.id as int) == (EnvResource {
                refs: (old(rt).env_at(self.id as int).refs + 1) as usize,
                ..old(rt).env_at(self.id as int)
            }),
            forall|j: int|
                0 <= j < old(rt).env_count() && j != self.id ==> final(rt).envs@[j] == old(rt).envs@[j],
            final(rt).bridges == old(rt).bridges,
            final(rt).fail_next_create == old(rt).fail_next_create,
    {
        match rt.envs[self.id] {
            Some(mut res) => {
                res.refs = res.refs + 1;
                rt.envs.set(self.id, Some(res));
                proof {
                    lemma_wf_update_same_kind(*old(rt), *rt, self.id as int);
                }
                Env { id: self.id }
            },
            None => vstd::pervasive::unreached(),
        }
    }

    /// Gives up this handle's reference. When it was the last one the
    /// resource is torn down now: an encrypted environment fires the single
    /// destroy call on its bridge record. Earlier references tear nothing
    /// down, and other environments and their bridges are untouched either
    /// way.
    pub fn release<C: CustomCipher>(self, rt: &mut Runtime<C>)
        requires
            old(rt).wf(),
            old(rt).env_live(self.id as int),
        ensures
            final(rt).wf(),
            final(rt).env_count() == old(rt).env_count(),
            final(rt).fail_next_create == old(rt).fail_next_create,
            forall|j: int|
                0 <= j < old(rt).env_count() && j != self.id ==> final(rt).envs@[j] == old(rt).envs@[j],
            old(rt).env_at(self.id as int).refs > 1 ==> ({
                &&& final(rt).env_live(self.id as int)
                &&& final(rt).env_at(self.id as int) == (EnvResource {
                    refs: (old(rt).env_at(self.id as int).refs - 1) as usize,
                    ..old(rt).env_at(self.id as int)
                })
                &&& final(rt).bridges == old(rt).bridges
            }),
            old(rt).env_at(self.id as int).refs == 1 ==> ({
                &&& !final(rt).env_live(self.id as int)
                &&& old(rt).env_at(self.id as int).bridge_addr() matches Some(a) ==> ({
                    &&& !final(rt).bridges.live(a as int)
                    &&& final(rt).bridges.log() == old(rt).bridges.log().push(a)
                    &&& final(rt).bridges.slot_count() == old(rt).bridges.slot_count()
                    &&& forall|b: int|
                        0 <= b < old(rt).bridges.slot_count() && b != a
                            ==> final(rt).bridges.slots@[b] == old(rt).bridges.slots@[b]
                })
                &&& old(rt).env_at(self.id as int).bridge_addr() is None ==> final(rt).bridges
                    == old(rt).bridges
            }),
    {
        match rt.envs[self.id] {
            Some(mut res) => {
                if res.refs > 1 {
                    res.refs = res.refs - 1;
                    rt.envs.set(self.id, Some(res));
                    proof {
                        lemma_wf_update_same_kind(*old(rt), *rt, self.id as int);
                    }
                } else {
                    rt.envs.set(self.id, None);
                    match res.kind {
                        EnvKind::Encrypted(addr) => {
                            proof {
                                assert(old(rt).env_res_ok(self.id as int));
                            }
                            crate::bridge::destroy(&mut rt.bridges, addr);
                            proof {
                                lemma_wf_after_teardown(*old(rt), *rt, self.id as int, addr);
                            }
                        },
                        _ => {
                            proof {
                                assert forall|j: int| #[trigger] rt.env_live(j) implies rt.env_res_ok(
                                    j,
                                ) by {
                                    assert(j != self.id as int);
                                    assert(old(rt).env_live(j));
                                    assert(rt.env_at(j) == old(rt).env_at(j));
                                    assert(old(rt).env_res_ok(j));
                                }
                                assert forall|i: int, j: int|
                                    rt.env_live(i) && rt.env_live(j) && i != j && (
                                    #[trigger] rt.env_at(i).bridge_addr()) is Some && (
                                    #[trigger] rt.env_at(j).bridge_addr()) is Some implies rt.env_at(
                                    i,
                                ).bridge_addr() != rt.env_at(j).bridge_addr() by {
                                    assert(old(rt).env_live(i) && old(rt).env_live(j));
                                    assert(rt.env_at(i) == old(rt).env_at(i));
                                    assert(rt.env_at(j) == old(rt).env_at(j));
                                }
                            }
                        },
                    }
                }
            },
            None => vstd::pervasive::unreached(),
        }
    }

    /// Sets the number of background worker threads of the default (low
    /// priority) pool. Fire-and-forget: it cannot fail.
    pub fn set_background_threads<C: CustomCipher>(&self, rt: &mut Runtime<C>, num_threads: i32)
        requires
            old(rt).wf(),
            old(rt).env_live(self.id as int),
        ensures
            final(rt).wf(),
            final(rt).env_live(self.id as int),
            final(rt).env_at(self.id as int) == (EnvResource {
                low_threads: num_threads,
                workers: grown_workers(
                    old(rt).env_at(self.id as int).workers,
                    old(rt).env_at(self.id as int).low_threads,
                    num_threads,
                ),
                ..old(rt).env_at(self.id as int)
            }),
            final(rt).env_count() == old(rt).env_count(),
            forall|j: int|
                0 <= j < old(rt).env_count() && j != self.id ==> final(rt).envs@[j] == old(rt).envs@[j],
            final(rt).bridges == old(rt).bridges,
            final(rt).fail_next_create == old(rt).fail_next_create,
    {
        match rt.envs[self.id] {
            Some(mut res) => {
                res.workers = grow_workers(res.workers, res.low_threads, num_threads);
                res.low_threads = num_threads;
                rt.envs.set(self.id, Some(res));
                proof {
                    lemma_wf_update_same_kind(*old(rt), *rt, self.id as int);
                }
            },
            None => vstd::pervasive::unreached(),
        }
    }

    /// Sets the size of the high priority pool, which can keep compactions
    /// from stalling memtable flushes. Fire-and-forget.
    pub fn set_high_priority_background_threads<C: CustomCipher>(
        &self,
        rt: &mut Runtime<C>,
        n: i32,
    )
        requires
            old(rt).wf(),
            old(rt).env_live(self.id as int),
        ensures
            final(rt).wf(),
            final(rt).env_live(self.id as int),
            final(rt).env_at(self.id as int) == (EnvResource {
                high_threads: n,
                workers: grown_workers(
                    old(rt).env_at(self.id as int).workers,
                    old(rt).env_at(self.id as int).high_threads,
                    n,
                ),
                ..old(rt).env_at(self.id as int)
            }),
            final(rt).env_count() == old(rt).env_count(),
            forall|j: int|
                0 <= j < old(rt).env_count() && j != self.id ==> final(rt).envs@[j] == old(rt).envs@[j],
            final(rt).bridges == old(rt).bridges,
            final(rt).fail_next_create == old(rt).fail_next_create,
    {
        match rt.envs[self.id] {
            Some(mut res) => {
                res.workers = grow_workers(res.workers, res.high_threads, n);
                res.high_threads = n;
                rt.envs.set(self.id, Some(res));
                proof {
                    lemma_wf_update_same_kind(*old(rt), *rt, self.id as int);
                }
            },
            None => vstd::pervasive::unreached(),
        }
    }

    /// Sets the size of the low priority pool. Fire-and-forget.
    pub fn set_low_priority_background_threads<C: CustomCipher>(
        &self,
        rt: &mut Runtime<C>,
        n: i32,
    )
        requires
            old(rt).wf(),
            old(rt).env_live(self.id as int),
        ensures
            final(rt).wf(),
            final(rt).env_live(self.id as int),
            final(rt).env_at(self.id as int) == (EnvResource {
                low_threads: n,
                workers: grown_workers(
                    old(rt).env_at(self.id as int).workers,
                    old(rt).env_at(self.id as int).low_threads,
                    n,
                ),
                ..old(rt).env_at(self.id as int)
            }),
            final(rt).env_count() == old(rt).env_count(),
            forall|j: int|
                0 <= j < old(rt).env_count() && j != self.id ==> final(rt).envs@[j] == old(rt).envs@[j],
            final(rt).bridges == old(rt).bridges,
            final(rt).fail_next_create == old(rt).fail_next_create,
    {
        match rt.envs[self.id] {
            Some(mut res) => {
                res.workers = grow_workers(res.workers, res.low_threads, n);
                res.low_threads = n;
                rt.envs.set(self.id, Some(res));
                proof {
                    lemma_wf_update_same_kind(*old(rt), *rt, self.id as int);
                }
            },
            None => vstd::pervasive::unreached(),
        }
    }

    /// Sets the size of the bottom priority pool. Fire-and-forget.
    pub fn set_bottom_priority_background_threads<C: CustomCipher>(
        &self,
        rt: &mut Runtime<C>,
        n: i32,
    )
        requires
            old(rt).wf(),
            old(rt).env_live(self.id as int),
        ensures
            final(rt).wf(),
            final(rt).env_live(self.id as int),
            final(rt).env_at(self.id as int) == (EnvResource {
                bottom_threads: n,
                workers: grown_workers(
                    old(rt).env_at(self.id as int).workers,
                    old(rt).env_at(self.id as int).bottom_threads,
                    n,
                ),
                ..old(rt).env_at(self.id as int)
            }),
            final(rt).env_count() == old(rt).env_count(),
            forall|j: int|
                0 <= j < old(rt).env_count() && j != self.id ==> final(rt).envs@[j] == old(rt).envs@[j],
            final(rt).bridges == old(rt).bridges,
            final(rt).fail_next_create == old(rt).fail_next_create,
    {
        match rt.envs[self.id] {
            Some(mut res) => {
                res.workers = grow_workers(res.workers, res.bottom_threads, n);
                res.bottom_threads = n;
                rt.envs.set(self.id, Some(res));
                proof {
                    lemma_wf_update_same_kind(*old(rt), *rt, self.id as int);
                }
            },
            None => vstd::pervasive::unreached(),
        }
    }

    /// Waits until every worker thread this environment has started has
    /// terminated: each loop turn retires one outstanding worker, and the
    /// call provably returns once none remains pending.
    pub fn join_all_threads<C: CustomCipher>(&self, rt: &mut Runtime<C>)
        requires
            old(rt).wf(),
            old(rt).env_live(self.id as int),
        ensures
            final(rt).wf(),
            final(rt).env_live(self.id as int),
            final(rt).env_at(self.id as int) == (EnvResource {
                workers: 0,
                ..old(rt).env_at(self.id as int)
            }),
            final(rt).env_count() == old(rt).env_count(),
            forall|j: int|
                0 <= j < old(rt).env_count() && j != self.id ==> final(rt).envs@[j] == old(rt).envs@[j],
            final(rt).bridges == old(rt).bridges,
            final(rt).fail_next_create == old(rt).fail_next_create,
    {
        match rt.envs[self.id] {
            Some(mut res) => {
                let ghost res0 = res;
                while res.workers > 0
                    invariant
                        res == (EnvResource { workers: res.workers, ..res0 }),
                    decreases res.workers,
                {
                    res.workers = res.workers - 1;
                }
                rt.envs.set(self.id, Some(res));
                proof {
                    lemma_wf_update_same_kind(*old(rt), *rt, self.id as int);
                }
            },
            None => vstd::pervasive::unreached(),
        }
    }

    /// Best-effort demotion of OS I/O scheduling priority for the default
    /// pool's threads. Never fails observably.
    pub fn lower_thread_pool_io_priority<C: CustomCipher>(&self, rt: &mut Runtime<C>)
        requires
            old(rt).wf(),
            old(rt).env_live(self.id as int),
        ensures
            final(rt).wf(),
            final(rt).env_live(self.id as int),
            final(rt).env_at(self.id as int) == (EnvResource {
                low_pool_io_lowered: true,
                ..old(rt).env_at(self.id as int)
            }),
            final(rt).env_count() == old(rt).env_count(),
            forall|j: int|
                0 <= j < old(rt).env_count() && j != self.id ==> final(rt).envs@[j] == old(rt).envs@[j],
            final(rt).bridges == old(rt).bridges,
            final(rt).fail_next_create == old(rt).fail_next_create,
    {
        match rt.envs[self.id] {
            Some(mut res) => {
                res.low_pool_io_lowered = true;
                rt.envs.set(self.id, Some(res));
                proof {
                    lemma_wf_update_same_kind(*old(rt), *rt, self.id as int);
                }
            },
            None => vstd::pervasive::unreached(),
        }
    }

    /// Best-effort demotion of OS I/O scheduling priority for the high
    /// priority pool's threads. Never fails observably.
    pub fn lower_high_priority_thread_pool_io_priority<C: CustomCipher>(&self, rt: &mut Runtime<C>)
        requires
            old(rt).wf(),
            old(rt).env_live(self.id as int),
        ensures
            final(rt).wf(),
            final(rt).env_live(self.id as int),
            final(rt).env_at(self.id as int) == (EnvResource {
                high_pool_io_lowered: true,
                ..old(rt).env_at(self.id as int)
            }),
            final(rt).env_count() == old(rt).env_count(),
            forall|j: int|
                0 <= j < old(rt).env_count() && j != self.id ==> final(rt).envs@[j] == old(rt).envs@[j],
            final(rt).bridges == old(rt).bridges,
            final(rt).fail_next_create == old(rt).fail_next_create,
    {
        match rt.envs[self.id] {
            Some(mut res) => {
                res.high_pool_io_lowered = true;
                rt.envs.set(self.id, Some(res));
                proof {
                    lemma_wf_update_same_kind(*old(rt), *rt, self.id as int);
                }
            },
            None => vstd::pervasive::unreached(),
        }
    }

    /// Best-effort demotion of OS CPU scheduling priority for the default
    /// pool's threads. Never fails observably.
    pub fn lower_thread_pool_cpu_priority<C: CustomCipher>(&self, rt: &mut Runtime<C>)
        requires
            old(rt).wf(),
            old(rt).env_live(self.id as int),
        ensures
            final(rt).wf(),
            final(rt).env_live(self.id as int),
            final(rt).env_at(self.id as int) == (EnvResource {
                low_pool_cpu_lowered: true,
                ..old(rt).env_at(self.id as int)
            }),
            final(rt).env_count() == old(rt).env_count(),
            forall|j: int|
                0 <= j < old(rt).env_count() && j != self.id ==> final(rt).envs@[j] == old(rt).envs@[j],
            final(rt).bridges == old(rt).bridges,
            final(rt).fail_next_create == old(rt).fail_next_create,
    {
        match rt.envs[self.id] {
            Some(mut res) => {
                res.low_pool_cpu_lowered = true;
                rt.envs.set(self.id, Some(res));
                proof {
                    lemma_wf_update_same_kind(*old(rt), *rt, self.id as int);
                }
            },
            None => vstd::pervasive::unreached(),
        }
    }

    /// Best-effort demotion of OS CPU scheduling priority for the high
    /// priority pool's threads. Never fails observably.
    pub fn lower_high_priority_thread_pool_cpu_priority<C: CustomCipher>(
        &self,
        rt: &mut Runtime<C>,
    )
        requires
            old(rt).wf(),
            old(rt).env_live(self.id as int),
        ensures
            final(rt).wf(),
            final(rt).env_live(self.id as int),
            final(rt).env_at(self.id as int) == (EnvResource {
                high_pool_cpu_lowered: true,
                ..old(rt).env_at(self.id as int)
            }),
            final(rt).env_count() == old(rt).env_count(),
            forall|j: int|
                0 <= j < old(rt).env_count() && j != self.id ==> final(rt).envs@[j] == old(rt).envs@[j],
            final(rt).bridges == old(rt).bridges,
            final(rt).fail_next_create == old(rt).fail_next_create,
    {
        match rt.envs[self.id] {
            Some(mut res) => {
                res.high_pool_cpu_lowered = true;
                rt.envs.set(self.id, Some(res));
                proof {
                    lemma_wf_update_same_kind(*old(rt), *rt, self.id as int);
                }
            },
            None => vstd::pervasive::unreached(),
        }
    }
}

/// Creates a plain (default or in-memory) environment resource.
fn create_plain<C: CustomCipher>(rt: &mut Runtime<C>, kind: EnvKind) -> (r: Result<Env, Error>)
    requires
        old(rt).wf(),
        kind == EnvKind::Default || kind == EnvKind::Mem,
    ensures
        final(rt).wf(),
        !final(rt).fail_next_create,
        final(rt).bridges == old(rt).bridges,
        old(rt).fail_next_create ==> r == Err::<Env, Error>(Error::EnvCreationFailed) && final(rt).envs == old(rt).envs,
        !old(rt).fail_next_create ==> ({
            &&& r matches Ok(env)
            &&& env.id == old(rt).env_count()
            &&& final(rt).env_count() == old(rt).env_count() + 1
            &&& final(rt).env_live(env.id as int)
            &&& final(rt).env_at(env.id as int) == fresh_resource(kind)
            &&& forall|j: int|
                0 <= j < old(rt).env_count() ==> final(rt).envs@[j] == old(rt).envs@[j]
        }),
{
    if rt.fail_next_create {
        rt.fail_next_create = false;
        proof {
            lemma_wf_same_state(*old(rt), *rt);
        }
        Err(Error::EnvCreationFailed)
    } else {
        let id = rt.envs.len();
        rt.envs.push(Some(new_resource(kind)));
        proof {
            assert forall|j: int| #[trigger] rt.env_live(j) implies rt.env_res_ok(j) by {
                if j < old(rt).env_count() {
                    assert(old(rt).env_live(j));
                    assert(old(rt).env_res_ok(j));
                    assert(rt.env_at(j) == old(rt).env_at(j));
                } else {
                    assert(j == id);
                    assert(rt.env_at(j) == fresh_resource(kind));
                }
            }
            assert forall|i: int, j: int|
                rt.env_live(i) && rt.env_live(j) && i != j && (#[trigger] rt.env_at(
                    i,
                ).bridge_addr()) is Some && (#[trigger] rt.env_at(j).bridge_addr()) is Some implies rt.env_at(
                i,
            ).bridge_addr() != rt.env_at(j).bridge_addr() by {
                assert(rt.env_at(id as int).bridge_addr() is None);
                assert(i != id && j != id);
                assert(old(rt).env_live(i) && old(rt).env_live(j));
            }
        }
        Ok(Env { id })
    }
}

/// Well-formedness survives tearing down the encrypted environment `id`
/// together with destroying its bridge record: every other live resource
/// owns a different bridge, so its record survives.
proof fn lemma_wf_after_teardown<C>(pre: Runtime<C>, post: Runtime<C>, id: int, addr: usize)
    requires
        pre.wf(),
        pre.env_live(id),
        pre.env_at(id).bridge_addr() == Some(addr),
        post.env_count() == pre.env_count(),
        !post.env_live(id),
        forall|j: int| 0 <= j < pre.env_count() && j != id ==> post.envs@[j] == pre.envs@[j],
        post.bridges.wf(),
        post.bridges.slot_count() == pre.bridges.slot_count(),
        forall|b: int|
            0 <= b < pre.bridges.slot_count() && b != addr ==> post.bridges.slots@[b]
                == pre.bridges.slots@[b],
    ensures
        post.wf(),
{
    assert forall|j: int| #[trigger] post.env_live(j) implies post.env_res_ok(j) by {
        assert(j != id);
        assert(pre.env_live(j));
        assert(post.env_at(j) == pre.env_at(j));
        assert(pre.env_res_ok(j));
        if post.env_at(j).bridge_addr() is Some {
            let b = post.env_at(j).bridge_addr()->0;
            assert(pre.bridges.live(b as int));
            assert(pre.env_at(j).bridge_addr() != pre.env_at(id).bridge_addr());
            assert(b != addr);
            assert(post.bridges.live(b as int));
        }
    }
    assert forall|i: int, j: int|
        post.env_live(i) && post.env_live(j) && i != j && (#[trigger] post.env_at(
            i,
        ).bridge_addr()) is Some && (#[trigger] post.env_at(j).bridge_addr()) is Some implies post.env_at(
        i,
    ).bridge_addr() != post.env_at(j).bridge_addr() by {
        assert(pre.env_live(i) && pre.env_live(j));
        assert(post.env_at(i) == pre.env_at(i));
        assert(post.env_at(j) == pre.env_at(j));
    }
}

/// Law (isolation): two distinct live environments never own the same
/// bridge record, so destroying one cannot affect calls on the other.
pub proof fn lemma_independent_bridges<C>(rt: Runtime<C>, id1: int, id2: int)
    requires
        rt.wf(),
        rt.env_live(id1),
        rt.env_live(id2),
        id1 != id2,
        rt.env_at(id1).bridge_addr() is Some,
        rt.env_at(id2).bridge_addr() is Some,
    ensures
        rt.env_at(id1).bridge_addr() != rt.env_at(id2).bridge_addr(),
{
}

} // verus!
