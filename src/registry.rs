//! The sessions of the synthetic device, keyed by file handle; the counter
//! that mints file handles; and the routing of jobs to per-target queues.

use vstd::prelude::*;
use crate::jobs::JobTarget;
use crate::namespace::NamespaceInodes;
use crate::session::{VuFileHandle, VuInputState};

verus! {

/// Why a registry operation failed.
#[derive(Clone, Copy, Debug, PartialEq, Eq, Structural)]
pub enum RegistryError {
    /// The file handle is already open: handles are never reused.
    HandleReused,
    /// No session has this file handle.
    UnknownHandle,
}

/// The open sessions.
#[derive(Debug)]
pub struct VuInputStates {
    entries: Vec<(u64, VuInputState)>,
}

pub open spec fn handle_index(es: Seq<(u64, VuInputState)>, fh: u64) -> Option<int>
    decreases es.len(),
{
    if es.len() == 0 {
        None
    } else if es.last().0 == fh {
        Some(es.len() - 1)
    } else {
        handle_index(es.drop_last(), fh)
    }
}

proof fn lemma_handle_index(es: Seq<(u64, VuInputState)>, fh: u64)
    ensures
        match handle_index(es, fh) {
            Some(i) => 0 <= i < es.len() && es[i].0 == fh,
            None => forall|j: int| 0 <= j < es.len() ==> es[j].0 != fh,
        },
    decreases es.len(),
{
    if es.len() > 0 && es.last().0 != fh {
        lemma_handle_index(es.drop_last(), fh);
        assert forall|j: int| 0 <= j < es.len() - 1 implies es[j] == es.drop_last()[j] by {}
    }
}

/// No handle occurs twice.
pub open spec fn unique_handles(es: Seq<(u64, VuInputState)>) -> bool {
    forall|a: int, b: int| 0 <= a < b < es.len() ==> es[a].0 != es[b].0
}

/// In a sequence without repeated handles, the entry of a handle is the one
/// that carries it.
proof fn lemma_handle_at(es: Seq<(u64, VuInputState)>, j: int)
    requires
        unique_handles(es),
        0 <= j < es.len(),
    ensures
        handle_index(es, es[j].0) == Some(j),
{
    lemma_handle_index(es, es[j].0);
    let i = handle_index(es, es[j].0)->Some_0;
    if i < j {
        assert(es[i].0 != es[j].0);
    } else if j < i {
        assert(es[j].0 != es[i].0);
    }
}

/// No session is open.
pub fn initialize_vuinput_state() -> (r: VuInputStates)
    ensures
        r.wf(),
        forall|fh: u64| !r.is_open(fh),
        r.sessions() == Map::<u64, VuInputState>::empty(),
        r.handles() == Set::<u64>::empty(),
{
    let r = VuInputStates { entries: Vec::new() };
    assert(r.sessions() =~= Map::<u64, VuInputState>::empty());
    r
}

impl VuInputStates {
    /// The open sessions, by handle.
    pub closed spec fn sessions(&self) -> Map<u64, VuInputState> {
        Map::new(
            |fh: u64| handle_index(self.entries@, fh) is Some,
            |fh: u64| self.entries@[handle_index(self.entries@, fh)->Some_0].1,
        )
    }

    /// The handles of the open sessions.
    pub closed spec fn handles(&self) -> Set<u64> {
        Set::new(|fh: u64| handle_index(self.entries@, fh) is Some)
    }

    /// Each handle has at most one session.
    pub closed spec fn wf(&self) -> bool {
        unique_handles(self.entries@)
    }

    pub open spec fn is_open(&self, fh: u64) -> bool {
        self.handles().contains(fh)
    }

    fn find(&self, fh: u64) -> (r: Option<usize>)
        ensures
            r matches Some(i) ==> i < self.entries@.len() && self.entries@[i as int].0 == fh,
            r is None <==> !self.is_open(fh),
    {
        let mut i: usize = 0;
        while i < self.entries.len()
            invariant
                i <= self.entries@.len(),
                forall|j: int| 0 <= j < i ==> self.entries@[j].0 != fh,
            decreases self.entries@.len() - i,
        {
            if self.entries[i].0 == fh {
                proof {
                    lemma_handle_index(self.entries@, fh);
                    if handle_index(self.entries@, fh) is None {
                        assert(self.entries@[i as int].0 != fh);
                    }
                }
                return Some(i);
            }
            i = i + 1;
        }
        proof {
            lemma_handle_index(self.entries@, fh);
        }
        None
    }

    /// Whether a session with this handle is open.
    pub fn contains(&self, fh: &VuFileHandle) -> (r: bool)
        ensures
            r == self.is_open(fh->Fh_0),
    {
        let VuFileHandle::Fh(n) = *fh;
        self.find(n).is_some()
    }

    /// Opens a session; refused when the handle is already open.
    pub fn insert_vuinput_state(&mut self, fh: &VuFileHandle, state: VuInputState) -> (r: Result<
        (),
        RegistryError,
    >)
        requires
            old(self).wf(),
        ensures
            final(self).wf(),
            old(self).is_open(fh->Fh_0) <==> r is Err,
            r is Err ==> r == Err::<(), RegistryError>(RegistryError::HandleReused) && final(self).handles() == old(self).handles(),
            r is Ok ==> final(self).handles() == old(self).handles().insert(fh->Fh_0),
            r is Err ==> final(self).sessions() == old(self).sessions(),
            r is Ok ==> final(self).sessions() == old(self).sessions().insert(fh->Fh_0, state),
    {
        let VuFileHandle::Fh(n) = *fh;
        if self.find(n).is_some() {
            return Err(RegistryError::HandleReused);
        }
        let ghost es = self.entries@;
        self.entries.push((n, state));
        proof {
            lemma_handle_index(es, n);
            assert forall|a: int, b: int| 0 <= a < b < self.entries@.len() implies self.entries@[a].0
                != self.entries@[b].0 by {
                assert(self.entries@[a] == es[a]);
                if b < es.len() {
                    assert(self.entries@[b] == es[b]);
                }
            }
            assert(self.entries@.drop_last() =~= es);
            assert forall|k: u64| #[trigger] self.handles().contains(k) == old(self).handles().insert(
                n,
            ).contains(k) by {
                if k != n {
                    assert(handle_index(self.entries@, k) == handle_index(es, k));
                }
            }
            assert(self.handles() =~= old(self).handles().insert(n));
            assert forall|k: u64| #[trigger] self.sessions().dom().contains(k) == old(
                self,
            ).sessions().insert(n, state).dom().contains(k) by {
                assert(self.handles().contains(k) == old(self).handles().insert(n).contains(k));
            }
            assert forall|k: u64| self.sessions().dom().contains(k) implies #[trigger] self.sessions()[k]
                == old(self).sessions().insert(n, state)[k] by {
                if k != n {
                    assert(handle_index(self.entries@, k) == handle_index(es, k));
                    lemma_handle_index(es, k);
                    let j = handle_index(es, k)->Some_0;
                    assert(self.entries@[j] == es[j]);
                }
            }
            assert(self.sessions() =~= old(self).sessions().insert(n, state));
        }
        Ok(())
    }

    /// Closes a session and hands its state back.
    pub fn remove_vuinput_state(&mut self, fh: &VuFileHandle) -> (r: Result<
        VuInputState,
        RegistryError,
    >)
        requires
            old(self).wf(),
        ensures
            final(self).wf(),
            !old(self).is_open(fh->Fh_0) <==> r is Err,
            r is Err ==> r == Err::<VuInputState, RegistryError>(RegistryError::UnknownHandle)
                && final(self).handles() == old(self).handles(),
            r is Ok ==> final(self).handles() == old(self).handles().remove(fh->Fh_0),
            r is Err ==> final(self).sessions() == old(self).sessions(),
            r matches Ok(st) ==> old(self).sessions().contains_key(fh->Fh_0) && old(
                self,
            ).sessions()[fh->Fh_0] == st && final(self).sessions() == old(self).sessions().remove(
                fh->Fh_0,
            ),
    {
        let VuFileHandle::Fh(n) = *fh;
        match self.find(n) {
            None => Err(RegistryError::UnknownHandle),
            Some(i) => {
                let ghost es = self.entries@;
                let (_, state) = self.entries.remove(i);
                proof {
                    assert forall|a: int, b: int| 0 <= a < b < self.entries@.len() implies self.entries@[a].0
                        != self.entries@[b].0 by {
                        let a0 = if a < i { a } else { a + 1 };
                        let b0 = if b < i { b } else { b + 1 };
                        assert(self.entries@[a] == es[a0]);
                        assert(self.entries@[b] == es[b0]);
                    }
                    assert forall|k: u64| #[trigger] self.handles().contains(k) == old(self).handles().remove(n).contains(k) by {
                        lemma_handle_index(es, k);
                        lemma_handle_index(self.entries@, k);
                        if k != n {
                            if handle_index(es, k) is Some {
                                let j = handle_index(es, k)->Some_0;
                                if j < i {
                                    assert(self.entries@[j] == es[j]);
                                } else {
                                    assert(self.entries@[j - 1] == es[j]);
                                }
                            } else {
                                assert forall|j: int| 0 <= j < self.entries@.len() implies self.entries@[j].0 != k by {
                                    if j < i {
                                        assert(self.entries@[j] == es[j]);
                                    } else {
                                        assert(self.entries@[j] == es[j + 1]);
                                    }
                                }
                            }
                        } else {
                            assert forall|j: int| 0 <= j < self.entries@.len() implies self.entries@[j].0 != n by {
                                if j < i {
                                    assert(self.entries@[j] == es[j]);
                                } else {
                                    assert(self.entries@[j] == es[j + 1]);
                                }
                            }
                        }
                    }
                    assert(self.handles() =~= old(self).handles().remove(n));
                    lemma_handle_at(es, i as int);
                    assert(old(self).sessions()[n] == es[i as int].1);
                    assert forall|k: u64| #[trigger] self.sessions().dom().contains(k) == old(
                        self,
                    ).sessions().remove(n).dom().contains(k) by {
                        assert(self.handles().contains(k) == old(self).handles().remove(n).contains(k));
                    }
                    assert forall|k: u64| self.sessions().dom().contains(k) implies #[trigger] self.sessions()[k]
                        == old(self).sessions().remove(n)[k] by {
                        lemma_handle_index(es, k);
                        assert(self.handles().contains(k));
                        let j = handle_index(es, k)->Some_0;
                        assert(j != i);
                        let j2 = if j < i { j } else { j - 1 };
                        assert(self.entries@[j2] == es[j]);
                        lemma_handle_at(self.entries@, j2);
                        lemma_handle_at(es, j);
                    }
                    assert(self.sessions() =~= old(self).sessions().remove(n));
                }
                Ok(state)
            },
        }
    }
}

/// Mints file handles, each once.
#[derive(Debug)]
pub struct FileHandleCounter {
    pub next: u64,
}

impl FileHandleCounter {
    /// The first handle minted is `first`.
    pub fn new(first: u64) -> (r: FileHandleCounter)
        ensures
            r.next == first,
    {
        FileHandleCounter { next: first }
    }

    /// A handle never minted before; `None` once the handles are used up.
    pub fn get_fresh_filehandle(&mut self) -> (r: Option<u64>)
        ensures
            old(self).next < u64::MAX ==> r == Some(old(self).next) && final(self).next == old(self).next + 1,
            old(self).next == u64::MAX ==> r is None && final(self).next == old(self).next,
    {
        if self.next == u64::MAX {
            return None;
        }
        let fh = self.next;
        self.next = self.next + 1;
        Some(fh)
    }
}

/// The routing key of a target: its kind and, for a container, the
/// requesting process's paths, namespaces and bitness.
pub open spec fn target_key(t: JobTarget) -> (int, Seq<char>, Seq<char>, NamespaceInodes, bool) {
    match t {
        JobTarget::Host => (0, Seq::empty(), Seq::empty(), crate::namespace::empty_inodes(), false),
        JobTarget::BackgroundLoop => (
            1,
            Seq::empty(),
            Seq::empty(),
            crate::namespace::empty_inodes(),
            false,
        ),
        JobTarget::Container(p) => (2, p.nspath@, p.nsroot@, p.namespaces, p.is_compat),
    }
}

fn same_target(a: &JobTarget, b: &JobTarget) -> (r: bool)
    ensures
        r == (target_key(*a) == target_key(*b)),
{
    match (a, b) {
        (JobTarget::Host, JobTarget::Host) => true,
        (JobTarget::BackgroundLoop, JobTarget::BackgroundLoop) => true,
        (JobTarget::Container(p), JobTarget::Container(q)) => {
            p.nspath == q.nspath && p.nsroot == q.nsroot && p.namespaces == q.namespaces
                && p.is_compat == q.is_compat
        },
        _ => false,
    }
}

/// Where the dispatcher sends a job.
#[derive(Clone, Copy, Debug, PartialEq, Eq, Structural)]
pub enum Route {
    /// Run it on its own, outside every queue.
    Spawn,
    /// Append it to queue `index`, which is new when `created`.
    Queue { index: usize, created: bool },
}

/// The per-target queues, in order of creation.
#[derive(Debug)]
pub struct TargetRouter {
    targets: Vec<JobTarget>,
}

pub open spec fn key_index(ts: Seq<JobTarget>, k: (int, Seq<char>, Seq<char>, NamespaceInodes, bool)) -> Option<int>
    decreases ts.len(),
{
    if ts.len() == 0 {
        None
    } else {
        match key_index(ts.drop_last(), k) {
            Some(i) => Some(i),
            None => if target_key(ts.last()) == k {
                Some(ts.len() - 1)
            } else {
                None
            },
        }
    }
}

proof fn lemma_key_index(ts: Seq<JobTarget>, k: (int, Seq<char>, Seq<char>, NamespaceInodes, bool))
    ensures
        match key_index(ts, k) {
            Some(i) => 0 <= i < ts.len() && target_key(ts[i]) == k && forall|j: int|
                0 <= j < i ==> target_key(ts[j]) != k,
            None => forall|j: int| 0 <= j < ts.len() ==> target_key(ts[j]) != k,
        },
    decreases ts.len(),
{
    if ts.len() > 0 {
        lemma_key_index(ts.drop_last(), k);
        assert forall|j: int| 0 <= j < ts.len() - 1 implies ts[j] == ts.drop_last()[j] by {}
    }
}

proof fn lemma_key_index_is(ts: Seq<JobTarget>, k: (int, Seq<char>, Seq<char>, NamespaceInodes, bool), i: int)
    requires
        0 <= i <= ts.len(),
        forall|j: int| 0 <= j < i ==> target_key(ts[j]) != k,
        i < ts.len() ==> target_key(ts[i]) == k,
    ensures
        key_index(ts, k) == (if i < ts.len() {
            Some(i)
        } else {
            None::<int>
        }),
{
    lemma_key_index(ts, k);
}

impl TargetRouter {
    /// The queue index of a target, if it has a queue.
    pub closed spec fn queue_of(&self, t: JobTarget) -> Option<int> {
        key_index(self.targets@, target_key(t))
    }

    /// The number of queues.
    pub closed spec fn queue_count(&self) -> nat {
        self.targets@.len()
    }

    /// No queue yet.
    pub fn new() -> (r: TargetRouter)
        ensures
            r.queue_count() == 0,
            forall|t: JobTarget| r.queue_of(t) is None,
    {
        TargetRouter { targets: Vec::new() }
    }

    /// Routes a job for `target`: background loops run on their own; every
    /// other target has one queue, created on its first job and kept.
    pub fn route(&mut self, target: &JobTarget) -> (r: Route)
        ensures
            *target is BackgroundLoop ==> r == Route::Spawn && final(self).queue_count() == old(self).queue_count(),
            !(*target is BackgroundLoop) ==> match old(self).queue_of(*target) {
                Some(i) => r == Route::Queue { index: i as usize, created: false } && final(self).queue_count() == old(self).queue_count(),
                None => r == Route::Queue { index: old(self).queue_count() as usize, created: true }
                    && final(self).queue_count() == old(self).queue_count() + 1,
            },
            forall|t: JobTarget|
                old(self).queue_of(t) is Some ==> #[trigger] final(self).queue_of(t) == old(self).queue_of(t),
            !(*target is BackgroundLoop) ==> final(self).queue_of(*target) is Some,
            r matches Route::Queue { index, .. } ==> final(self).queue_of(*target) == Some(
                index as int,
            ),
    {
        match target {
            JobTarget::BackgroundLoop => {
                return Route::Spawn;
            },
            _ => {},
        }
        let ghost k = target_key(*target);
        let mut i: usize = 0;
        while i < self.targets.len()
            invariant
                i <= self.targets@.len(),
                k == target_key(*target),
                !(*target is BackgroundLoop),
                self.targets@ == old(self).targets@,
                forall|j: int| 0 <= j < i ==> target_key(self.targets@[j]) != k,
            decreases self.targets@.len() - i,
        {
            if same_target(&self.targets[i], target) {
                proof {
                    lemma_key_index_is(self.targets@, k, i as int);
                }
                return Route::Queue { index: i, created: false };
            }
            i = i + 1;
        }
        proof {
            lemma_key_index_is(self.targets@, k, i as int);
        }
        let ghost ts = self.targets@;
        let copy = crate::jobs::copy_target(target);
        self.targets.push(copy);
        proof {
            assert(self.targets@.drop_last() =~= ts);
            assert forall|t: JobTarget| old(self).queue_of(t) is Some implies #[trigger] self.queue_of(t)
                == old(self).queue_of(t) by {}
        }
        Route::Queue { index: i, created: true }
    }
}

/// Jobs for one target always go to the same queue, so they run in the order
/// they were dispatched.
pub proof fn lemma_same_target_same_queue(r1: TargetRouter, r2: TargetRouter, t: JobTarget)
    requires
        r1.queue_of(t) is Some,
        forall|u: JobTarget| r1.queue_of(u) is Some ==> #[trigger] r2.queue_of(u) == r1.queue_of(u),
    ensures
        r2.queue_of(t) == r1.queue_of(t),
{
}

} // verus!
