//! Bookkeeping of the backend processes a worker has started, indexed by
//! process id and by model id.
//!
//! Starting and killing the operating-system processes is the caller's part;
//! this table records which process serves which model, so that a model's
//! processes can be found and forgotten as one unit.
use vstd::prelude::*;
use crate::protocol::{clone_strings, EnvVar, ModelConfig};

verus! {

/// One started backend process.
pub struct WorkerHandle {
    /// Model the process serves.
    pub model_id: String,
    /// Operating-system process id.
    pub pid: u32,
}

impl Clone for WorkerHandle {
    fn clone(&self) -> (r: Self)
        ensures
            r == *self,
    {
        WorkerHandle { model_id: self.model_id.clone(), pid: self.pid }
    }
}

/// Why a backend process could not be started.
pub enum ProcessError {
    /// The operating system refused to start the program.
    Spawn(String),
}

/// What to start for a model: program, arguments and environment overrides
/// on top of the inherited environment. Standard input is empty; standard
/// output and error are captured.
pub struct SpawnRequest {
    pub model_id: String,
    pub program: String,
    pub args: Vec<String>,
    pub env: Vec<(String, String)>,
}

/// The handles whose process id is not `pid`, in order.
pub open spec fn without_pid(s: Seq<WorkerHandle>, pid: u32) -> Seq<WorkerHandle>
    decreases s.len(),
{
    if s.len() == 0 {
        s
    } else if s.last().pid == pid {
        without_pid(s.drop_last(), pid)
    } else {
        without_pid(s.drop_last(), pid).push(s.last())
    }
}

/// The handles that do not serve model `m`, in order.
pub open spec fn without_model(s: Seq<WorkerHandle>, m: Seq<char>) -> Seq<WorkerHandle>
    decreases s.len(),
{
    if s.len() == 0 {
        s
    } else if s.last().model_id@ == m {
        without_model(s.drop_last(), m)
    } else {
        without_model(s.drop_last(), m).push(s.last())
    }
}

/// The process ids that serve model `m`, in order.
pub open spec fn pids_of_model(s: Seq<WorkerHandle>, m: Seq<char>) -> Seq<u32>
    decreases s.len(),
{
    if s.len() == 0 {
        Seq::empty()
    } else if s.last().model_id@ == m {
        pids_of_model(s.drop_last(), m).push(s.last().pid)
    } else {
        pids_of_model(s.drop_last(), m)
    }
}

/// Whether some handle has process id `pid`.
pub open spec fn tracks_pid(s: Seq<WorkerHandle>, pid: u32) -> bool {
    exists|i: int| 0 <= i < s.len() && (#[trigger] s[i]).pid == pid
}

/// At most one handle per process id.
pub open spec fn pids_unique(s: Seq<WorkerHandle>) -> bool {
    forall|i: int, j: int|
        0 <= i < s.len() && 0 <= j < s.len() && i != j ==> (#[trigger] s[i]).pid != (
        #[trigger] s[j]).pid
}

/// The handles after recording process `pid` for model `m`: any earlier
/// handle with that process id is replaced.
pub open spec fn track_spec(s: Seq<WorkerHandle>, w: WorkerHandle) -> Seq<WorkerHandle> {
    without_pid(s, w.pid).push(w)
}

/// Removing the handles of one model keeps the others, keeps process ids
/// unique, and leaves none for that model.
pub proof fn lemma_without_model(s: Seq<WorkerHandle>, m: Seq<char>)
    ensures
        forall|x: WorkerHandle|
            without_model(s, m).contains(x) <==> (s.contains(x) && x.model_id@ != m),
        pids_of_model(without_model(s, m), m).len() == 0,
        pids_unique(s) ==> pids_unique(without_model(s, m)),
    decreases s.len(),
{
    if s.len() > 0 {
        let d = s.drop_last();
        lemma_without_model(d, m);
        lemma_contains_split(s);
        let q = without_model(d, m);
        lemma_contains_push(q, s.last());
        if s.last().model_id@ != m {
            assert(q.push(s.last()).drop_last() =~= q);
        }
        assert forall|x: WorkerHandle|
            without_model(s, m).contains(x) <==> (s.contains(x) && x.model_id@ != m) by {
            assert(q.contains(x) <==> (d.contains(x) && x.model_id@ != m));
            assert(s.contains(x) <==> (d.contains(x) || x == s.last()));
            if s.last().model_id@ != m {
                assert(q.push(s.last()).contains(x) <==> (q.contains(x) || x == s.last()));
            }
        }
        if pids_unique(s) {
            assert(pids_unique(d)) by {
                assert forall|i: int, j: int|
                    0 <= i < d.len() && 0 <= j < d.len() && i != j implies (#[trigger] d[i]).pid
                    != (#[trigger] d[j]).pid by {
                    assert(d[i] == s[i] && d[j] == s[j]);
                }
            }
            if s.last().model_id@ != m {
                let p = q.push(s.last());
                assert forall|i: int, j: int|
                    0 <= i < p.len() && 0 <= j < p.len() && i != j implies (#[trigger] p[i]).pid
                    != (#[trigger] p[j]).pid by {
                    if i < q.len() && j < q.len() {
                        assert(p[i] == q[i] && p[j] == q[j]);
                    } else {
                        let o = if i < q.len() {
                            i
                        } else {
                            j
                        };
                        assert(p[o] == q[o]);
                        assert(q.contains(q[o]));
                        assert(d.contains(q[o]));
                        let w = choose|w: int| 0 <= w < d.len() && d[w] == q[o];
                        assert(s[w] == q[o]);
                        assert(s[s.len() - 1] == s.last());
                        assert(s[w].pid != s[s.len() - 1].pid);
                    }
                }
            }
        }
    }
}

/// Removing the handle of one process keeps the others and keeps process ids
/// unique.
pub proof fn lemma_without_pid(s: Seq<WorkerHandle>, pid: u32)
    ensures
        forall|x: WorkerHandle| without_pid(s, pid).contains(x) <==> (s.contains(x) && x.pid != pid),
        !tracks_pid(without_pid(s, pid), pid),
        pids_unique(s) ==> pids_unique(without_pid(s, pid)),
    decreases s.len(),
{
    if s.len() > 0 {
        let d = s.drop_last();
        lemma_without_pid(d, pid);
        lemma_contains_split(s);
        let q = without_pid(d, pid);
        lemma_contains_push(q, s.last());
        assert forall|x: WorkerHandle|
            without_pid(s, pid).contains(x) <==> (s.contains(x) && x.pid != pid) by {
            assert(q.contains(x) <==> (d.contains(x) && x.pid != pid));
            assert(s.contains(x) <==> (d.contains(x) || x == s.last()));
            if s.last().pid != pid {
                assert(q.push(s.last()).contains(x) <==> (q.contains(x) || x == s.last()));
            }
        }
        if tracks_pid(without_pid(s, pid), pid) {
            let r = without_pid(s, pid);
            let i = choose|i: int| 0 <= i < r.len() && (#[trigger] r[i]).pid == pid;
            assert(r.contains(r[i]));
        }
        if pids_unique(s) {
            assert(pids_unique(d)) by {
                assert forall|i: int, j: int|
                    0 <= i < d.len() && 0 <= j < d.len() && i != j implies (#[trigger] d[i]).pid
                    != (#[trigger] d[j]).pid by {
                    assert(d[i] == s[i] && d[j] == s[j]);
                }
            }
            if s.last().pid != pid {
                let p = q.push(s.last());
                assert forall|i: int, j: int|
                    0 <= i < p.len() && 0 <= j < p.len() && i != j implies (#[trigger] p[i]).pid
                    != (#[trigger] p[j]).pid by {
                    if i < q.len() && j < q.len() {
                        assert(p[i] == q[i] && p[j] == q[j]);
                    } else {
                        let o = if i < q.len() {
                            i
                        } else {
                            j
                        };
                        assert(p[o] == q[o]);
                        assert(q.contains(q[o]));
                        assert(d.contains(q[o]));
                        let w = choose|w: int| 0 <= w < d.len() && d[w] == q[o];
                        assert(s[w] == q[o]);
                        assert(s[s.len() - 1] == s.last());
                        assert(s[w].pid != s[s.len() - 1].pid);
                    }
                }
            }
        }
    }
}

/// Membership in a sequence splits into its front and its last element.
pub proof fn lemma_contains_split<T>(s: Seq<T>)
    requires
        s.len() > 0,
    ensures
        forall|x: T| s.contains(x) <==> (s.drop_last().contains(x) || x == s.last()),
{
    assert forall|x: T| s.contains(x) <==> (s.drop_last().contains(x) || x == s.last()) by {
        if s.contains(x) {
            let i = choose|i: int| 0 <= i < s.len() && s[i] == x;
            if i < s.len() - 1 {
                assert(s.drop_last()[i] == x);
            }
        }
        if s.drop_last().contains(x) {
            let i = choose|i: int| 0 <= i < s.drop_last().len() && s.drop_last()[i] == x;
            assert(s[i] == x);
        }
        if x == s.last() {
            assert(s[s.len() - 1] == x);
        }
    }
}

/// Membership after a push.
pub proof fn lemma_contains_push<T>(s: Seq<T>, v: T)
    ensures
        forall|x: T| s.push(v).contains(x) <==> (s.contains(x) || x == v),
{
    lemma_contains_split(s.push(v));
    assert(s.push(v).drop_last() =~= s);
}

/// Table of started backend processes.
pub struct ProcessManager {
    workers: Vec<WorkerHandle>,
}

impl ProcessManager {
    /// The handles, oldest first.
    pub closed spec fn handles(&self) -> Seq<WorkerHandle> {
        self.workers@
    }

    /// One handle per process id.
    pub open spec fn well_formed(&self) -> bool {
        pids_unique(self.handles())
    }

    /// An empty table.
    pub fn new() -> (r: Self)
        ensures
            r.handles().len() == 0,
            r.well_formed(),
    {
        ProcessManager { workers: Vec::new() }
    }

    /// Records that process `pid` now serves `model_id`, in both indices at
    /// once; a stale handle with the same process id is dropped.
    pub fn track_worker(&mut self, model_id: String, pid: u32) -> (r: WorkerHandle)
        requires
            old(self).well_formed(),
        ensures
            final(self).well_formed(),
            r.model_id == model_id,
            r.pid == pid,
            final(self).handles() == track_spec(old(self).handles(), r),
    {
        self.forget_pid(pid);
        let handle = WorkerHandle { model_id, pid };
        let ghost before = self.workers@;
        self.workers.push(handle.clone());
        proof {
            lemma_without_pid(old(self).workers@, pid);
            let s = self.workers@;
            assert forall|i: int, j: int|
                0 <= i < s.len() && 0 <= j < s.len() && i != j implies (#[trigger] s[i]).pid != (
                #[trigger] s[j]).pid by {
                if i < before.len() && j < before.len() {
                    assert(s[i] == before[i] && s[j] == before[j]);
                } else if i < before.len() {
                    assert(s[i] == before[i]);
                    assert(before.contains(before[i]));
                } else {
                    assert(s[j] == before[j]);
                    assert(before.contains(before[j]));
                }
            }
        }
        handle
    }

    /// Drops the handle of process `pid` from both indices; returns whether
    /// one was there. Unknown process ids are a no-op.
    pub fn terminate_worker_by_pid(&mut self, pid: u32) -> (r: bool)
        requires
            old(self).well_formed(),
        ensures
            final(self).well_formed(),
            r == tracks_pid(old(self).handles(), pid),
            final(self).handles() == without_pid(old(self).handles(), pid),
    {
        self.forget_pid(pid)
    }

    /// Same as `terminate_worker_by_pid` for the handle's process.
    pub fn terminate_worker_by_handle(&mut self, handle: WorkerHandle) -> (r: bool)
        requires
            old(self).well_formed(),
        ensures
            final(self).well_formed(),
            r == tracks_pid(old(self).handles(), handle.pid),
            final(self).handles() == without_pid(old(self).handles(), handle.pid),
    {
        self.forget_pid(handle.pid)
    }

    fn forget_pid(&mut self, pid: u32) -> (r: bool)
        requires
            old(self).well_formed(),
        ensures
            final(self).well_formed(),
            r == tracks_pid(old(self).handles(), pid),
            final(self).handles() == without_pid(old(self).handles(), pid),
    {
        let mut rest: Vec<WorkerHandle> = Vec::new();
        core::mem::swap(&mut self.workers, &mut rest);
        let ghost s = rest@;
        let total = rest.len();
        let mut found = false;
        let mut i: usize = 0;
        while rest.len() > 0
            invariant
                i + rest@.len() == s.len(),
                s.len() == total,
                rest@ == s.subrange(i as int, s.len() as int),
                self.workers@ == without_pid(s.subrange(0, i as int), pid),
                found == tracks_pid(s.subrange(0, i as int), pid),
            decreases rest@.len(),
        {
            let w = rest.remove(0);
            proof {
                let a = s.subrange(0, i as int);
                let b = s.subrange(0, i + 1);
                assert(w == s[i as int]);
                assert(b.drop_last() =~= a);
                assert(b.last() == w);
                if tracks_pid(b, pid) {
                    let k = choose|k: int| 0 <= k < b.len() && (#[trigger] b[k]).pid == pid;
                    if k < a.len() {
                        assert(a[k] == b[k]);
                    }
                }
                if tracks_pid(a, pid) {
                    let k = choose|k: int| 0 <= k < a.len() && (#[trigger] a[k]).pid == pid;
                    assert(a[k] == b[k]);
                }
                if w.pid == pid {
                    assert(b[i as int] == w);
                }
            }
            if w.pid == pid {
                found = true;
            } else {
                self.workers.push(w);
            }
            i = i + 1;
            proof {
                assert(rest@ =~= s.subrange(i as int, s.len() as int));
            }
        }
        proof {
            assert(s.subrange(0, i as int) =~= s);
            lemma_without_pid(s, pid);
        }
        found
    }

    /// Forgets every process of `model_id` and returns their process ids, in
    /// the order they were started, for the caller to kill. A model with no
    /// processes is a no-op.
    pub fn terminate_workers_for_model(&mut self, model_id: &str) -> (r: Vec<u32>)
        requires
            old(self).well_formed(),
        ensures
            final(self).well_formed(),
            r@ == pids_of_model(old(self).handles(), model_id@),
            final(self).handles() == without_model(old(self).handles(), model_id@),
    {
        let m = String::from_str(model_id);
        let mut rest: Vec<WorkerHandle> = Vec::new();
        core::mem::swap(&mut self.workers, &mut rest);
        let ghost s = rest@;
        let total = rest.len();
        let mut pids: Vec<u32> = Vec::new();
        let mut i: usize = 0;
        while rest.len() > 0
            invariant
                i + rest@.len() == s.len(),
                s.len() == total,
                m@ == model_id@,
                rest@ == s.subrange(i as int, s.len() as int),
                self.workers@ == without_model(s.subrange(0, i as int), model_id@),
                pids@ == pids_of_model(s.subrange(0, i as int), model_id@),
            decreases rest@.len(),
        {
            let w = rest.remove(0);
            proof {
                assert(w == s[i as int]);
                assert(s.subrange(0, i + 1).drop_last() =~= s.subrange(0, i as int));
                assert(s.subrange(0, i + 1).last() == w);
            }
            if w.model_id == m {
                pids.push(w.pid);
            } else {
                self.workers.push(w);
            }
            i = i + 1;
            proof {
                assert(rest@ =~= s.subrange(i as int, s.len() as int));
            }
        }
        proof {
            assert(s.subrange(0, i as int) =~= s);
            lemma_without_model(s, model_id@);
        }
        pids
    }

    /// The process ids serving `model_id`, oldest first.
    pub fn pids_for_model(&self, model_id: &str) -> (r: Vec<u32>)
        ensures
            r@ == pids_of_model(self.handles(), model_id@),
    {
        let m = String::from_str(model_id);
        let mut pids: Vec<u32> = Vec::new();
        let mut i: usize = 0;
        while i < self.workers.len()
            invariant
                i <= self.workers@.len(),
                m@ == model_id@,
                pids@ == pids_of_model(self.workers@.subrange(0, i as int), model_id@),
            decreases self.workers@.len() - i,
        {
            proof {
                assert(self.workers@.subrange(0, i + 1).drop_last() =~= self.workers@.subrange(
                    0,
                    i as int,
                ));
            }
            if self.workers[i].model_id == m {
                pids.push(self.workers[i].pid);
            }
            i = i + 1;
        }
        proof {
            assert(self.workers@.subrange(0, i as int) =~= self.workers@);
        }
        pids
    }
}

/// The environment overrides of a configuration as key/value pairs.
pub fn env_pairs(env: &Vec<EnvVar>) -> (r: Vec<(String, String)>)
    ensures
        r@.len() == env@.len(),
        forall|i: int| 0 <= i < r@.len() ==> (#[trigger] r@[i]) == (env@[i].key, env@[i].value),
{
    let mut out: Vec<(String, String)> = Vec::new();
    let mut i: usize = 0;
    while i < env.len()
        invariant
            i <= env@.len(),
            out@.len() == i,
            forall|j: int| 0 <= j < i ==> (#[trigger] out@[j]) == (env@[j].key, env@[j].value),
        decreases env@.len() - i,
    {
        out.push((env[i].key.clone(), env[i].value.clone()));
        i = i + 1;
    }
    out
}

impl SpawnRequest {
    /// What to start for `cfg`, running `program`.
    pub fn for_config(cfg: &ModelConfig, program: &String) -> (r: Self)
        ensures
            r.model_id == cfg.id.0,
            r.program == *program,
            r.args@ == cfg.args@,
            r.env@.len() == cfg.env@.len(),
            forall|i: int|
                0 <= i < r.env@.len() ==> (#[trigger] r.env@[i]) == (
                    cfg.env@[i].key,
                    cfg.env@[i].value,
                ),
    {
        SpawnRequest {
            model_id: cfg.id.0.clone(),
            program: program.clone(),
            args: clone_strings(&cfg.args),
            env: env_pairs(&cfg.env),
        }
    }
}

} // verus!
