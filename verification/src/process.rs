//! Process supervisor: every child process launched by Ginger is registered
//! here, with its category, label and OS pid, and its exit is recorded;
//! processes that never reported an exit are found by orphan
//! reconciliation.

use vstd::prelude::*;
use crate::clock::now;
use crate::text::copy_string;

verus! {

/// Identifier of a supervised process.
#[derive(Debug, Clone, Copy, PartialEq, Eq, Hash, Structural)]
pub struct ProcessId(pub i64);

impl ProcessId {
    pub fn new(n: i64) -> (r: Self)
        ensures
            r.0 == n,
    {
        ProcessId(n)
    }
}

/// What a process is for.
#[derive(Debug, Clone, Copy, PartialEq, Eq, Structural)]
pub enum ProcessCategory {
    Editor,
    Terminal,
    Agent,
    PackageTool,
    Verification,
}

/// A supervised process.
#[derive(Debug, Clone)]
pub struct ProcessInfo {
    pub id: ProcessId,
    pub category: ProcessCategory,
    pub label: String,
    pub pid: u32,
    pub started_at: u64,
    pub exit_code: Option<i32>,
    pub abnormal_exit: bool,
}

/// A request to spawn a supervised process.
#[derive(Debug, Clone)]
pub struct SpawnRequest {
    pub category: ProcessCategory,
    pub label: String,
    pub command: String,
    pub args: Vec<String>,
    pub cwd: Option<String>,
    pub env: Vec<(String, String)>,
}

pub struct ProcessInfoView {
    pub id: int,
    pub category: ProcessCategory,
    pub label: Seq<char>,
    pub pid: u32,
    pub started_at: nat,
    pub exit_code: Option<i32>,
    pub abnormal_exit: bool,
}

impl View for ProcessInfo {
    type V = ProcessInfoView;

    open spec fn view(&self) -> ProcessInfoView {
        ProcessInfoView {
            id: self.id.0 as int,
            category: self.category,
            label: self.label@,
            pid: self.pid,
            started_at: self.started_at as nat,
            exit_code: self.exit_code,
            abnormal_exit: self.abnormal_exit,
        }
    }
}

impl ProcessInfo {
    fn duplicate(&self) -> (r: Self)
        ensures
            r@ == self@,
    {
        ProcessInfo {
            id: self.id,
            category: self.category,
            label: copy_string(&self.label),
            pid: self.pid,
            started_at: self.started_at,
            exit_code: self.exit_code,
            abnormal_exit: self.abnormal_exit,
        }
    }
}

pub open spec fn infos_view(s: Seq<ProcessInfo>) -> Seq<ProcessInfoView> {
    s.map_values(|p: ProcessInfo| p@)
}

/// An exit is abnormal when the process ended by a signal (no exit code) or
/// with a non-zero code.
pub open spec fn is_abnormal(exit_code: Option<i32>) -> bool {
    match exit_code {
        Some(c) => c != 0,
        None => true,
    }
}

/// A process that never reported an exit.
pub open spec fn is_orphan(p: ProcessInfoView) -> bool {
    p.exit_code is None
}

/// The supervised processes. The `n`-th registered process has identifier
/// `n`.
pub struct ProcessSupervisor {
    processes: Vec<ProcessInfo>,
    next_id: i64,
}

impl ProcessSupervisor {
    #[verifier::type_invariant]
    spec fn numbered(self) -> bool {
        &&& self.next_id == self.processes@.len() + 1
        &&& forall|j: int| 0 <= j < self.processes@.len() ==> #[trigger] self.processes@[j].id.0 == j + 1
    }

    /// The registered processes, in registration order.
    pub closed spec fn entries(self) -> Seq<ProcessInfoView> {
        infos_view(self.processes@)
    }

    pub fn new() -> (r: Self)
        ensures
            r.entries() == Seq::<ProcessInfoView>::empty(),
    {
        let r = ProcessSupervisor { processes: Vec::new(), next_id: 1 };
        assert(r.entries() =~= Seq::<ProcessInfoView>::empty());
        r
    }

    /// Registers a spawned process with its OS `pid`, stamped with the
    /// current time, and returns its identifier, one more than the number of
    /// earlier ones; the counter is 64-bit and does not wrap.
    pub fn register(&mut self, req: &SpawnRequest, pid: u32) -> (r: ProcessId)
        requires
            old(self).entries().len() + 2 <= i64::MAX,
        ensures
            r.0 == old(self).entries().len() + 1,
            final(self).entries() == old(self).entries().push(
                ProcessInfoView {
                    id: r.0 as int,
                    category: req.category,
                    label: req.label@,
                    pid,
                    started_at: final(self).entries().last().started_at,
                    exit_code: None,
                    abnormal_exit: false,
                },
            ),
    {
        proof {
            use_type_invariant(&*self);
        }
        let ghost before = self.entries();
        let mut taken = ProcessSupervisor::new();
        std::mem::swap(&mut taken, self);
        let ProcessSupervisor { mut processes, next_id } = taken;
        let id = ProcessId::new(next_id);
        let info = ProcessInfo {
            id,
            category: req.category,
            label: copy_string(&req.label),
            pid,
            started_at: now(),
            exit_code: None,
            abnormal_exit: false,
        };
        let ghost iv = info@;
        processes.push(info);
        *self = ProcessSupervisor { processes, next_id: next_id + 1 };
        assert(self.entries() =~= before.push(iv));
        id
    }

    /// Records the exit of process `id`; an unknown `id` changes nothing.
    pub fn mark_exit(&mut self, id: ProcessId, exit_code: Option<i32>)
        ensures
            final(self).entries() == (if 1 <= id.0 <= old(self).entries().len() {
                old(self).entries().update(
                    id.0 - 1,
                    ProcessInfoView {
                        exit_code,
                        abnormal_exit: is_abnormal(exit_code),
                        ..old(self).entries()[id.0 - 1]
                    },
                )
            } else {
                old(self).entries()
            }),
    {
        proof {
            use_type_invariant(&*self);
        }
        let ghost before = self.entries();
        let n = self.processes.len();
        if id.0 >= 1 && id.0 < self.next_id {
            assert(id.0 - 1 < n);
            let k = (id.0 - 1) as usize;
            let mut p = self.processes[k].duplicate();
            p.exit_code = exit_code;
            p.abnormal_exit = match exit_code {
                Some(c) => c != 0,
                None => true,
            };
            let ghost pv = p@;
            let mut taken = ProcessSupervisor::new();
            std::mem::swap(&mut taken, self);
            let ProcessSupervisor { mut processes, next_id } = taken;
            processes.set(k, p);
            *self = ProcessSupervisor { processes, next_id };
            assert(self.entries() =~= before.update(k as int, pv));
        }
    }

    /// All registered processes.
    pub fn list(&self) -> (r: Vec<ProcessInfo>)
        ensures
            infos_view(r@) == self.entries(),
    {
        self.select(false)
    }

    /// The process `id`, if registered.
    pub fn get(&self, id: ProcessId) -> (r: Option<ProcessInfo>)
        ensures
            r matches Some(p) ==> 1 <= id.0 <= self.entries().len() && p@ == self.entries()[id.0
                - 1],
            r is None ==> !(1 <= id.0 <= self.entries().len()),
    {
        proof {
            use_type_invariant(self);
        }
        let n = self.processes.len();
        if id.0 >= 1 && id.0 < self.next_id {
            assert(id.0 - 1 < n);
            Some(self.processes[(id.0 - 1) as usize].duplicate())
        } else {
            None
        }
    }

    /// The processes that exited without their exit being recorded, in
    /// registration order.
    pub fn reconcile_orphans(&self) -> (r: Vec<ProcessInfo>)
        ensures
            infos_view(r@) == self.entries().filter(|p: ProcessInfoView| is_orphan(p)),
    {
        self.select(true)
    }

    /// All processes, or only the orphans.
    fn select(&self, orphans_only: bool) -> (r: Vec<ProcessInfo>)
        ensures
            orphans_only ==> infos_view(r@) == self.entries().filter(
                |p: ProcessInfoView| is_orphan(p),
            ),
            !orphans_only ==> infos_view(r@) == self.entries(),
    {
        let ghost es = self.entries();
        let ghost pred = |p: ProcessInfoView| !orphans_only || is_orphan(p);
        let mut out: Vec<ProcessInfo> = Vec::new();
        let mut i: usize = 0;
        assert(es.subrange(0, 0) =~= Seq::<ProcessInfoView>::empty());
        while i < self.processes.len()
            invariant
                i <= self.processes@.len(),
                es == self.entries(),
                pred == (|p: ProcessInfoView| !orphans_only || is_orphan(p)),
                infos_view(out@) == es.subrange(0, i as int).filter(pred),
            decreases self.processes.len() - i,
        {
            let p = &self.processes[i];
            let ghost before = infos_view(out@);
            proof {
                assert(es.subrange(0, i + 1) =~= es.subrange(0, i as int).push(p@));
                es.subrange(0, i as int).lemma_filter_push(p@, pred);
            }
            if !orphans_only || p.exit_code.is_none() {
                let q = p.duplicate();
                out.push(q);
                assert(infos_view(out@) =~= before.push(p@));
            }
            i = i + 1;
        }
        assert(es.subrange(0, i as int) =~= es);
        proof {
            if !orphans_only {
                assert(es.filter(pred) =~= es) by {
                    lemma_filter_all(es, pred);
                }
            } else {
                assert(pred =~= (|p: ProcessInfoView| is_orphan(p)));
            }
        }
        out
    }
}

proof fn lemma_filter_all(s: Seq<ProcessInfoView>, p: spec_fn(ProcessInfoView) -> bool)
    requires
        forall|x: ProcessInfoView| #[trigger] p(x),
    ensures
        s.filter(p) == s,
    decreases s.len(),
{
    reveal(Seq::filter);
    if s.len() > 0 {
        lemma_filter_all(s.drop_last(), p);
        assert(s.drop_last().push(s.last()) =~= s);
    }
}

} // verus!
