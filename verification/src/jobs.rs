//! Background jobs: long-running work is tracked as jobs that report
//! progress as domain events and may be cancelled where that is safe.

use vstd::prelude::*;
use crate::events::DomainEvent;
use crate::text::{
    copy_string, decimal, first_match, lemma_first_match_is, lemma_prefixed_decimal_injective,
    owned, push_str, u64_to_decimal,
};

verus! {

/// What a background job does.
#[derive(Debug, Clone, Copy, PartialEq, Eq, Structural)]
pub enum BackgroundJobKind {
    ProjectScan,
    PackageResolve,
    PackageInstall,
    GitRefresh,
    Verification,
    RuntimeValidation,
    WorkspaceReconcile,
}

/// Lifecycle state of a job.
#[derive(Debug, Clone, Copy, PartialEq, Eq, Structural)]
pub enum JobStatus {
    Pending,
    Running,
    Completed,
    Failed,
    Cancelled,
}

/// A background job and its progress.
#[derive(Debug, Clone)]
pub struct BackgroundJob {
    pub id: String,
    pub kind: BackgroundJobKind,
    pub status: JobStatus,
    pub phase: String,
    pub completed: usize,
    pub total: usize,
    pub message: String,
    pub cancellable: bool,
}

pub struct BackgroundJobView {
    pub id: Seq<char>,
    pub kind: BackgroundJobKind,
    pub status: JobStatus,
    pub phase: Seq<char>,
    pub completed: nat,
    pub total: nat,
    pub message: Seq<char>,
    pub cancellable: bool,
}

impl View for BackgroundJob {
    type V = BackgroundJobView;

    open spec fn view(&self) -> BackgroundJobView {
        BackgroundJobView {
            id: self.id@,
            kind: self.kind,
            status: self.status,
            phase: self.phase@,
            completed: self.completed as nat,
            total: self.total as nat,
            message: self.message@,
            cancellable: self.cancellable,
        }
    }
}

impl BackgroundJob {
    fn duplicate(&self) -> (r: Self)
        ensures
            r@ == self@,
    {
        BackgroundJob {
            id: copy_string(&self.id),
            kind: self.kind,
            status: self.status,
            phase: copy_string(&self.phase),
            completed: self.completed,
            total: self.total,
            message: copy_string(&self.message),
            cancellable: self.cancellable,
        }
    }
}

pub open spec fn jobs_view(s: Seq<BackgroundJob>) -> Seq<BackgroundJobView> {
    s.map_values(|j: BackgroundJob| j@)
}

pub open spec fn job_ids(s: Seq<BackgroundJobView>) -> Seq<Seq<char>> {
    s.map_values(|j: BackgroundJobView| j.id)
}

/// The identifier of the `n`-th started job: `job-` and `n` in decimal.
pub open spec fn job_name(n: nat) -> Seq<char> {
    "job-"@ + decimal(n as int)
}

/// A freshly started job.
pub open spec fn started_job(id: Seq<char>, kind: BackgroundJobKind, cancellable: bool)
    -> BackgroundJobView
{
    BackgroundJobView {
        id,
        kind,
        status: JobStatus::Running,
        phase: "starting"@,
        completed: 0,
        total: 0,
        message: seq![],
        cancellable,
    }
}

/// The jobs after applying `f` to the job `id`, if there is one.
pub open spec fn update_job(
    s: Seq<BackgroundJobView>,
    id: Seq<char>,
    f: spec_fn(BackgroundJobView) -> BackgroundJobView,
) -> Seq<BackgroundJobView> {
    let k = first_match(job_ids(s), id);
    if k < s.len() {
        s.update(k, f(s[k]))
    } else {
        s
    }
}

/// The job `id`, if there is one.
pub open spec fn find_job(s: Seq<BackgroundJobView>, id: Seq<char>) -> Option<BackgroundJobView> {
    let k = first_match(job_ids(s), id);
    if k < s.len() {
        Some(s[k])
    } else {
        None
    }
}

/// The registry of background jobs.
pub struct JobManager {
    jobs: Vec<BackgroundJob>,
    next_id: u64,
}

impl JobManager {
    #[verifier::type_invariant]
    spec fn numbered(self) -> bool {
        &&& self.next_id == self.jobs@.len() + 1
        &&& forall|j: int| 0 <= j < self.jobs@.len() ==> #[trigger] self.jobs@[j].id@ == job_name((j + 1) as nat)
    }

    /// The jobs, in the order they were started.
    pub closed spec fn entries(self) -> Seq<BackgroundJobView> {
        jobs_view(self.jobs@)
    }

    pub fn new() -> (r: Self)
        ensures
            r.entries() == Seq::<BackgroundJobView>::empty(),
    {
        let r = JobManager { jobs: Vec::new(), next_id: 1 };
        assert(r.entries() =~= Seq::<BackgroundJobView>::empty());
        r
    }

    fn find(&self, id: &str) -> (r: usize)
        ensures
            r as int == first_match(job_ids(self.entries()), id@),
    {
        let target = owned(id);
        let ghost keys = job_ids(self.entries());
        let mut i: usize = 0;
        while i < self.jobs.len() && !(self.jobs[i].id == target)
            invariant
                i <= self.jobs@.len(),
                target@ == id@,
                keys == job_ids(self.entries()),
                forall|j: int| 0 <= j < i ==> keys[j] != id@,
            decreases self.jobs.len() - i,
        {
            assert(keys[i as int] == self.jobs@[i as int].id@);
            i = i + 1;
        }
        if i < self.jobs.len() {
            assert(keys[i as int] == self.jobs@[i as int].id@);
        }
        proof {
            lemma_first_match_is(keys, id@, i as int);
        }
        i
    }

    /// Starts a job: it is running, in phase `starting`, and gets the next
    /// identifier `job-<n>`, which no earlier job has. The counter is 64-bit
    /// and does not wrap.
    pub fn start(&mut self, kind: BackgroundJobKind, cancellable: bool) -> (r: String)
        requires
            old(self).entries().len() + 2 <= u64::MAX,
        ensures
            r@ == job_name((old(self).entries().len() + 1) as nat),
            !job_ids(old(self).entries()).contains(r@),
            final(self).entries() == old(self).entries().push(started_job(r@, kind, cancellable)),
    {
        proof {
            use_type_invariant(&*self);
        }
        let mut id = owned("job-");
        let n = u64_to_decimal(self.next_id);
        push_str(&mut id, n.as_str());
        let ghost before = self.entries();
        let ghost len = self.jobs@.len();
        proof {
            assert forall|j: int| 0 <= j < len implies job_ids(before)[j] != id@ by {
                assert(job_ids(before)[j] == self.jobs@[j].id@);
                if job_ids(before)[j] == id@ {
                    lemma_prefixed_decimal_injective("job-"@, (j + 1) as nat, (len + 1) as nat);
                }
            }
        }
        let job = BackgroundJob {
            id: copy_string(&id),
            kind,
            status: JobStatus::Running,
            phase: owned("starting"),
            completed: 0,
            total: 0,
            message: String::new(),
            cancellable,
        };
        let ghost jv = job@;
        let mut taken = JobManager::new();
        std::mem::swap(&mut taken, self);
        let JobManager { mut jobs, next_id } = taken;
        jobs.push(job);
        *self = JobManager { jobs, next_id: next_id + 1 };
        assert(self.entries() =~= before.push(jv));
        id
    }

    /// Records progress of the job `id` and returns the progress event;
    /// `None` when there is no such job.
    pub fn progress(&mut self, id: &str, phase: &str, completed: usize, total: usize) -> (r:
        Option<DomainEvent>)
        ensures
            final(self).entries() == update_job(
                old(self).entries(),
                id@,
                |j: BackgroundJobView| BackgroundJobView { phase: phase@, completed: completed as nat, total: total as nat, ..j },
            ),
            find_job(old(self).entries(), id@) is None ==> r is None,
            find_job(old(self).entries(), id@) is Some ==> (r matches Some(
                DomainEvent::JobProgress { job_id, phase: p, completed: c, total: t },
            ) && job_id@ == id@ && p@ == phase@ && c == completed && t == total),
    {
        let k = self.find(id);
        if k < self.jobs.len() {
            let ghost before = self.entries();
            let mut job = self.jobs[k].duplicate();
            job.phase = owned(phase);
            job.completed = completed;
            job.total = total;
            let ghost jv = job@;
            self.set_job(k, job);
            assert(self.entries() =~= before.update(k as int, jv));
            Some(
                DomainEvent::JobProgress {
                    job_id: owned(id),
                    phase: owned(phase),
                    completed,
                    total,
                },
            )
        } else {
            None
        }
    }

    /// Replaces the job at `k` by one with the same identifier.
    fn set_job(&mut self, k: usize, job: BackgroundJob)
        requires
            k < old(self).jobs@.len(),
            job.id@ == old(self).jobs@[k as int].id@,
        ensures
            final(self).jobs@ == old(self).jobs@.update(k as int, job),
            final(self).next_id == old(self).next_id,
    {
        proof {
            use_type_invariant(&*self);
        }
        let mut taken = JobManager::new();
        std::mem::swap(&mut taken, self);
        let JobManager { mut jobs, next_id } = taken;
        jobs.set(k, job);
        *self = JobManager { jobs, next_id };
    }

    /// Marks the job `id` completed.
    pub fn complete(&mut self, id: &str)
        ensures
            final(self).entries() == update_job(
                old(self).entries(),
                id@,
                |j: BackgroundJobView| BackgroundJobView { status: JobStatus::Completed, phase: "completed"@, ..j },
            ),
    {
        let k = self.find(id);
        if k < self.jobs.len() {
            let ghost before = self.entries();
            let mut job = self.jobs[k].duplicate();
            job.status = JobStatus::Completed;
            job.phase = owned("completed");
            let ghost jv = job@;
            self.set_job(k, job);
            assert(self.entries() =~= before.update(k as int, jv));
        }
    }

    /// Marks the job `id` failed with `message`.
    pub fn fail(&mut self, id: &str, message: &str)
        ensures
            final(self).entries() == update_job(
                old(self).entries(),
                id@,
                |j: BackgroundJobView| BackgroundJobView { status: JobStatus::Failed, message: message@, ..j },
            ),
    {
        let k = self.find(id);
        if k < self.jobs.len() {
            let ghost before = self.entries();
            let mut job = self.jobs[k].duplicate();
            job.status = JobStatus::Failed;
            job.message = owned(message);
            let ghost jv = job@;
            self.set_job(k, job);
            assert(self.entries() =~= before.update(k as int, jv));
        }
    }

    /// Cancels the job `id` when it is cancellable; returns whether it was
    /// cancelled. Other jobs, and jobs that may not be cancelled, are left
    /// unchanged.
    pub fn cancel(&mut self, id: &str) -> (r: bool)
        ensures
            r == (find_job(old(self).entries(), id@) matches Some(j) && j.cancellable),
            final(self).entries() == (if r {
                update_job(
                    old(self).entries(),
                    id@,
                    |j: BackgroundJobView| BackgroundJobView { status: JobStatus::Cancelled, ..j },
                )
            } else {
                old(self).entries()
            }),
    {
        let k = self.find(id);
        if k < self.jobs.len() && self.jobs[k].cancellable {
            let ghost before = self.entries();
            let mut job = self.jobs[k].duplicate();
            job.status = JobStatus::Cancelled;
            let ghost jv = job@;
            self.set_job(k, job);
            assert(self.entries() =~= before.update(k as int, jv));
            true
        } else {
            false
        }
    }

    /// All jobs.
    pub fn list(&self) -> (r: Vec<BackgroundJob>)
        ensures
            jobs_view(r@) == self.entries(),
    {
        let mut out: Vec<BackgroundJob> = Vec::new();
        let mut i: usize = 0;
        while i < self.jobs.len()
            invariant
                i <= self.jobs@.len(),
                jobs_view(out@) == self.entries().subrange(0, i as int),
            decreases self.jobs.len() - i,
        {
            let ghost before = jobs_view(out@);
            let j = self.jobs[i].duplicate();
            assert(self.entries()[i as int] == j@);
            out.push(j);
            assert(jobs_view(out@) =~= before.push(j@));
            assert(jobs_view(out@) =~= self.entries().subrange(0, i + 1));
            i = i + 1;
        }
        assert(self.entries().subrange(0, i as int) =~= self.entries());
        out
    }

    /// The job `id`, if any.
    pub fn get(&self, id: &str) -> (r: Option<BackgroundJob>)
        ensures
            r matches Some(j) ==> find_job(self.entries(), id@) == Some(j@),
            r is None ==> find_job(self.entries(), id@) is None,
    {
        let k = self.find(id);
        if k < self.jobs.len() {
            Some(self.jobs[k].duplicate())
        } else {
            None
        }
    }
}

} // verus!
