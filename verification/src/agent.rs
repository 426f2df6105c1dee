//! The agent supervisor: coding agents (one of the built-in adapters or a
//! custom one) run as threads, each created, started in its worktree and
//! completed, with a cap on how many are active at once.

use crate::text::{
    concat, concat3, copy_string, decimal, kebab_case, owned, to_kebab_case, u64_to_decimal,
};
use crate::timestamps::now_rfc3339;
use vstd::prelude::*;

verus! {

#[derive(Debug, Clone)]
pub enum AgentError {
    Inner(String),
    AdapterNotFound(String),
    MaxConcurrent(usize),
    NotFound(u64),
}

/// The message of an error, as `Display` writes it.
pub open spec fn agent_error_text(e: AgentError) -> Seq<char> {
    match e {
        AgentError::Inner(s) => "agent error: "@ + s@,
        AgentError::AdapterNotFound(s) => "adapter not found: "@ + s@,
        AgentError::MaxConcurrent(n) => "max concurrent agents reached ("@ + decimal(n as int) + ")"@,
        AgentError::NotFound(n) => "agent not found: "@ + decimal(n as int),
    }
}

impl AgentError {
    /// The error's message.
    pub fn to_text(&self) -> (r: String)
        ensures
            r@ == agent_error_text(*self),
    {
        match self {
            AgentError::Inner(s) => concat("agent error: ", s.as_str()),
            AgentError::AdapterNotFound(s) => concat("adapter not found: ", s.as_str()),
            AgentError::MaxConcurrent(n) => {
                let d = u64_to_decimal(*n as u64);
                concat3("max concurrent agents reached (", d.as_str(), ")")
            },
            AgentError::NotFound(n) => {
                let d = u64_to_decimal(*n);
                concat("agent not found: ", d.as_str())
            },
        }
    }
}

#[derive(Debug, Clone)]
pub enum AdapterId {
    ClaudeCode,
    Codex,
    Ollama,
    Custom(String),
}

/// The name of an adapter, as `Display` writes it: a built-in adapter is
/// named by the kebab-case form of its variant, as it is serialized; a
/// custom one by `custom:` and its own name.
pub open spec fn adapter_text(a: AdapterId) -> Seq<char> {
    match a {
        AdapterId::ClaudeCode => kebab_case("ClaudeCode"@),
        AdapterId::Codex => kebab_case("Codex"@),
        AdapterId::Ollama => kebab_case("Ollama"@),
        AdapterId::Custom(s) => "custom:"@ + s@,
    }
}

impl AdapterId {
    /// The adapter's name: the kebab-case form of a built-in adapter's
    /// variant (`codex`, `ollama`, ...), or `custom:` followed by the custom
    /// name.
    pub fn to_text(&self) -> (r: String)
        ensures
            r@ == adapter_text(*self),
    {
        match self {
            AdapterId::ClaudeCode => to_kebab_case("ClaudeCode"),
            AdapterId::Codex => to_kebab_case("Codex"),
            AdapterId::Ollama => to_kebab_case("Ollama"),
            AdapterId::Custom(s) => concat("custom:", s.as_str()),
        }
    }

    fn duplicate(&self) -> (r: Self)
        ensures
            adapter_text(r) == adapter_text(*self),
    {
        match self {
            AdapterId::ClaudeCode => AdapterId::ClaudeCode,
            AdapterId::Codex => AdapterId::Codex,
            AdapterId::Ollama => AdapterId::Ollama,
            AdapterId::Custom(s) => AdapterId::Custom(copy_string(s)),
        }
    }
}

#[derive(Debug, Clone, Copy, PartialEq, Eq, Structural)]
pub enum AgentMode {
    Coding,
    Review,
    Research,
}

#[derive(Debug, Clone, Copy, PartialEq, Eq, Structural)]
pub enum AgentStatus {
    Pending,
    Running,
    Completed,
    Failed,
}

#[derive(Debug, Clone, Copy, PartialEq, Eq, Structural)]
pub enum IsolationMode {
    Worktree,
    ReadOnly,
    Primary,
}

/// One agent run.
#[derive(Debug, Clone)]
pub struct AgentThread {
    pub id: u64,
    pub adapter_id: AdapterId,
    pub title: String,
    pub mode: AgentMode,
    pub status: AgentStatus,
    pub isolation: IsolationMode,
    pub worktree_path: Option<String>,
    pub worktree_branch: Option<String>,
    pub terminal_id: Option<u64>,
    pub base_revision: Option<String>,
    pub started_at: Option<String>,
    pub finished_at: Option<String>,
}

/// What a caller asks for when creating an agent.
#[derive(Debug, Clone)]
pub struct CreateAgentRequest {
    pub adapter_id: AdapterId,
    pub title: String,
    pub mode: AgentMode,
    pub isolation: IsolationMode,
}

pub open spec fn opt_view(o: Option<String>) -> Option<Seq<char>> {
    match o {
        Some(s) => Some(s@),
        None => None,
    }
}

fn copy_opt(o: &Option<String>) -> (r: Option<String>)
    ensures
        opt_view(r) == opt_view(*o),
{
    match o {
        Some(s) => Some(copy_string(s)),
        None => None,
    }
}

pub struct AgentThreadView {
    pub id: u64,
    pub adapter: Seq<char>,
    pub title: Seq<char>,
    pub mode: AgentMode,
    pub status: AgentStatus,
    pub isolation: IsolationMode,
    pub worktree_path: Option<Seq<char>>,
    pub worktree_branch: Option<Seq<char>>,
    pub terminal_id: Option<u64>,
    pub base_revision: Option<Seq<char>>,
    pub started_at: Option<Seq<char>>,
    pub finished_at: Option<Seq<char>>,
}

impl View for AgentThread {
    type V = AgentThreadView;

    open spec fn view(&self) -> AgentThreadView {
        AgentThreadView {
            id: self.id,
            adapter: adapter_text(self.adapter_id),
            title: self.title@,
            mode: self.mode,
            status: self.status,
            isolation: self.isolation,
            worktree_path: opt_view(self.worktree_path),
            worktree_branch: opt_view(self.worktree_branch),
            terminal_id: self.terminal_id,
            base_revision: opt_view(self.base_revision),
            started_at: opt_view(self.started_at),
            finished_at: opt_view(self.finished_at),
        }
    }
}

impl AgentThread {
    fn duplicate(&self) -> (r: Self)
        ensures
            r@ == self@,
    {
        AgentThread {
            id: self.id,
            adapter_id: self.adapter_id.duplicate(),
            title: copy_string(&self.title),
            mode: self.mode,
            status: self.status,
            isolation: self.isolation,
            worktree_path: copy_opt(&self.worktree_path),
            worktree_branch: copy_opt(&self.worktree_branch),
            terminal_id: self.terminal_id,
            base_revision: copy_opt(&self.base_revision),
            started_at: copy_opt(&self.started_at),
            finished_at: copy_opt(&self.finished_at),
        }
    }
}

pub open spec fn threads_view(s: Seq<AgentThread>) -> Seq<AgentThreadView> {
    s.map_values(|t: AgentThread| t@)
}

/// A thread counts against the cap while it is pending or running.
pub open spec fn is_active(s: AgentStatus) -> bool {
    s == AgentStatus::Pending || s == AgentStatus::Running
}

/// The number of active threads.
pub open spec fn count_active(s: Seq<AgentThreadView>) -> nat
    decreases s.len(),
{
    if s.len() == 0 {
        0
    } else {
        count_active(s.drop_last()) + if is_active(s.last().status) {
            1nat
        } else {
            0nat
        }
    }
}

/// The position of the thread `id`, or the length when there is none.
pub open spec fn position(s: Seq<AgentThreadView>, id: u64) -> int
    decreases s.len(),
{
    if s.len() == 0 {
        0
    } else if s[0].id == id {
        0
    } else {
        1 + position(s.drop_first(), id)
    }
}

proof fn lemma_position_bounds(s: Seq<AgentThreadView>, id: u64)
    ensures
        0 <= position(s, id) <= s.len(),
    decreases s.len(),
{
    if s.len() > 0 {
        lemma_position_bounds(s.drop_first(), id);
    }
}

proof fn lemma_position_is(s: Seq<AgentThreadView>, id: u64, k: int)
    requires
        0 <= k <= s.len(),
        forall|j: int| 0 <= j < k ==> s[j].id != id,
        k < s.len() ==> s[k].id == id,
    ensures
        position(s, id) == k,
    decreases s.len(),
{
    if s.len() > 0 && k > 0 {
        lemma_position_is(s.drop_first(), id, k - 1);
    }
}

/// The thread a request creates, numbered `id`.
pub open spec fn fresh_thread(id: u64, req: CreateAgentRequest) -> AgentThreadView {
    AgentThreadView {
        id,
        adapter: adapter_text(req.adapter_id),
        title: req.title@,
        mode: req.mode,
        status: AgentStatus::Pending,
        isolation: req.isolation,
        worktree_path: None,
        worktree_branch: None,
        terminal_id: None,
        base_revision: None,
        started_at: None,
        finished_at: None,
    }
}

/// A thread once started in a worktree at time `at`.
pub open spec fn started(
    t: AgentThreadView,
    worktree_path: Option<Seq<char>>,
    worktree_branch: Option<Seq<char>>,
    base_revision: Option<Seq<char>>,
    terminal_id: Option<u64>,
    at: Option<Seq<char>>,
) -> AgentThreadView {
    AgentThreadView {
        status: AgentStatus::Running,
        worktree_path,
        worktree_branch,
        base_revision,
        terminal_id,
        started_at: at,
        ..t
    }
}

/// A thread once finished at time `at`.
pub open spec fn finished(t: AgentThreadView, success: bool, at: Option<Seq<char>>) -> AgentThreadView {
    AgentThreadView {
        status: if success {
            AgentStatus::Completed
        } else {
            AgentStatus::Failed
        },
        finished_at: at,
        ..t
    }
}

/// The supervisor of agent threads.
pub struct AgentSupervisor {
    threads: Vec<AgentThread>,
    next_id: u64,
    max_concurrent: usize,
}

impl AgentSupervisor {
    #[verifier::type_invariant]
    spec fn well_numbered(self) -> bool {
        &&& self.next_id >= 1
        &&& forall|a: int, b: int|
            0 <= a < b < self.threads@.len() ==> #[trigger] self.threads@[a].id
                < #[trigger] self.threads@[b].id
        &&& forall|j: int| 0 <= j < self.threads@.len() ==> #[trigger] self.threads@[j].id < self.next_id
    }

    /// The threads, oldest first.
    pub closed spec fn entries(self) -> Seq<AgentThreadView> {
        threads_view(self.threads@)
    }

    /// The number the next thread gets.
    pub closed spec fn upcoming(self) -> u64 {
        self.next_id
    }

    /// The cap on active threads.
    pub closed spec fn limit(self) -> nat {
        self.max_concurrent as nat
    }

    /// A supervisor with no threads that allows `max_concurrent` active ones;
    /// the first thread is numbered 1.
    pub fn new(max_concurrent: usize) -> (r: Self)
        ensures
            r.entries() == Seq::<AgentThreadView>::empty(),
            r.upcoming() == 1,
            r.limit() == max_concurrent,
    {
        let r = AgentSupervisor { threads: Vec::new(), next_id: 1, max_concurrent };
        assert(r.entries() =~= Seq::<AgentThreadView>::empty());
        r
    }

    /// The number of pending or running threads.
    pub fn active_count(&self) -> (r: usize)
        ensures
            r == count_active(self.entries()),
    {
        let ghost es = self.entries();
        let mut n: usize = 0;
        let mut i: usize = 0;
        while i < self.threads.len()
            invariant
                i <= self.threads@.len(),
                es == self.entries(),
                n == count_active(es.subrange(0, i as int)),
                n <= i,
            decreases self.threads.len() - i,
        {
            assert(es.subrange(0, i + 1).drop_last() =~= es.subrange(0, i as int));
            let st = self.threads[i].status;
            if st == AgentStatus::Running || st == AgentStatus::Pending {
                n = n + 1;
            }
            i = i + 1;
        }
        assert(es.subrange(0, i as int) =~= es);
        n
    }

    /// Creates a pending thread for `req`, numbered with the next number;
    /// refused with `MaxConcurrent` when the cap of active threads is reached.
    pub fn create(&mut self, req: CreateAgentRequest) -> (r: Result<AgentThread, AgentError>)
        requires
            old(self).upcoming() < u64::MAX,
        ensures
            count_active(old(self).entries()) >= old(self).limit() ==> {
                &&& r matches Err(AgentError::MaxConcurrent(m)) && m == old(self).limit()
                &&& final(self).entries() == old(self).entries()
                &&& final(self).upcoming() == old(self).upcoming()
            },
            count_active(old(self).entries()) < old(self).limit() ==> {
                &&& r matches Ok(t) && t@ == fresh_thread(old(self).upcoming(), req)
                &&& final(self).entries() == old(self).entries().push(
                    fresh_thread(old(self).upcoming(), req),
                )
                &&& final(self).upcoming() == old(self).upcoming() + 1
                &&& forall|j: int|
                    0 <= j < old(self).entries().len() ==> old(self).entries()[j].id
                        != old(self).upcoming()
            },
            final(self).limit() == old(self).limit(),
    {
        proof {
            use_type_invariant(&*self);
        }
        if self.active_count() >= self.max_concurrent {
            return Err(AgentError::MaxConcurrent(self.max_concurrent));
        }
        let id = self.next_id;
        let thread = AgentThread {
            id,
            adapter_id: req.adapter_id,
            title: req.title,
            mode: req.mode,
            status: AgentStatus::Pending,
            isolation: req.isolation,
            worktree_path: None,
            worktree_branch: None,
            terminal_id: None,
            base_revision: None,
            started_at: None,
            finished_at: None,
        };
        let copy = thread.duplicate();
        let ghost before = self.entries();
        let ghost tv = thread@;
        let mut taken = AgentSupervisor::new(self.max_concurrent);
        std::mem::swap(&mut taken, self);
        let AgentSupervisor { mut threads, next_id, max_concurrent } = taken;
        threads.push(thread);
        proof {
            assert forall|j: int| 0 <= j < threads@.len() implies #[trigger] threads@[j].id < id + 1 by {
                if j < threads@.len() - 1 {
                    assert(threads@[j].id < id);
                }
            }
        }
        *self = AgentSupervisor { threads, next_id: id + 1, max_concurrent };
        assert(self.entries() =~= before.push(tv));
        Ok(copy)
    }

    fn find(&self, id: u64) -> (r: usize)
        ensures
            r == position(self.entries(), id),
            r <= self.entries().len(),
    {
        let ghost es = self.entries();
        let mut i: usize = 0;
        while i < self.threads.len() && self.threads[i].id != id
            invariant
                i <= self.threads@.len(),
                es == self.entries(),
                forall|j: int| 0 <= j < i ==> es[j].id != id,
            decreases self.threads.len() - i,
        {
            i = i + 1;
        }
        proof {
            lemma_position_is(es, id, i as int);
        }
        i
    }

    /// Marks the thread `id` as running in the given worktree, with the
    /// start time `started_at`; `NotFound` when there is no such thread.
    pub fn start_at(
        &mut self,
        id: u64,
        worktree_path: Option<String>,
        worktree_branch: Option<String>,
        base_revision: Option<String>,
        terminal_id: Option<u64>,
        started_at: Option<String>,
    ) -> (r: Result<(), AgentError>)
        ensures
            ({
                let k = position(old(self).entries(), id);
                if k < old(self).entries().len() {
                    &&& r is Ok
                    &&& final(self).entries() == old(self).entries().update(
                        k,
                        started(
                            old(self).entries()[k],
                            opt_view(worktree_path),
                            opt_view(worktree_branch),
                            opt_view(base_revision),
                            terminal_id,
                            opt_view(started_at),
                        ),
                    )
                } else {
                    &&& r matches Err(AgentError::NotFound(n)) && n == id
                    &&& final(self).entries() == old(self).entries()
                }
            }),
            final(self).upcoming() == old(self).upcoming(),
            final(self).limit() == old(self).limit(),
    {
        proof {
            use_type_invariant(&*self);
        }
        let k = self.find(id);
        if k == self.threads.len() {
            return Err(AgentError::NotFound(id));
        }
        let mut t = self.threads[k].duplicate();
        t.status = AgentStatus::Running;
        t.worktree_path = worktree_path;
        t.worktree_branch = worktree_branch;
        t.base_revision = base_revision;
        t.terminal_id = terminal_id;
        t.started_at = started_at;
        let ghost before = self.entries();
        let ghost tv = t@;
        let mut taken = AgentSupervisor::new(self.max_concurrent);
        std::mem::swap(&mut taken, self);
        let AgentSupervisor { mut threads, next_id, max_concurrent } = taken;
        threads.set(k, t);
        *self = AgentSupervisor { threads, next_id, max_concurrent };
        assert(self.entries() =~= before.update(k as int, tv));
        Ok(())
    }

    /// Marks the thread `id` as running in the given worktree, stamped with
    /// the current time; `NotFound` when there is no such thread.
    pub fn start(
        &mut self,
        id: u64,
        worktree_path: Option<String>,
        worktree_branch: Option<String>,
        base_revision: Option<String>,
        terminal_id: Option<u64>,
    ) -> (r: Result<(), AgentError>)
        ensures
            ({
                let k = position(old(self).entries(), id);
                if k < old(self).entries().len() {
                    &&& r is Ok
                    &&& final(self).entries() == old(self).entries().update(
                        k,
                        started(
                            old(self).entries()[k],
                            opt_view(worktree_path),
                            opt_view(worktree_branch),
                            opt_view(base_revision),
                            terminal_id,
                            final(self).entries()[k].started_at,
                        ),
                    )
                } else {
                    &&& r matches Err(AgentError::NotFound(n)) && n == id
                    &&& final(self).entries() == old(self).entries()
                }
            }),
            final(self).upcoming() == old(self).upcoming(),
            final(self).limit() == old(self).limit(),
    {
        let at = now_rfc3339();
        let ghost atv = opt_view(at);
        let r = self.start_at(id, worktree_path, worktree_branch, base_revision, terminal_id, at);
        proof {
            let k = position(old(self).entries(), id);
            lemma_position_bounds(old(self).entries(), id);
            if k < old(self).entries().len() {
                assert(self.entries()[k].started_at == atv);
            }
        }
        r
    }

    /// Marks the thread `id` as completed, or failed when `success` is
    /// false, with the end time `finished_at`; `NotFound` when there is no
    /// such thread.
    pub fn complete_at(&mut self, id: u64, success: bool, finished_at: Option<String>) -> (r: Result<
        (),
        AgentError,
    >)
        ensures
            ({
                let k = position(old(self).entries(), id);
                if k < old(self).entries().len() {
                    &&& r is Ok
                    &&& final(self).entries() == old(self).entries().update(
                        k,
                        finished(old(self).entries()[k], success, opt_view(finished_at)),
                    )
                } else {
                    &&& r matches Err(AgentError::NotFound(n)) && n == id
                    &&& final(self).entries() == old(self).entries()
                }
            }),
            final(self).upcoming() == old(self).upcoming(),
            final(self).limit() == old(self).limit(),
    {
        proof {
            use_type_invariant(&*self);
        }
        let k = self.find(id);
        if k == self.threads.len() {
            return Err(AgentError::NotFound(id));
        }
        let mut t = self.threads[k].duplicate();
        t.status = if success {
            AgentStatus::Completed
        } else {
            AgentStatus::Failed
        };
        t.finished_at = finished_at;
        let ghost before = self.entries();
        let ghost tv = t@;
        let mut taken = AgentSupervisor::new(self.max_concurrent);
        std::mem::swap(&mut taken, self);
        let AgentSupervisor { mut threads, next_id, max_concurrent } = taken;
        threads.set(k, t);
        *self = AgentSupervisor { threads, next_id, max_concurrent };
        assert(self.entries() =~= before.update(k as int, tv));
        Ok(())
    }

    /// Marks the thread `id` as completed, or failed when `success` is
    /// false, stamped with the current time; `NotFound` when there is no such
    /// thread.
    pub fn complete(&mut self, id: u64, success: bool) -> (r: Result<(), AgentError>)
        ensures
            ({
                let k = position(old(self).entries(), id);
                if k < old(self).entries().len() {
                    &&& r is Ok
                    &&& final(self).entries() == old(self).entries().update(
                        k,
                        finished(
                            old(self).entries()[k],
                            success,
                            final(self).entries()[k].finished_at,
                        ),
                    )
                } else {
                    &&& r matches Err(AgentError::NotFound(n)) && n == id
                    &&& final(self).entries() == old(self).entries()
                }
            }),
            final(self).upcoming() == old(self).upcoming(),
            final(self).limit() == old(self).limit(),
    {
        let at = now_rfc3339();
        let ghost atv = opt_view(at);
        let r = self.complete_at(id, success, at);
        proof {
            let k = position(old(self).entries(), id);
            lemma_position_bounds(old(self).entries(), id);
            if k < old(self).entries().len() {
                assert(self.entries()[k].finished_at == atv);
            }
        }
        r
    }

    /// The thread `id`, if there is one.
    pub fn get(&self, id: u64) -> (r: Option<AgentThread>)
        ensures
            ({
                let k = position(self.entries(), id);
                if k < self.entries().len() {
                    r matches Some(t) && t@ == self.entries()[k]
                } else {
                    r is None
                }
            }),
    {
        let k = self.find(id);
        if k == self.threads.len() {
            None
        } else {
            Some(self.threads[k].duplicate())
        }
    }

    /// All threads, oldest first.
    pub fn list(&self) -> (r: Vec<AgentThread>)
        ensures
            threads_view(r@) == self.entries(),
    {
        let mut out: Vec<AgentThread> = Vec::new();
        let mut i: usize = 0;
        while i < self.threads.len()
            invariant
                i <= self.threads@.len(),
                threads_view(out@) == self.entries().subrange(0, i as int),
            decreases self.threads.len() - i,
        {
            let ghost prev = threads_view(out@);
            let t = self.threads[i].duplicate();
            let ghost tv = t@;
            assert(self.entries()[i as int] == tv);
            out.push(t);
            assert(threads_view(out@) =~= prev.push(tv));
            assert(self.entries().subrange(0, i + 1) =~= self.entries().subrange(0, i as int).push(tv));
            i = i + 1;
        }
        assert(self.entries().subrange(0, i as int) =~= self.entries());
        out
    }

    /// Forgets the thread `id`; `NotFound` when there is no such thread.
    pub fn remove(&mut self, id: u64) -> (r: Result<(), AgentError>)
        ensures
            ({
                let k = position(old(self).entries(), id);
                if k < old(self).entries().len() {
                    &&& r is Ok
                    &&& final(self).entries() == old(self).entries().remove(k)
                } else {
                    &&& r matches Err(AgentError::NotFound(n)) && n == id
                    &&& final(self).entries() == old(self).entries()
                }
            }),
            final(self).upcoming() == old(self).upcoming(),
            final(self).limit() == old(self).limit(),
    {
        proof {
            use_type_invariant(&*self);
        }
        let k = self.find(id);
        if k == self.threads.len() {
            return Err(AgentError::NotFound(id));
        }
        let ghost before = self.entries();
        let mut taken = AgentSupervisor::new(self.max_concurrent);
        std::mem::swap(&mut taken, self);
        let AgentSupervisor { mut threads, next_id, max_concurrent } = taken;
        let ghost old_threads = threads@;
        let _ = threads.remove(k);
        proof {
            assert forall|a: int, b: int| 0 <= a < b < threads@.len() implies #[trigger] threads@[a].id
                < #[trigger] threads@[b].id by {
                let a2 = if a < k { a } else { a + 1 };
                let b2 = if b < k { b } else { b + 1 };
                assert(threads@[a] == old_threads[a2]);
                assert(threads@[b] == old_threads[b2]);
                assert(old_threads[a2].id < old_threads[b2].id);
            }
            assert forall|j: int| 0 <= j < threads@.len() implies #[trigger] threads@[j].id < next_id by {
                let j2 = if j < k { j } else { j + 1 };
                assert(threads@[j] == old_threads[j2]);
            }
        }
        *self = AgentSupervisor { threads, next_id, max_concurrent };
        assert(self.entries() =~= before.remove(k as int));
        Ok(())
    }
}


/// A thread created with a number no existing thread has is the one found
/// by that number.
pub proof fn created_thread_is_found(s: Seq<AgentThreadView>, t: AgentThreadView)
    requires
        forall|j: int| 0 <= j < s.len() ==> s[j].id != t.id,
    ensures
        position(s.push(t), t.id) == s.len(),
        s.push(t)[position(s.push(t), t.id)] == t,
{
    let u = s.push(t);
    assert forall|j: int| 0 <= j < s.len() implies u[j].id != t.id by {
        assert(u[j] == s[j]);
    }
    lemma_position_is(u, t.id, s.len() as int);
}

/// A refused creation leaves the number of active threads at or above the
/// cap, and an accepted one leaves it at most the cap.
pub proof fn creation_respects_cap(s: Seq<AgentThreadView>, cap: nat, t: AgentThreadView)
    requires
        t.status == AgentStatus::Pending,
    ensures
        count_active(s) < cap ==> count_active(s.push(t)) <= cap,
        count_active(s.push(t)) == count_active(s) + 1,
{
    assert(s.push(t).drop_last() =~= s);
}

} // verus!
