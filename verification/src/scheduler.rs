//! Agent concurrency policy and queue: at most `max_active` coding agents
//! run at once (3 by default). At capacity a start is queued; queued starts
//! are durable, and when a slot frees the next queued start is handed out
//! only when auto-start is enabled (otherwise Ginger prompts first).

use vstd::prelude::*;
use std::collections::VecDeque;
use crate::clock::now;

verus! {

broadcast use vstd::std_specs::vecdeque::group_vec_dequeue_axioms;

/// The default maximum number of active coding agents.
pub const DEFAULT_MAX_ACTIVE_AGENTS: usize = 3;

/// A queued agent start.
#[derive(Debug, Clone, Copy, PartialEq, Eq, Structural)]
pub struct QueuedAgentStart {
    pub agent_id: i64,
    pub task_id: Option<i64>,
    pub queued_at: u64,
}

/// `active` without the agent `agent_id`.
pub open spec fn without_agent(active: Seq<i64>, agent_id: i64) -> Seq<i64> {
    active.filter(other_than(agent_id))
}

/// The agents other than `agent_id`.
pub open spec fn other_than(agent_id: i64) -> spec_fn(i64) -> bool {
    |a: i64| a != agent_id
}

/// The agent scheduler.
pub struct AgentScheduler {
    max_active: usize,
    active: Vec<i64>,
    queue: VecDeque<QueuedAgentStart>,
    auto_start: bool,
}

impl AgentScheduler {
    /// The largest number of agents allowed to run at once.
    pub closed spec fn max_active(self) -> nat {
        self.max_active as nat
    }

    /// The running agents, in start order.
    pub closed spec fn active(self) -> Seq<i64> {
        self.active@
    }

    /// The queued starts, oldest first.
    pub closed spec fn queue(self) -> Seq<QueuedAgentStart> {
        self.queue@
    }

    /// Whether a freed slot hands out the next queued start.
    pub closed spec fn auto_start(self) -> bool {
        self.auto_start
    }

    pub fn new() -> (r: Self)
        ensures
            r.max_active() == DEFAULT_MAX_ACTIVE_AGENTS,
            r.active() == Seq::<i64>::empty(),
            r.queue() == Seq::<QueuedAgentStart>::empty(),
            !r.auto_start(),
    {
        AgentScheduler {
            max_active: DEFAULT_MAX_ACTIVE_AGENTS,
            active: Vec::new(),
            queue: VecDeque::new(),
            auto_start: false,
        }
    }

    /// Changes the maximum number of active agents.
    pub fn set_max_active(&mut self, n: usize)
        ensures
            final(self).max_active() == n,
            final(self).active() == old(self).active(),
            final(self).queue() == old(self).queue(),
            final(self).auto_start() == old(self).auto_start(),
    {
        self.max_active = n;
    }

    /// Enables or disables auto-start of queued agents.
    pub fn set_auto_start(&mut self, enabled: bool)
        ensures
            final(self).auto_start() == enabled,
            final(self).max_active() == old(self).max_active(),
            final(self).active() == old(self).active(),
            final(self).queue() == old(self).queue(),
    {
        self.auto_start = enabled;
    }

    /// Starts agent `agent_id` when a slot is free; at capacity the start is
    /// queued, stamped with the current time, and returned as the error.
    pub fn try_start(&mut self, agent_id: i64, task_id: Option<i64>) -> (r: Result<
        (),
        QueuedAgentStart,
    >)
        ensures
            final(self).max_active() == old(self).max_active(),
            final(self).auto_start() == old(self).auto_start(),
            old(self).active().len() < old(self).max_active() ==> {
                &&& r is Ok
                &&& final(self).active() == old(self).active().push(agent_id)
                &&& final(self).queue() == old(self).queue()
            },
            old(self).active().len() >= old(self).max_active() ==> {
                &&& r matches Err(q) && q.agent_id == agent_id && q.task_id == task_id
                &&& final(self).active() == old(self).active()
                &&& final(self).queue() == old(self).queue().push(r->Err_0)
            },
    {
        if self.active.len() < self.max_active {
            self.active.push(agent_id);
            Ok(())
        } else {
            let queued = QueuedAgentStart { agent_id, task_id, queued_at: now() };
            self.queue.push_back(queued);
            Err(queued)
        }
    }

    /// Marks agent `agent_id` finished, freeing its slot. With auto-start
    /// enabled, the oldest queued start (if any) is removed from the queue
    /// and returned; otherwise the queue is untouched and `None` returned.
    pub fn finish(&mut self, agent_id: i64) -> (r: Option<QueuedAgentStart>)
        ensures
            final(self).active() == without_agent(old(self).active(), agent_id),
            final(self).max_active() == old(self).max_active(),
            final(self).auto_start() == old(self).auto_start(),
            old(self).auto_start() && old(self).queue().len() > 0 ==> {
                &&& r == Some(old(self).queue()[0])
                &&& final(self).queue() == old(self).queue().drop_first()
            },
            !(old(self).auto_start() && old(self).queue().len() > 0) ==> {
                &&& r is None
                &&& final(self).queue() == old(self).queue()
            },
    {
        let ghost pred = other_than(agent_id);
        let ghost before = self.active@;
        let mut kept: Vec<i64> = Vec::new();
        let mut i: usize = 0;
        assert(before.subrange(0, 0) =~= Seq::<i64>::empty());
        while i < self.active.len()
            invariant
                i <= self.active@.len(),
                before == self.active@,
                pred == other_than(agent_id),
                kept@ == before.subrange(0, i as int).filter(pred),
            decreases self.active.len() - i,
        {
            let a = self.active[i];
            proof {
                assert(before.subrange(0, i + 1) =~= before.subrange(0, i as int).push(a));
                before.subrange(0, i as int).lemma_filter_push(a, pred);
            }
            if a != agent_id {
                kept.push(a);
            }
            i = i + 1;
        }
        assert(before.subrange(0, i as int) =~= before);
        self.active = kept;
        if self.auto_start {
            let r = self.queue.pop_front();
            proof {
                if self.queue@.len() > 0 || r is Some {
                    assert(self.queue@ =~= old(self).queue@.drop_first());
                }
            }
            r
        } else {
            None
        }
    }

    /// The number of running agents.
    pub fn active_count(&self) -> (r: usize)
        ensures
            r == self.active().len(),
    {
        self.active.len()
    }

    /// The queued starts, oldest first.
    pub fn queued(&self) -> (r: Vec<QueuedAgentStart>)
        ensures
            r@ == self.queue(),
    {
        let mut out: Vec<QueuedAgentStart> = Vec::new();
        let mut i: usize = 0;
        while i < self.queue.len()
            invariant
                i <= self.queue@.len(),
                out@ == self.queue@.subrange(0, i as int),
            decreases self.queue@.len() - i,
        {
            out.push(self.queue[i]);
            assert(out@ =~= self.queue@.subrange(0, i + 1));
            i = i + 1;
        }
        assert(out@ =~= self.queue@);
        out
    }
}

/// Capacity is respected: starting an agent never takes the number of
/// running agents past the maximum when it was within it.
pub proof fn start_respects_capacity(active: Seq<i64>, max_active: nat, agent_id: i64)
    requires
        active.len() <= max_active,
    ensures
        active.len() < max_active ==> active.push(agent_id).len() <= max_active,
{
}

/// Queued starts are served first-in first-out: a start queued behind
/// others is handed out only after them.
pub proof fn queue_is_fifo(queue: Seq<QueuedAgentStart>, q: QueuedAgentStart)
    requires
        queue.len() > 0,
    ensures
        queue.push(q)[0] == queue[0],
        queue.push(q).drop_first() == queue.drop_first().push(q),
{
    assert(queue.push(q).drop_first() =~= queue.drop_first().push(q));
}

} // verus!
