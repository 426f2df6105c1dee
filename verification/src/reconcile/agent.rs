//! Agent reconciliation: persisted running or waiting agent threads are
//! checked for surviving processes; a thread whose process is gone is marked
//! interrupted and offered a restart, and a review when its worktree holds
//! changes.

use vstd::prelude::*;

verus! {

/// The reconciled state of an agent thread.
#[derive(Debug, Clone, Copy, PartialEq, Eq, Structural)]
pub enum AgentReconcileState {
    Alive,
    Interrupted,
    Completed,
}

/// The outcome of reconciling one agent thread.
#[derive(Debug, Clone, Copy, PartialEq, Eq, Structural)]
pub struct AgentReconcileResult {
    pub agent_id: i64,
    pub state: AgentReconcileState,
    pub worktree_changed: bool,
    pub offer_restart: bool,
    pub offer_review: bool,
}

pub struct AgentReconciler;

impl AgentReconciler {
    /// Reconciles a persisted agent thread: `process_alive` tells whether its
    /// process still exists, `worktree_changed` whether its worktree holds
    /// modifications.
    pub fn reconcile(&self, agent_id: i64, process_alive: bool, worktree_changed: bool) -> (r:
        AgentReconcileResult)
        ensures
            r.agent_id == agent_id,
            r.worktree_changed == worktree_changed,
            r.state == (if process_alive {
                AgentReconcileState::Alive
            } else {
                AgentReconcileState::Interrupted
            }),
            r.offer_restart == !process_alive,
            r.offer_review == (!process_alive && worktree_changed),
    {
        if process_alive {
            AgentReconcileResult {
                agent_id,
                state: AgentReconcileState::Alive,
                worktree_changed,
                offer_restart: false,
                offer_review: false,
            }
        } else {
            AgentReconcileResult {
                agent_id,
                state: AgentReconcileState::Interrupted,
                worktree_changed,
                offer_restart: true,
                offer_review: worktree_changed,
            }
        }
    }
}

} // verus!
