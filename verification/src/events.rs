//! Typed domain events, named `domain.entity.action` on the wire (for
//! example `agent.thread.started` or `worktree.changed`).

use vstd::prelude::*;

verus! {

/// A domain event and its payload.
#[derive(Debug, Clone)]
pub enum DomainEvent {
    WorkspaceOpened { workspace_id: i64, root: String },
    WorkspaceClosed { workspace_id: i64 },
    EditorReady { session_id: i64 },
    EditorConfigError { error: String, safe_mode: bool },
    AgentThreadCreated { agent_id: i64, adapter: String },
    AgentThreadStarted { agent_id: i64, worktree_path: String },
    AgentThreadStatusChanged { agent_id: i64, status: String },
    AgentThreadCompleted { agent_id: i64, success: bool },
    AgentThreadFailed { agent_id: i64, error: String },
    WorktreeCreated { worktree_id: i64, path: String, branch: String },
    WorktreeChanged { worktree_id: i64, files_changed: usize },
    WorktreeApplied { worktree_id: i64, strategy: String },
    VerificationStarted { run_id: i64, agent_id: i64 },
    VerificationCompleted { run_id: i64, success: bool },
    PackageRecommendationsUpdated { workspace_id: i64, count: usize },
    PackageInstallStarted { package_id: String },
    PackageInstallCompleted { package_id: String, success: bool },
    RecoveryRequired { reason: String },
    RecoveryCompleted { worktrees_recovered: usize, safe_mode: bool },
    JobProgress { job_id: String, phase: String, completed: usize, total: usize },
    JobCancelled { job_id: String },
}

/// The wire name of an event.
pub open spec fn event_name(e: DomainEvent) -> Seq<char> {
    match e {
        DomainEvent::WorkspaceOpened { .. } => "workspace.opened"@,
        DomainEvent::WorkspaceClosed { .. } => "workspace.closed"@,
        DomainEvent::EditorReady { .. } => "editor.ready"@,
        DomainEvent::EditorConfigError { .. } => "editor.config.error"@,
        DomainEvent::AgentThreadCreated { .. } => "agent.thread.created"@,
        DomainEvent::AgentThreadStarted { .. } => "agent.thread.started"@,
        DomainEvent::AgentThreadStatusChanged { .. } => "agent.thread.status.changed"@,
        DomainEvent::AgentThreadCompleted { .. } => "agent.thread.completed"@,
        DomainEvent::AgentThreadFailed { .. } => "agent.thread.failed"@,
        DomainEvent::WorktreeCreated { .. } => "worktree.created"@,
        DomainEvent::WorktreeChanged { .. } => "worktree.changed"@,
        DomainEvent::WorktreeApplied { .. } => "worktree.applied"@,
        DomainEvent::VerificationStarted { .. } => "verification.started"@,
        DomainEvent::VerificationCompleted { .. } => "verification.completed"@,
        DomainEvent::PackageRecommendationsUpdated { .. } => "package.recommendations.updated"@,
        DomainEvent::PackageInstallStarted { .. } => "package.install.started"@,
        DomainEvent::PackageInstallCompleted { .. } => "package.install.completed"@,
        DomainEvent::RecoveryRequired { .. } => "recovery.required"@,
        DomainEvent::RecoveryCompleted { .. } => "recovery.completed"@,
        DomainEvent::JobProgress { .. } => "job.progress"@,
        DomainEvent::JobCancelled { .. } => "job.cancelled"@,
    }
}

impl DomainEvent {
    /// The wire name of this event, under which its payload is tagged.
    pub fn name(&self) -> (r: &'static str)
        ensures
            r@ == event_name(*self),
    {
        match self {
            DomainEvent::WorkspaceOpened { .. } => "workspace.opened",
            DomainEvent::WorkspaceClosed { .. } => "workspace.closed",
            DomainEvent::EditorReady { .. } => "editor.ready",
            DomainEvent::EditorConfigError { .. } => "editor.config.error",
            DomainEvent::AgentThreadCreated { .. } => "agent.thread.created",
            DomainEvent::AgentThreadStarted { .. } => "agent.thread.started",
            DomainEvent::AgentThreadStatusChanged { .. } => "agent.thread.status.changed",
            DomainEvent::AgentThreadCompleted { .. } => "agent.thread.completed",
            DomainEvent::AgentThreadFailed { .. } => "agent.thread.failed",
            DomainEvent::WorktreeCreated { .. } => "worktree.created",
            DomainEvent::WorktreeChanged { .. } => "worktree.changed",
            DomainEvent::WorktreeApplied { .. } => "worktree.applied",
            DomainEvent::VerificationStarted { .. } => "verification.started",
            DomainEvent::VerificationCompleted { .. } => "verification.completed",
            DomainEvent::PackageRecommendationsUpdated { .. } => "package.recommendations.updated",
            DomainEvent::PackageInstallStarted { .. } => "package.install.started",
            DomainEvent::PackageInstallCompleted { .. } => "package.install.completed",
            DomainEvent::RecoveryRequired { .. } => "recovery.required",
            DomainEvent::RecoveryCompleted { .. } => "recovery.completed",
            DomainEvent::JobProgress { .. } => "job.progress",
            DomainEvent::JobCancelled { .. } => "job.cancelled",
        }
    }
}

} // verus!
