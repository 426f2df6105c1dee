//! Error conventions: internal errors keep their technical detail, while
//! IPC exposes stable machine-readable codes such as
//! `GINGER_GIT_WORKTREE_CREATE_FAILED`; frontend behaviour depends on codes,
//! not on message parsing.

use vstd::prelude::*;
use crate::text::{owned, push_str};

verus! {

/// Stable error codes exposed over IPC.
#[derive(Debug, Clone, Copy, PartialEq, Eq, Structural)]
pub enum GingerErrorCode {
    GitWorktreeCreateFailed,
    GitWorktreeListFailed,
    GitApplyFailed,
    GitCherryPickFailed,
    GitBranchSwitchFailed,
    EditorRpcHandshakeFailed,
    EditorSpawnFailed,
    EditorConfigError,
    AgentSpawnFailed,
    AgentAdapterNotFound,
    AgentAtCapacity,
    PackageResolveFailed,
    PackageInstallFailed,
    PackageRollbackFailed,
    WorkspaceOpenFailed,
    WorkspaceTrustRequired,
    WorkspaceMissing,
    RecoveryRequired,
    IpcVersionMismatch,
    Internal,
}

/// The stable text of an error code.
pub open spec fn error_code_text(c: GingerErrorCode) -> Seq<char> {
    match c {
        GingerErrorCode::GitWorktreeCreateFailed => "GINGER_GIT_WORKTREE_CREATE_FAILED"@,
        GingerErrorCode::GitWorktreeListFailed => "GINGER_GIT_WORKTREE_LIST_FAILED"@,
        GingerErrorCode::GitApplyFailed => "GINGER_GIT_APPLY_FAILED"@,
        GingerErrorCode::GitCherryPickFailed => "GINGER_GIT_CHERRY_PICK_FAILED"@,
        GingerErrorCode::GitBranchSwitchFailed => "GINGER_GIT_BRANCH_SWITCH_FAILED"@,
        GingerErrorCode::EditorRpcHandshakeFailed => "GINGER_EDITOR_RPC_HANDSHAKE_FAILED"@,
        GingerErrorCode::EditorSpawnFailed => "GINGER_EDITOR_SPAWN_FAILED"@,
        GingerErrorCode::EditorConfigError => "GINGER_EDITOR_CONFIG_ERROR"@,
        GingerErrorCode::AgentSpawnFailed => "GINGER_AGENT_SPAWN_FAILED"@,
        GingerErrorCode::AgentAdapterNotFound => "GINGER_AGENT_ADAPTER_NOT_FOUND"@,
        GingerErrorCode::AgentAtCapacity => "GINGER_AGENT_AT_CAPACITY"@,
        GingerErrorCode::PackageResolveFailed => "GINGER_PACKAGE_RESOLVE_FAILED"@,
        GingerErrorCode::PackageInstallFailed => "GINGER_PACKAGE_INSTALL_FAILED"@,
        GingerErrorCode::PackageRollbackFailed => "GINGER_PACKAGE_ROLLBACK_FAILED"@,
        GingerErrorCode::WorkspaceOpenFailed => "GINGER_WORKSPACE_OPEN_FAILED"@,
        GingerErrorCode::WorkspaceTrustRequired => "GINGER_WORKSPACE_TRUST_REQUIRED"@,
        GingerErrorCode::WorkspaceMissing => "GINGER_WORKSPACE_MISSING"@,
        GingerErrorCode::RecoveryRequired => "GINGER_RECOVERY_REQUIRED"@,
        GingerErrorCode::IpcVersionMismatch => "GINGER_IPC_VERSION_MISMATCH"@,
        GingerErrorCode::Internal => "GINGER_INTERNAL"@,
    }
}

impl GingerErrorCode {
    /// The stable text of this code.
    pub fn as_str(&self) -> (r: &'static str)
        ensures
            r@ == error_code_text(*self),
    {
        match self {
            GingerErrorCode::GitWorktreeCreateFailed => "GINGER_GIT_WORKTREE_CREATE_FAILED",
            GingerErrorCode::GitWorktreeListFailed => "GINGER_GIT_WORKTREE_LIST_FAILED",
            GingerErrorCode::GitApplyFailed => "GINGER_GIT_APPLY_FAILED",
            GingerErrorCode::GitCherryPickFailed => "GINGER_GIT_CHERRY_PICK_FAILED",
            GingerErrorCode::GitBranchSwitchFailed => "GINGER_GIT_BRANCH_SWITCH_FAILED",
            GingerErrorCode::EditorRpcHandshakeFailed => "GINGER_EDITOR_RPC_HANDSHAKE_FAILED",
            GingerErrorCode::EditorSpawnFailed => "GINGER_EDITOR_SPAWN_FAILED",
            GingerErrorCode::EditorConfigError => "GINGER_EDITOR_CONFIG_ERROR",
            GingerErrorCode::AgentSpawnFailed => "GINGER_AGENT_SPAWN_FAILED",
            GingerErrorCode::AgentAdapterNotFound => "GINGER_AGENT_ADAPTER_NOT_FOUND",
            GingerErrorCode::AgentAtCapacity => "GINGER_AGENT_AT_CAPACITY",
            GingerErrorCode::PackageResolveFailed => "GINGER_PACKAGE_RESOLVE_FAILED",
            GingerErrorCode::PackageInstallFailed => "GINGER_PACKAGE_INSTALL_FAILED",
            GingerErrorCode::PackageRollbackFailed => "GINGER_PACKAGE_ROLLBACK_FAILED",
            GingerErrorCode::WorkspaceOpenFailed => "GINGER_WORKSPACE_OPEN_FAILED",
            GingerErrorCode::WorkspaceTrustRequired => "GINGER_WORKSPACE_TRUST_REQUIRED",
            GingerErrorCode::WorkspaceMissing => "GINGER_WORKSPACE_MISSING",
            GingerErrorCode::RecoveryRequired => "GINGER_RECOVERY_REQUIRED",
            GingerErrorCode::IpcVersionMismatch => "GINGER_IPC_VERSION_MISMATCH",
            GingerErrorCode::Internal => "GINGER_INTERNAL",
        }
    }
}

/// An error carrying a stable code and a technical detail.
#[derive(Debug, Clone)]
pub struct GingerError {
    pub code: GingerErrorCode,
    pub detail: String,
}

impl GingerError {
    pub fn new(code: GingerErrorCode, detail: &str) -> (r: Self)
        ensures
            r.code == code,
            r.detail@ == detail@,
    {
        GingerError { code, detail: owned(detail) }
    }

    /// The stable text of this error's code.
    pub fn code_str(&self) -> (r: &'static str)
        ensures
            r@ == error_code_text(self.code),
    {
        self.code.as_str()
    }

    /// The display text of this error: its code, a colon and a space, and
    /// its detail.
    pub fn message(&self) -> (r: String)
        ensures
            r@ == error_code_text(self.code) + ": "@ + self.detail@,
    {
        let mut s = owned(self.code.as_str());
        push_str(&mut s, ": ");
        push_str(&mut s, self.detail.as_str());
        s
    }
}

} // verus!
