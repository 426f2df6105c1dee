//! Worktree cleanup policy: applied clean worktrees become cleanup-eligible
//! after seven idle days; unapplied worktrees never auto-delete; orphaned
//! worktrees require review.

use vstd::prelude::*;
use crate::text::{decimal, owned, push_str, u64_to_decimal};

verus! {

/// Idle days after which an applied clean worktree may be cleaned up.
pub const CLEANUP_ELIGIBLE_DAYS: u64 = 7;

/// Seconds in one day.
pub const SECONDS_PER_DAY: u64 = 86_400;

/// What may happen to a worktree.
#[derive(Debug, Clone, Copy, PartialEq, Eq, Structural)]
pub enum WorktreeCleanupState {
    Keep,
    CleanupEligible,
    NeverAutoDelete,
    RequiresReview,
}

/// A cleanup decision with the reason shown to the user.
#[derive(Debug, Clone)]
pub struct WorktreeCleanupDecision {
    pub path: String,
    pub state: WorktreeCleanupState,
    pub reason: String,
}

pub struct CleanupPolicy;

/// The cleanup state of a worktree.
pub open spec fn cleanup_state(applied: bool, clean: bool, orphaned: bool, idle_days: u64)
    -> WorktreeCleanupState
{
    if orphaned {
        WorktreeCleanupState::RequiresReview
    } else if !applied {
        WorktreeCleanupState::NeverAutoDelete
    } else if clean && idle_days >= CLEANUP_ELIGIBLE_DAYS {
        WorktreeCleanupState::CleanupEligible
    } else {
        WorktreeCleanupState::Keep
    }
}

/// The reason given for a cleanup state.
pub open spec fn cleanup_reason(applied: bool, clean: bool, orphaned: bool, idle_days: u64) -> Seq<
    char,
> {
    match cleanup_state(applied, clean, orphaned, idle_days) {
        WorktreeCleanupState::RequiresReview => "Orphaned worktree requires manual review"@,
        WorktreeCleanupState::NeverAutoDelete => "Unapplied work is never auto-deleted"@,
        WorktreeCleanupState::CleanupEligible => "Applied clean worktree idle for "@ + decimal(
            idle_days as int,
        ) + " days"@,
        WorktreeCleanupState::Keep => "Not yet eligible for cleanup"@,
    }
}

impl CleanupPolicy {
    /// Decides the cleanup state of the worktree at `path`: `applied` tells
    /// whether its changes reached the primary tree, `clean` whether it has
    /// no uncommitted changes, `orphaned` whether Ginger no longer tracks it.
    pub fn decide(
        &self,
        path: &str,
        applied: bool,
        clean: bool,
        orphaned: bool,
        last_activity_days: u64,
    ) -> (r: WorktreeCleanupDecision)
        ensures
            r.path@ == path@,
            r.state == cleanup_state(applied, clean, orphaned, last_activity_days),
            r.reason@ == cleanup_reason(applied, clean, orphaned, last_activity_days),
    {
        if orphaned {
            return WorktreeCleanupDecision {
                path: owned(path),
                state: WorktreeCleanupState::RequiresReview,
                reason: owned("Orphaned worktree requires manual review"),
            };
        }
        if !applied {
            return WorktreeCleanupDecision {
                path: owned(path),
                state: WorktreeCleanupState::NeverAutoDelete,
                reason: owned("Unapplied work is never auto-deleted"),
            };
        }
        if applied && clean && last_activity_days >= CLEANUP_ELIGIBLE_DAYS {
            let mut reason = owned("Applied clean worktree idle for ");
            let days = u64_to_decimal(last_activity_days);
            push_str(&mut reason, days.as_str());
            push_str(&mut reason, " days");
            return WorktreeCleanupDecision {
                path: owned(path),
                state: WorktreeCleanupState::CleanupEligible,
                reason,
            };
        }
        WorktreeCleanupDecision {
            path: owned(path),
            state: WorktreeCleanupState::Keep,
            reason: owned("Not yet eligible for cleanup"),
        }
    }
}

/// Unapplied work is never auto-deleted: a worktree whose changes were not
/// applied is never cleanup-eligible, whatever its other properties.
pub proof fn unapplied_never_cleanup_eligible(clean: bool, orphaned: bool, idle_days: u64)
    ensures
        cleanup_state(false, clean, orphaned, idle_days) != WorktreeCleanupState::CleanupEligible,
{
}

/// Orphaned worktrees always require review, whatever their other
/// properties.
pub proof fn orphaned_always_requires_review(applied: bool, clean: bool, idle_days: u64)
    ensures
        cleanup_state(applied, clean, true, idle_days) == WorktreeCleanupState::RequiresReview,
{
}

/// Cleanup eligibility is monotone in idle time: a worktree eligible after
/// some idle days stays eligible after more idle days.
pub proof fn eligibility_monotone_in_idle_days(
    applied: bool,
    clean: bool,
    orphaned: bool,
    d1: u64,
    d2: u64,
)
    requires
        d1 <= d2,
        cleanup_state(applied, clean, orphaned, d1) == WorktreeCleanupState::CleanupEligible,
    ensures
        cleanup_state(applied, clean, orphaned, d2) == WorktreeCleanupState::CleanupEligible,
{
}

} // verus!
