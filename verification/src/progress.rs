//! Cancellation tokens and progress updates of long-running operations.
//!
//! Project scans, package downloads, verification runs and searches check a
//! token cooperatively; long operations report their phase and how far they
//! have come.

use std::sync::atomic::{AtomicBool, Ordering};
use std::sync::Arc;
use vstd::prelude::*;

verus! {

/// One progress report of an operation.
#[derive(Debug, Clone)]
pub struct ProgressUpdate {
    pub operation_id: String,
    pub phase: String,
    pub completed: usize,
    pub total: usize,
    pub message: String,
}

/// A cancellation flag shared by every clone of the token.
#[derive(Debug, Clone)]
pub struct CancellationToken {
    cancelled: Arc<AtomicBool>,
}

impl CancellationToken {
    /// A token that is not cancelled.
    pub fn new() -> (r: Self) {
        CancellationToken { cancelled: Arc::new(AtomicBool::new(false)) }
    }

    /// Marks the token, and all its clones, as cancelled.
    pub fn cancel(&self) {
        self.cancelled.store(true, Ordering::Relaxed);
    }

    /// Whether the token has been cancelled.
    pub fn is_cancelled(&self) -> (r: bool) {
        self.cancelled.load(Ordering::Relaxed)
    }
}

/// Builds the progress updates of one operation.
pub struct ProgressReporter {
    operation_id: String,
}

impl ProgressReporter {
    pub closed spec fn operation(&self) -> Seq<char> {
        self.operation_id@
    }

    /// A reporter for the operation `operation_id`.
    pub fn new(operation_id: &str) -> (r: Self)
        ensures
            r.operation() == operation_id@,
    {
        ProgressReporter { operation_id: operation_id.to_owned() }
    }

    /// The update saying that the operation is in `phase`, with `completed`
    /// of `total` units done.
    pub fn report(&self, phase: &str, completed: usize, total: usize, message: &str) -> (r:
        ProgressUpdate)
        ensures
            r.operation_id@ == self.operation(),
            r.phase@ == phase@,
            r.completed == completed,
            r.total == total,
            r.message@ == message@,
    {
        ProgressUpdate {
            operation_id: self.operation_id.clone(),
            phase: phase.to_owned(),
            completed,
            total,
            message: message.to_owned(),
        }
    }
}

} // verus!
