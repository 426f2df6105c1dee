use ginger_code::concurrency::ResourceLocks;
use ginger_code::correlation::{CorrelationId, CorrelationSequence};
use ginger_code::environment::{EnvActivationState, EnvironmentManager};
use ginger_code::locking::LockManager;
use ginger_code::progress::{CancellationToken, ProgressReporter};
use ginger_code::scheduler::AgentScheduler;

#[test]
fn per_resource_exclusivity() {
    let mut locks = ResourceLocks::new();
    assert!(locks.acquire("repo:main"));
    assert!(!locks.acquire("repo:main"));
    // Different resource is independent
    assert!(locks.acquire("repo:other"));
    locks.release("repo:main");
    assert!(locks.acquire("repo:main"));
}

#[test]
fn correlation_ids_are_unique() {
    let mut seq = CorrelationSequence::new();
    let a = CorrelationId::new(&mut seq);
    let b = CorrelationId::new(&mut seq);
    assert_ne!(a, b);
}

#[test]
fn failed_validation_rolls_back() {
    let mut m = EnvironmentManager::new();
    let id = m.stage("/lock");
    assert!(!m.validate_and_activate(id, false));
    assert!(m.active().is_none());
}

#[test]
fn successful_activation_sets_active() {
    let mut m = EnvironmentManager::new();
    let id = m.stage("/lock");
    assert!(m.validate_and_activate(id, true));
    assert_eq!(m.active().unwrap().id, id);
}

#[test]
fn lock_is_exclusive() {
    let mut m = LockManager::new();
    assert!(m.try_lock("artifact-a"));
    assert!(!m.try_lock("artifact-a"));
    m.unlock("artifact-a");
    assert!(m.try_lock("artifact-a"));
}

#[test]
fn cancellation_token_works() {
    let token = CancellationToken::new();
    assert!(!token.is_cancelled());
    token.cancel();
    assert!(token.is_cancelled());
}

#[test]
fn progress_reporter_emits_update() {
    let reporter = ProgressReporter::new("op-1");
    let update = reporter.report("scanning", 5, 10, "Scanning files");
    assert_eq!(update.operation_id, "op-1");
    assert_eq!(update.completed, 5);
    assert_eq!(update.total, 10);
}

#[test]
fn queues_when_at_capacity() {
    let mut s = AgentScheduler::new();
    s.set_max_active(1);
    assert!(s.try_start(1, None).is_ok());
    assert!(s.try_start(2, None).is_err());
    assert_eq!(s.queued().len(), 1);
}

#[test]
fn frees_slot_on_finish() {
    let mut s = AgentScheduler::new();
    s.set_max_active(1);
    s.set_auto_start(true);
    s.try_start(1, None).unwrap();
    s.try_start(2, None).unwrap_err();
    let next = s.finish(1);
    assert!(next.is_some());
    assert_eq!(next.unwrap().agent_id, 2);
}

#[test]
fn failed_validation_keeps_the_snapshot_staged_and_the_prior_active() {
    let mut m = EnvironmentManager::new();
    let first = m.stage("/lock-1");
    assert!(m.validate_and_activate(first, true));
    let second = m.stage("/lock-2");
    assert!(!m.validate_and_activate(second, false));
    assert_eq!(m.active().unwrap().id, first);
    assert!(!m.validate_and_activate(99, true));
    assert_eq!(m.active().unwrap().id, first);
}

#[test]
fn rollback_returns_to_the_latest_earlier_active_environment() {
    let mut m = EnvironmentManager::new();
    let a = m.stage("/a");
    let b = m.stage("/b");
    let c = m.stage("/c");
    let d = m.stage("/d");
    assert!(m.validate_and_activate(a, true));
    assert!(m.validate_and_activate(b, true));
    assert!(m.validate_and_activate(d, true));
    assert_eq!(m.rollback(c), Some(b));
    assert_eq!(m.active().unwrap().id, b);
    assert_eq!(m.rollback(b), Some(a));
    assert_eq!(m.active().unwrap().id, a);
    assert_eq!(m.active().unwrap().state, EnvActivationState::Active);
    assert_eq!(m.rollback(a), None);
    assert_eq!(m.active().unwrap().id, a);
}

#[test]
fn versioned_payload_keeps_version_and_payload() {
    let vp = ginger_code::serialization::VersionedPayload::new(1, "x".to_string());
    assert_eq!(vp.version, 1);
    assert_eq!(vp.payload, "x");
}
