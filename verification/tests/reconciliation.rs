use ginger_code::language_servers::executable;
use ginger_code::reconcile::agent::{AgentReconcileState, AgentReconciler};
use ginger_code::reconcile::package::{EnvReadiness, PackageReconciler};
use ginger_code::reconcile::{WorktreeReconcileState, WorktreeReconciler};

#[test]
fn alive_agent_no_offers() {
    let r = AgentReconciler.reconcile(1, true, false);
    assert_eq!(r.state, AgentReconcileState::Alive);
    assert!(!r.offer_restart);
    assert!(!r.offer_review);
}

#[test]
fn interrupted_with_changes_offers_review() {
    let r = AgentReconciler.reconcile(2, false, true);
    assert_eq!(r.state, AgentReconcileState::Interrupted);
    assert!(r.offer_restart);
    assert!(r.offer_review);
}

#[test]
fn parses_porcelain() {
    let output = "worktree /tmp/wt1\nHEAD abc123\nbranch refs/heads/feature-a\n\nworktree /tmp/wt2\nHEAD def456\nbranch refs/heads/feature-b\n";
    let parsed = WorktreeReconciler.parse_porcelain(output);
    assert_eq!(parsed.len(), 2);
    assert_eq!(parsed[0], ("/tmp/wt1".to_string(), "feature-a".to_string()));
    assert_eq!(parsed[1], ("/tmp/wt2".to_string(), "feature-b".to_string()));
}

#[test]
fn detects_missing_and_unmanaged() {
    let recorded = vec!["/tmp/wt1".to_string()];
    let actual = vec![("/tmp/wt1".to_string(), "feature-a".to_string())];
    let results = WorktreeReconciler.reconcile(&recorded, &actual);
    // wt1 present, no unmanaged
    assert!(results.iter().any(|r| r.state == WorktreeReconcileState::Present));
}

#[test]
fn ready_when_all_ok() {
    let r = PackageReconciler.reconcile(true, true, true, true, &["npm".to_string()]);
    assert_eq!(r.readiness, EnvReadiness::Ready);
    assert!(r.repair_needed.is_empty());
}

#[test]
fn degraded_when_runtime_incompatible() {
    let r = PackageReconciler.reconcile(true, true, false, true, &[]);
    assert_eq!(r.readiness, EnvReadiness::Degraded);
    assert!(r.repair_needed.contains(&"runtime".to_string()));
}

#[test]
fn only_known_commands_are_launchable() {
    assert!(executable("sh").is_err());
    assert_eq!(executable("python").unwrap().0, "pyright-langserver");
}

#[test]
fn worktrees_match_by_canonical_form() {
    let dir = tempfile::tempdir().unwrap();
    let plain = dir.path().to_str().unwrap().to_string();
    let dotted = format!("{}/./", plain);
    let recorded = vec![dotted.clone()];
    let actual = vec![(plain.clone(), "feature-a".to_string())];
    let results = WorktreeReconciler.reconcile(&recorded, &actual);
    assert_eq!(results.len(), 1);
    assert_eq!(results[0].path, dotted);
    assert_eq!(results[0].branch, "feature-a");
    assert_eq!(results[0].state, WorktreeReconcileState::Present);
}
