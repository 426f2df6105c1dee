use ginger_code::cleanup::{CleanupPolicy, WorktreeCleanupState};
use ginger_code::compat::{CompatibilityMatrix, VersionSet};
use ginger_code::error::GingerErrorCode;
use ginger_code::ipc::{IpcNegotiation, IpcVersion};
use ginger_code::keybinding::{ConflictKind, KeybindingChecker};

#[test]
fn unapplied_never_auto_deletes() {
    let d = CleanupPolicy.decide("/wt", false, true, false, 30);
    assert_eq!(d.state, WorktreeCleanupState::NeverAutoDelete);
}

#[test]
fn applied_clean_idle_eligible() {
    let d = CleanupPolicy.decide("/wt", true, true, false, 8);
    assert_eq!(d.state, WorktreeCleanupState::CleanupEligible);
}

#[test]
fn orphaned_requires_review() {
    let d = CleanupPolicy.decide("/wt", true, true, true, 0);
    assert_eq!(d.state, WorktreeCleanupState::RequiresReview);
}

#[test]
fn known_set_is_compatible() {
    let set = VersionSet {
        app: "0.1.0".to_string(),
        runtime: "0.1.0".to_string(),
        db_schema: 1,
        ipc_protocol: 1,
        catalog: "baseline-1".to_string(),
    };
    assert!(CompatibilityMatrix::new().check(&set).compatible);
}

#[test]
fn mismatched_db_schema_detected() {
    let set = VersionSet {
        app: "0.1.0".to_string(),
        runtime: "0.1.0".to_string(),
        db_schema: 2,
        ipc_protocol: 1,
        catalog: "baseline-1".to_string(),
    };
    let check = CompatibilityMatrix::new().check(&set);
    assert!(!check.compatible);
    assert!(check.mismatches.iter().any(|m| m.contains("db_schema")));
}

#[test]
fn codes_are_stable_strings() {
    assert_eq!(
        GingerErrorCode::EditorRpcHandshakeFailed.as_str(),
        "GINGER_EDITOR_RPC_HANDSHAKE_FAILED"
    );
    assert_eq!(
        GingerErrorCode::GitWorktreeCreateFailed.as_str(),
        "GINGER_GIT_WORKTREE_CREATE_FAILED"
    );
}

#[test]
fn compatible_when_equal() {
    assert_eq!(IpcVersion::negotiate(1), IpcNegotiation::Compatible);
}

#[test]
fn mismatch_when_different() {
    match IpcVersion::negotiate(2) {
        IpcNegotiation::Mismatch { frontend, backend } => {
            assert_eq!(frontend, 2);
            assert_eq!(backend, 1);
        }
        _ => panic!("expected mismatch"),
    }
}

#[test]
fn detects_macos_reserved() {
    let conflicts = KeybindingChecker.check("cmd+space", &[]);
    assert!(conflicts.iter().any(|c| c.kind == ConflictKind::MacOSReserved));
}

#[test]
fn detects_ginger_duplicate() {
    let conflicts = KeybindingChecker.check("cmd+p", &["cmd+p".to_string()]);
    assert!(conflicts.iter().any(|c| c.kind == ConflictKind::Ginger));
}

#[test]
fn no_conflict_for_clean_binding() {
    let conflicts = KeybindingChecker.check("cmd+shift+k", &[]);
    assert!(conflicts.is_empty());
}
