use ginger_code::detection::FileEvidence;
use ginger_code::persistence::{PersistenceError, PersistenceService};
use ginger_code::recovery::{RecoveryService, ScannedEntry};

fn entry(path: &str, is_dir: bool, git_file: FileEvidence, has_changes: bool) -> ScannedEntry {
    ScannedEntry { path: path.to_string(), is_dir, git_file, has_changes }
}

#[test]
fn git_files_name_the_branch() {
    assert_eq!(
        RecoveryService::branch_from_git_file("gitdir: /repo/.git/worktrees/feature-x\n"),
        Some("feature-x".to_string())
    );
    assert_eq!(
        RecoveryService::branch_from_git_file("other\ngitdir:gitdir:   /r/.git/worktrees/b2/  \r\n"),
        Some("b2".to_string())
    );
    assert_eq!(RecoveryService::branch_from_git_file("no pointer here"), None);
    assert_eq!(RecoveryService::branch_from_git_file("gitdir: /"), None);
}

#[test]
fn worktrees_are_recovered_never_deleted() {
    let svc = RecoveryService::new();
    let entries = vec![
        entry("/d/wt-a", true, FileEvidence::Content("gitdir: /r/.git/worktrees/a\n".to_string()), true),
        entry("/d/notes.txt", false, FileEvidence::Absent, false),
        entry("/d/plain", true, FileEvidence::Absent, false),
        entry("/d/wt-b", true, FileEvidence::Unreadable, false),
    ];
    let ws = svc.recover_worktrees(&entries);
    assert_eq!(ws.len(), 2);
    assert_eq!((ws[0].path.as_str(), ws[0].branch.as_str(), ws[0].status.as_str()), ("/d/wt-a", "a", "active"));
    assert!(ws[0].has_unapplied_changes);
    assert_eq!((ws[1].branch.as_str(), ws[1].status.as_str()), ("unknown", "stale"));
    let report = svc.recover("/d", &entries, Some("/d/backups/recovery_x.sqlite".to_string()));
    assert!(report.crashed_sessions.is_empty());
    assert!(!report.safe_mode);
    let actions: Vec<(&str, &str, &str)> = report.actions.iter().map(|a| (a.action.as_str(), a.target.as_str(), a.result.as_str())).collect();
    assert_eq!(
        actions,
        vec![
            ("scan_worktrees", "/d/worktrees", "Found 2 worktrees"),
            ("backup_db", "/d/backups/recovery_x.sqlite", "Database backed up before recovery"),
        ]
    );
    assert!(svc.recover("/d", &vec![], None).actions.is_empty());
}

#[test]
fn heartbeat_and_safe_mode() {
    let mut svc = RecoveryService::new();
    assert!(!svc.is_stale());
    svc.heartbeat();
    assert!(!svc.is_stale());
    assert!(!svc.overdue(60_000_000_000));
    assert!(svc.overdue(60_000_000_001));
    svc.enter_safe_mode();
    assert!(svc.is_safe_mode());
    svc.exit_safe_mode();
    assert!(!svc.is_safe_mode());
}

#[test]
fn recovery_and_persistence_paths() {
    assert_eq!(RecoveryService::worktrees_root("/home/u/.ginger"), "/home/u/.ginger/worktrees");
    assert_eq!(RecoveryService::database_path("/g"), "/g/data/ginger.sqlite");
    assert_eq!(RecoveryService::backup_target("/g", "20240101_000000"), "/g/backups/recovery_20240101_000000.sqlite");
    assert_eq!(PersistenceService::data_root_for(Some("/home/u".to_string())).unwrap(), "/home/u/.ginger");
    assert!(matches!(PersistenceService::data_root_for(None), Err(PersistenceError::Inner(m)) if m == "no home directory"));
    let svc = PersistenceService::new("/g".to_string());
    assert_eq!(svc.db_path(), "/g/data/ginger.sqlite");
    assert_eq!(svc.migration_backup("s"), "/g/backups/ginger_s.sqlite");
    let subs = PersistenceService::subdirectories("/g");
    assert_eq!(subs[0], ("cache".to_string(), "/g/cache".to_string()));
    assert_eq!(subs[5], ("data".to_string(), "/g/data".to_string()));
    assert_eq!(PersistenceService::migration_script("CREATE TABLE t (x);"), "BEGIN; CREATE TABLE t (x); COMMIT;");
    assert!(matches!(PersistenceService::create_failed("logs", "denied"), PersistenceError::Inner(m) if m == "create logs: denied"));
}

#[test]
fn only_the_five_newest_backups_survive() {
    let backups: Vec<(String, Option<i128>)> = vec![
        ("b7".to_string(), Some(70)),
        ("b1".to_string(), Some(10)),
        ("unknown".to_string(), None),
        ("b5".to_string(), Some(50)),
        ("b3".to_string(), Some(30)),
        ("b3bis".to_string(), Some(30)),
        ("b9".to_string(), Some(90)),
    ];
    assert_eq!(PersistenceService::backups_to_prune(&backups), vec!["unknown".to_string(), "b1".to_string()]);
    assert!(PersistenceService::backups_to_prune(&backups[..5].to_vec()).is_empty());
}
