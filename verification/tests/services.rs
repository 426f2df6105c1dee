use ginger_code::action::{core_actions, invocation_status, ActionCategory};
use ginger_code::apply::{ApplyLog, ApplyStrategy};
use ginger_code::cache::CacheManager;
use ginger_code::command_detect::{CommandDetector, CommandMarkers};
use ginger_code::correlation::{CorrelatedLogger, CorrelationId, CorrelationSequence};
use ginger_code::diagnostics::DiagnosticsService;
use ginger_code::error::{GingerError, GingerErrorCode};
use ginger_code::events::DomainEvent;
use ginger_code::flags::{FlagRegistry, FlagVisibility};
use ginger_code::jobs::{BackgroundJobKind, JobManager, JobStatus};
use ginger_code::language_servers::{
    check_capacity, check_message_size, install_root, managed_path, needs_tsserver_fallback,
    not_installed, server_ids, server_info, tsserver_path, MAX_MESSAGE,
};
use ginger_code::nameset::NameSet;
use ginger_code::ollama::{OllamaClient, OllamaFeature, OllamaRequest};
use ginger_code::presence::{GingerConfig, GingerPresence, GingerState, Personality};
use ginger_code::process::{ProcessCategory, ProcessSupervisor, SpawnRequest};
use ginger_code::review::{ReviewStatus, ReviewStore};
use ginger_code::settings::{SettingsSource, SettingsStore};
use ginger_code::stabilization::{all_e2e_tests, declared_modules, verify_wiring};
use ginger_code::timestamps::{compact_stamp_of, now_compact_stamp, now_rfc3339, rfc3339_of};
use ginger_code::detection::Capability;
use ginger_code::language_servers::check_workspace;
use ginger_code::agent_adapter::agent_command_candidates;

#[test]
fn correlation_ids_are_numbered_in_hex() {
    let mut seq = CorrelationSequence::new();
    let ids: Vec<String> = (0..11).map(|_| CorrelationId::new(&mut seq).as_str().to_string()).collect();
    assert_eq!(ids[0], "corr-1");
    assert_eq!(ids[9], "corr-a");
    assert_eq!(ids[10], "corr-b");
    let log = CorrelatedLogger::log(&CorrelationId("corr-7".to_string()), "info", "hello");
    assert_eq!((log.correlation_id.to_text().as_str(), log.level.as_str(), log.message.as_str()), ("corr-7", "info", "hello"));
    assert!(log.timestamp > 1_600_000_000);
}

#[test]
fn clock_renderings_have_their_shape() {
    let t = now_rfc3339().unwrap();
    assert!(t.ends_with("+00:00") && t.contains('T'));
    let s = now_compact_stamp().unwrap();
    assert_eq!(s.len(), 15);
    assert_eq!(s.as_bytes()[8], b'_');
    assert!(s.starts_with("20"));
}

#[test]
fn diagnostics_bundle_reports_versions() {
    let d = DiagnosticsService::new();
    assert_eq!((d.app_version.as_str(), d.catalog_version.as_str(), d.db_schema_version), ("0.1.0", "baseline-1", 1));
    let health = d.health(vec![("git".to_string(), true, "ok".to_string()), ("nvim".to_string(), false, "missing".to_string())]);
    assert_eq!(health.len(), 2);
    assert!(!health[1].ok);
    let b = d.bundle(health, vec!["codex".to_string()], vec![], false);
    assert_eq!(b.health[0].component, "git");
    assert_eq!(b.agent_detection, vec!["codex"]);
    assert!(b.generated_at > 0);
}

#[test]
fn workflows_and_wiring_are_listed() {
    let t = all_e2e_tests();
    assert_eq!(t.len(), 5);
    assert_eq!(t[1].id, "B");
    assert_eq!(t[3].slices_required, vec!["1", "3", "6", "13"]);
    let root = "mod action;\nmod editor;\nmod persistence;\n  pub mod platform;  \nmod presence;\n\nuse action::ActionRegistry;\nmod inline {\n";
    let declared = declared_modules(root);
    assert_eq!(declared, vec!["action", "editor", "persistence", "platform", "presence"]);
    let w = verify_wiring(&declared);
    assert_eq!(w.len(), 15);
    assert_eq!(w[0], "Module 'action' — declared and wired");
    assert_eq!(w[1], "Module 'agent' — missing from the crate root");
    assert_eq!(w[4], "Module 'editor' — declared and wired");
    assert_eq!(w[14], "Module 'workspace' — missing from the crate root");
    assert_eq!(w.iter().filter(|l| l.ends_with("missing from the crate root")).count(), 10);
}

#[test]
fn ollama_never_blocks() {
    let mut c = OllamaClient::new("http://localhost:11434");
    assert!(!c.check_available());
    c.available = true;
    let req = OllamaRequest { feature: OllamaFeature::DiffSummary, model: "m".to_string(), context: String::new(), max_tokens: 10 };
    assert!(c.run(&req).is_none());
    assert_eq!(OllamaClient::default().base_url, "http://127.0.0.1:11434");
}

#[test]
fn presence_defaults_and_updates() {
    let mut p = GingerPresence::new();
    assert_eq!(p.state(), GingerState::Idle);
    p.set_state(GingerState::Thinking);
    assert_eq!(p.state(), GingerState::Thinking);
    assert_eq!(p.config(), GingerConfig { personality: Personality::Standard, commentary: true });
    assert_eq!(GingerState::default(), GingerState::Idle);
}

#[test]
fn verification_commands_follow_markers() {
    let m = CommandMarkers {
        package_json: true,
        cargo_toml: true,
        go_mod: false,
        star_sln: false,
        star_csproj: true,
        pyproject_toml: false,
        requirements_txt: true,
        makefile: false,
        justfile: true,
    };
    let s = CommandDetector.detect(&m);
    let cmds: Vec<(&str, u32)> = s.iter().map(|c| (c.command.as_str(), c.confidence_percent)).collect();
    assert_eq!(
        cmds,
        vec![("npm test", 90), ("npm run build", 80), ("cargo test", 95), ("cargo build", 85), ("dotnet test", 85), ("pytest", 70), ("just test", 60)]
    );
}

#[test]
fn language_server_descriptions() {
    assert_eq!(server_ids(), vec!["typescript", "python", "rust", "json"]);
    let ts = server_info("typescript", None, "/h/.ginger/language-servers");
    assert!(!ts.available);
    assert_eq!(ts.executable, "typescript-language-server");
    assert_eq!(ts.install_program, "npm");
    assert_eq!(
        ts.install_args,
        vec!["install", "--prefix", "/h/.ginger/language-servers", "--no-audit", "--no-fund", "typescript@6.0.3", "typescript-language-server"]
    );
    let rust = server_info("rust", Some("/bin/rust-analyzer".to_string()), "/r");
    assert!(rust.available);
    assert_eq!(rust.install_program, "rustup");
    assert_eq!(rust.install_args, vec!["component", "add", "rust-analyzer", "rust-src"]);
    assert_eq!(install_root(Some("/h".to_string())).unwrap(), "/h/.ginger/language-servers");
    assert_eq!(install_root(None).unwrap_err(), "Home directory unavailable");
    assert_eq!(managed_path("/r", "pyright-langserver"), "/r/node_modules/.bin/pyright-langserver");
    assert_eq!(tsserver_path("/r"), "/r/node_modules/typescript/lib/tsserver.js");
    assert!(not_installed("gopls").starts_with("gopls is not installed."));
    assert!(check_capacity(3).is_ok());
    assert_eq!(check_capacity(4).unwrap_err(), "Maximum four language servers per workspace");
    assert!(check_message_size(MAX_MESSAGE).is_ok());
    assert!(check_message_size(MAX_MESSAGE + 1).is_err());
    assert!(needs_tsserver_fallback("typescript", Some("initialize")));
    assert!(!needs_tsserver_fallback("python", Some("initialize")));
    assert!(!needs_tsserver_fallback("typescript", None));
}

#[test]
fn errors_and_events_render_stable_text() {
    let e = GingerError::new(GingerErrorCode::AgentAtCapacity, "3 running");
    assert_eq!(e.code_str(), "GINGER_AGENT_AT_CAPACITY");
    assert_eq!(e.message(), "GINGER_AGENT_AT_CAPACITY: 3 running");
    assert_eq!(DomainEvent::WorkspaceClosed { workspace_id: 1 }.name(), "workspace.closed");
}

#[test]
fn flags_hide_internal_ones_in_release() {
    let mut f = FlagRegistry::new();
    f.register("a", true, FlagVisibility::Internal, "internal");
    f.register("b", false, FlagVisibility::Stable, "stable");
    assert!(f.is_enabled("a"));
    f.set("a", false);
    assert!(!f.is_enabled("a"));
    assert!(!f.is_enabled("missing"));
    assert_eq!(f.exposed(true).len(), 1);
    assert_eq!(f.exposed(false).len(), 2);
}

#[test]
fn cache_prune_keeps_referenced_artifacts() {
    let mut c = CacheManager::new();
    c.add("x", 10, true);
    c.add("y", 5, false);
    c.add("z", 1, false);
    assert_eq!(c.total_size(), 16);
    let mut removed = c.prune();
    removed.sort();
    assert_eq!(removed, vec!["y", "z"]);
    assert_eq!(c.list().len(), 1);
    assert_eq!(c.total_size(), 10);
}

#[test]
fn jobs_are_numbered_and_tracked() {
    let mut j = JobManager::new();
    let a = j.start(BackgroundJobKind::ProjectScan, true);
    let b = j.start(BackgroundJobKind::GitRefresh, false);
    assert_eq!((a.as_str(), b.as_str()), ("job-1", "job-2"));
    assert!(j.cancel(&a));
    assert_eq!(j.get(&a).unwrap().status, JobStatus::Cancelled);
    assert!(!j.cancel(&b));
    j.fail(&b, "boom");
    assert_eq!(j.get(&b).unwrap().status, JobStatus::Failed);
    assert_eq!(j.list().len(), 2);
}

#[test]
fn apply_log_lists_newest_first() {
    let mut log = ApplyLog::new();
    let first = log.record(1, None, "main", "a", "b", ApplyStrategy::Patch);
    let second = log.record(2, Some(5), "main", "b", "c", ApplyStrategy::Merge);
    assert_eq!((first, second), (1, 2));
    let list = log.list();
    assert_eq!(list.len(), 2);
    assert!(list[0].timestamp >= list[1].timestamp);
    assert_eq!(log.get(2).unwrap().task_id, Some(5));
    assert!(log.get(3).is_none());
}

#[test]
fn processes_with_abnormal_exits_are_flagged() {
    let mut s = ProcessSupervisor::new();
    let req = SpawnRequest { category: ProcessCategory::Agent, label: "agent".to_string(), command: "x".to_string(), args: vec![], cwd: None, env: vec![] };
    let id = s.register(&req, 42);
    s.mark_exit(id, Some(1));
    let info = s.get(id).unwrap();
    assert!(info.abnormal_exit);
    assert_eq!(info.exit_code, Some(1));
    assert_eq!(s.list().len(), 1);
}

#[test]
fn review_accepts_hunks_once() {
    let mut r = ReviewStore::new();
    let id = r.create(1, "base", "target", "fp");
    r.accept_hunk(id, "h1");
    r.accept_hunk(id, "h1");
    r.reject_hunk(id, "h2");
    r.set_status(id, ReviewStatus::Reviewing);
    let s = r.get(id).unwrap();
    assert_eq!(s.accepted_hunks, vec!["h1"]);
    assert_eq!(s.rejected_hunks, vec!["h2"]);
    assert_eq!(s.status, ReviewStatus::Reviewing);
    assert!(r.fingerprint_matches(id, "fp"));
    assert!(!r.fingerprint_matches(id, "other"));
}

#[test]
fn project_shared_settings_win() {
    let mut s = SettingsStore::new();
    s.set(SettingsSource::GlobalUser, "tab", "4");
    s.set(SettingsSource::ProjectShared, "tab", "2");
    let v = s.get("tab").unwrap();
    assert_eq!((v.value.as_str(), v.source), ("2", SettingsSource::ProjectShared));
    assert!(s.get("missing").is_none());
}

#[test]
fn name_sets_hold_each_name_once() {
    let mut n = NameSet::new();
    assert!(n.insert("a"));
    assert!(!n.insert("a"));
    assert!(n.contains("a"));
    n.remove("a");
    assert!(!n.contains("a"));
}

#[test]
fn core_actions_are_listed_in_registration_order() {
    let specs = core_actions();
    let ids: Vec<&str> = specs.iter().map(|a| a.id.as_str()).collect();
    assert_eq!(
        ids,
        vec![
            "file.open-folder",
            "file.save",
            "view.toggle-explorer",
            "view.toggle-agent-dock",
            "palette.open",
            "agent.new",
            "terminal.new",
            "git.status",
            "ginger.toggle-presence",
        ]
    );
    assert_eq!(specs[1].title, "Save");
    assert_eq!(specs[1].category, ActionCategory::File);
    assert_eq!(specs[1].keybinding.as_deref(), Some("cmd+s"));
    assert_eq!(specs[1].when.as_deref(), Some("editor.ready"));
    assert_eq!(specs[7].keybinding, None);
    assert_eq!(specs[8].category, ActionCategory::Ginger);
    assert_eq!(specs[8].when, None);
    assert_eq!(invocation_status("git.status"), "git.status invoked");
}

#[test]
fn instants_render_from_the_epoch() {
    assert_eq!(rfc3339_of(0, 0), Some("1970-01-01T00:00:00+00:00".to_string()));
    assert_eq!(compact_stamp_of(86_400, 0), Some("19700102_000000".to_string()));
    assert_eq!(rfc3339_of(u64::MAX, 0), None);
    assert_eq!(compact_stamp_of(9_223_372_036_854_775_808, 0), None);
}

#[test]
fn capability_names_are_stable_and_distinct() {
    assert_eq!(Capability::LanguageTypeScript.as_str(), "language.typescript");
    assert_eq!(Capability::PackageManagerPnpm.as_str(), "package-manager.pnpm");
    assert_ne!(Capability::LanguageGo.as_str(), Capability::PackageManagerGo.as_str());
    assert_ne!(Capability::TestCargo.as_str(), Capability::PackageManagerCargo.as_str());
}

#[test]
fn language_servers_start_only_for_the_open_workspace() {
    assert_eq!(check_workspace(None, "/w"), Err("Open a folder first".to_string()));
    assert_eq!(check_workspace(Some("/other"), "/w"), Err("Workspace changed".to_string()));
    assert_eq!(check_workspace(Some("/w"), "/w"), Ok(()));
}

#[test]
fn agent_commands_are_looked_up_on_path_then_in_install_locations() {
    let c = agent_command_candidates(Some("/bin:/usr/bin"), Some("/Users/me"), "codex");
    assert_eq!(
        c,
        vec![
            "/bin/codex",
            "/usr/bin/codex",
            "/opt/homebrew/bin/codex",
            "/usr/local/bin/codex",
            "/Users/me/.local/bin/codex",
        ]
    );
    assert_eq!(agent_command_candidates(None, None, "x"), vec!["/opt/homebrew/bin/x", "/usr/local/bin/x"]);
}

#[test]
fn settings_follow_the_history_of_set_calls() {
    let mut st = SettingsStore::new();
    st.set(SettingsSource::Defaults, "tab", "4");
    st.set(SettingsSource::GlobalUser, "tab", "2");
    st.set(SettingsSource::Defaults, "tab", "8");
    st.set(SettingsSource::Defaults, "font", "mono");
    st.set(SettingsSource::GlobalUser, "tab", "3");
    let v = st.get("tab").unwrap();
    assert_eq!((v.value.as_str(), v.source), ("3", SettingsSource::GlobalUser));
    let f = st.get("font").unwrap();
    assert_eq!((f.value.as_str(), f.source), ("mono", SettingsSource::Defaults));
    assert!(st.get("never").is_none());
    let eff = st.effective();
    assert_eq!(eff.len(), 2);
}
