use ginger_code::agent::{
    AdapterId, AgentError, AgentMode, AgentStatus, AgentSupervisor, CreateAgentRequest,
    IsolationMode,
};
use ginger_code::agent_adapter::{
    AgentAdapterRegistry, AgentIsolation, AgentMode as AdapterMode, CustomAgentDef,
};

fn request(title: &str) -> CreateAgentRequest {
    CreateAgentRequest {
        adapter_id: AdapterId::Codex,
        title: title.to_string(),
        mode: AgentMode::Coding,
        isolation: IsolationMode::Worktree,
    }
}

#[test]
fn creation_is_capped_by_active_threads() {
    let mut s = AgentSupervisor::new(2);
    let a = s.create(request("a")).unwrap();
    let b = s.create(request("b")).unwrap();
    assert_eq!((a.id, b.id), (1, 2));
    assert_eq!(a.status, AgentStatus::Pending);
    assert_eq!(s.active_count(), 2);
    match s.create(request("c")) {
        Err(AgentError::MaxConcurrent(2)) => {}
        other => panic!("unexpected {other:?}"),
    }
    s.complete(1, true).unwrap();
    assert_eq!(s.active_count(), 1);
    let c = s.create(request("c")).unwrap();
    assert_eq!(c.id, 3);
}

#[test]
fn start_complete_and_remove_update_the_thread() {
    let mut s = AgentSupervisor::new(4);
    let t = s.create(request("fix bug")).unwrap();
    s.start(t.id, Some("/wt/1".to_string()), Some("agent/1".to_string()), Some("abc".to_string()), Some(7)).unwrap();
    let running = s.get(t.id).unwrap();
    assert_eq!(running.status, AgentStatus::Running);
    assert_eq!(running.worktree_path.as_deref(), Some("/wt/1"));
    assert_eq!(running.terminal_id, Some(7));
    assert!(running.started_at.unwrap().contains('T'));
    s.complete(t.id, false).unwrap();
    assert_eq!(s.get(t.id).unwrap().status, AgentStatus::Failed);
    assert!(s.get(t.id).unwrap().finished_at.is_some());
    assert_eq!(s.list().len(), 1);
    s.remove(t.id).unwrap();
    assert!(s.get(t.id).is_none());
    assert!(matches!(s.remove(t.id), Err(AgentError::NotFound(1))));
    assert!(matches!(s.start(9, None, None, None, None), Err(AgentError::NotFound(9))));
    assert!(matches!(s.complete(9, true), Err(AgentError::NotFound(9))));
}

#[test]
fn start_at_records_the_given_time() {
    let mut s = AgentSupervisor::new(1);
    let t = s.create(request("x")).unwrap();
    s.start_at(t.id, None, None, None, None, Some("2024-01-01T00:00:00+00:00".to_string())).unwrap();
    assert_eq!(s.get(t.id).unwrap().started_at.as_deref(), Some("2024-01-01T00:00:00+00:00"));
    s.complete_at(t.id, true, None).unwrap();
    assert_eq!(s.get(t.id).unwrap().status, AgentStatus::Completed);
}

#[test]
fn adapter_names_and_errors_render() {
    assert_eq!(AdapterId::Codex.to_text(), "codex");
    assert_eq!(AdapterId::Ollama.to_text(), "ollama");
    assert_eq!(AdapterId::Custom("aider".to_string()).to_text(), "custom:aider");
    assert_eq!(AgentError::MaxConcurrent(3).to_text(), "max concurrent agents reached (3)");
    assert_eq!(AgentError::NotFound(12).to_text(), "agent not found: 12");
    assert_eq!(AgentError::AdapterNotFound("x".to_string()).to_text(), "adapter not found: x");
    assert_eq!(AgentError::Inner("boom".to_string()).to_text(), "agent error: boom");
}

#[test]
fn registry_lists_builtins_then_customs() {
    let mut r = AgentAdapterRegistry::new();
    assert_eq!(r.descriptors().len(), 3);
    assert_eq!(r.descriptors()[1].id, "codex");
    assert_eq!(r.descriptors()[2].name, "OpenCode");
    let def = CustomAgentDef {
        id: "mine".to_string(),
        name: "Mine".to_string(),
        command: "mine-cli".to_string(),
        default_mode: AdapterMode::Review,
        default_isolation: AgentIsolation::Unisolated,
        args: vec!["--fast".to_string()],
        env: vec![],
        workdir_policy: "worktree".to_string(),
    };
    r.add_custom(def.clone());
    r.add_custom(def);
    let ds = r.descriptors();
    assert_eq!(ds.len(), 4);
    assert_eq!(ds[3].command_candidates, vec!["mine-cli".to_string()]);
    assert!(!ds[3].worktree_support);
    let found = r.detect(&vec![("mine-cli".to_string(), "/usr/bin/mine-cli".to_string())]);
    assert_eq!(found.len(), 4);
    assert!(!found[1].found);
    assert!(found[3].found);
    assert_eq!(found[3].path.as_deref(), Some("/usr/bin/mine-cli"));
}
