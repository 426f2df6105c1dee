//! The vocabulary of the action registry: categories of actions, the
//! context actions are enabled in, invocation errors, and the core actions
//! every editor registers.

use crate::text::{concat, owned};
use vstd::prelude::*;

verus! {

#[derive(Debug, Clone, Copy, PartialEq, Eq, Hash, Structural)]
pub enum ActionCategory {
    File,
    Edit,
    View,
    Git,
    Agent,
    Terminal,
    Package,
    Workspace,
    Settings,
    Ginger,
    Help,
}

/// What the enablement conditions of actions are evaluated against.
#[derive(Debug, Clone, Copy, PartialEq, Eq, Structural)]
pub struct ActionContext {
    pub workspace_open: bool,
    pub editor_ready: bool,
    pub agent_count: usize,
    pub terminal_count: usize,
    pub git_clean: bool,
    pub safe_mode: bool,
}

impl Default for ActionContext {
    /// Nothing open, nothing running.
    fn default() -> (r: Self)
        ensures
            !r.workspace_open && !r.editor_ready && r.agent_count == 0 && r.terminal_count == 0
                && !r.git_clean && !r.safe_mode,
    {
        ActionContext {
            workspace_open: false,
            editor_ready: false,
            agent_count: 0,
            terminal_count: 0,
            git_clean: false,
            safe_mode: false,
        }
    }
}

#[derive(Debug, Clone)]
pub enum ActionError {
    NotFound(String),
    ExecutionFailed(String),
}

/// The message of an error, as `Display` writes it.
pub open spec fn action_error_text(e: ActionError) -> Seq<char> {
    match e {
        ActionError::NotFound(s) => "action not found: "@ + s@,
        ActionError::ExecutionFailed(s) => "action execution failed: "@ + s@,
    }
}

impl ActionError {
    /// The error's message.
    pub fn to_text(&self) -> (r: String)
        ensures
            r@ == action_error_text(*self),
    {
        match self {
            ActionError::NotFound(s) => concat("action not found: ", s.as_str()),
            ActionError::ExecutionFailed(s) => concat("action execution failed: ", s.as_str()),
        }
    }
}

/// What the palette shows of an action: its id, title, category, key
/// binding and enablement condition.
#[derive(Debug, Clone)]
pub struct ActionSpec {
    pub id: String,
    pub title: String,
    pub category: ActionCategory,
    pub keybinding: Option<String>,
    pub when: Option<String>,
}

pub struct ActionSpecView {
    pub id: Seq<char>,
    pub title: Seq<char>,
    pub category: ActionCategory,
    pub keybinding: Option<Seq<char>>,
    pub when: Option<Seq<char>>,
}

pub open spec fn opt_text(o: Option<String>) -> Option<Seq<char>> {
    match o {
        Some(s) => Some(s@),
        None => None,
    }
}

pub open spec fn opt_str(o: Option<&str>) -> Option<Seq<char>> {
    match o {
        Some(s) => Some(s@),
        None => None,
    }
}

impl View for ActionSpec {
    type V = ActionSpecView;

    open spec fn view(&self) -> ActionSpecView {
        ActionSpecView {
            id: self.id@,
            title: self.title@,
            category: self.category,
            keybinding: opt_text(self.keybinding),
            when: opt_text(self.when),
        }
    }
}

pub open spec fn specs_view(s: Seq<ActionSpec>) -> Seq<ActionSpecView> {
    s.map_values(|a: ActionSpec| a@)
}

pub open spec fn core_spec(
    id: Seq<char>,
    title: Seq<char>,
    category: ActionCategory,
    keybinding: Option<Seq<char>>,
    when: Option<Seq<char>>,
) -> ActionSpecView {
    ActionSpecView { id, title, category, keybinding, when }
}

/// The core actions, in the order they are registered.
pub open spec fn core_action_table() -> Seq<ActionSpecView> {
    seq![
        core_spec("file.open-folder"@, "Open Folder"@, ActionCategory::File, Some("cmd+o"@), None),
        core_spec("file.save"@, "Save"@, ActionCategory::File, Some("cmd+s"@), Some("editor.ready"@)),
        core_spec(
            "view.toggle-explorer"@,
            "Toggle Explorer"@,
            ActionCategory::View,
            Some("cmd+shift+e"@),
            Some("workspace.open"@),
        ),
        core_spec(
            "view.toggle-agent-dock"@,
            "Toggle Agent Dock"@,
            ActionCategory::View,
            Some("cmd+shift+a"@),
            Some("workspace.open"@),
        ),
        core_spec("palette.open"@, "Open Command Palette"@, ActionCategory::View, Some("cmd+p"@), None),
        core_spec(
            "agent.new"@,
            "New Agent"@,
            ActionCategory::Agent,
            Some("cmd+shift+n"@),
            Some("workspace.open"@),
        ),
        core_spec(
            "terminal.new"@,
            "New Terminal"@,
            ActionCategory::Terminal,
            Some("cmd+shift+t"@),
            Some("workspace.open"@),
        ),
        core_spec("git.status"@, "Git Status"@, ActionCategory::Git, None, Some("workspace.open"@)),
        core_spec("ginger.toggle-presence"@, "Toggle Ginger Presence"@, ActionCategory::Ginger, None, None),
    ]
}

fn owned_opt(o: Option<&str>) -> (r: Option<String>)
    ensures
        opt_text(r) == opt_str(o),
{
    match o {
        Some(s) => Some(owned(s)),
        None => None,
    }
}

fn action_spec(
    id: &str,
    title: &str,
    category: ActionCategory,
    keybinding: Option<&str>,
    when: Option<&str>,
) -> (r: ActionSpec)
    ensures
        r@ == core_spec(id@, title@, category, opt_str(keybinding), opt_str(when)),
{
    ActionSpec {
        id: owned(id),
        title: owned(title),
        category,
        keybinding: owned_opt(keybinding),
        when: owned_opt(when),
    }
}

/// The core actions of the editor, in the order they are registered.
pub fn core_actions() -> (r: Vec<ActionSpec>)
    ensures
        specs_view(r@) == core_action_table(),
{
    let a0 = action_spec("file.open-folder", "Open Folder", ActionCategory::File, Some("cmd+o"), None);
    let a1 = action_spec("file.save", "Save", ActionCategory::File, Some("cmd+s"), Some("editor.ready"));
    let a2 = action_spec(
        "view.toggle-explorer",
        "Toggle Explorer",
        ActionCategory::View,
        Some("cmd+shift+e"),
        Some("workspace.open"),
    );
    let a3 = action_spec(
        "view.toggle-agent-dock",
        "Toggle Agent Dock",
        ActionCategory::View,
        Some("cmd+shift+a"),
        Some("workspace.open"),
    );
    let a4 = action_spec("palette.open", "Open Command Palette", ActionCategory::View, Some("cmd+p"), None);
    let a5 = action_spec(
        "agent.new",
        "New Agent",
        ActionCategory::Agent,
        Some("cmd+shift+n"),
        Some("workspace.open"),
    );
    let a6 = action_spec(
        "terminal.new",
        "New Terminal",
        ActionCategory::Terminal,
        Some("cmd+shift+t"),
        Some("workspace.open"),
    );
    let a7 = action_spec("git.status", "Git Status", ActionCategory::Git, None, Some("workspace.open"));
    let a8 = action_spec("ginger.toggle-presence", "Toggle Ginger Presence", ActionCategory::Ginger, None, None);
    let r = vec![a0, a1, a2, a3, a4, a5, a6, a7, a8];
    assert(specs_view(r@) =~= core_action_table());
    r
}

/// The status a core action's handler reports: its id, then " invoked".
pub fn invocation_status(id: &str) -> (r: String)
    ensures
        r@ == id@ + " invoked"@,
{
    concat(id, " invoked")
}

} // verus!
