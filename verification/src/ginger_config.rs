//! The optional `.ginger/workspace.toml` of a project: verification
//! commands, recommended packages, agent templates and display metadata. It
//! cannot run startup commands, hold secrets or trigger destructive Git
//! operations.

use vstd::prelude::*;

verus! {

#[derive(Debug, Clone, Default)]
pub struct GingerWorkspaceConfig {
    pub verification: Option<VerificationConfig>,
    pub recommended_packages: Vec<String>,
    pub agent_templates: Vec<AgentTemplate>,
    pub display: Option<DisplayMetadata>,
}

#[derive(Debug, Clone, Default)]
pub struct VerificationConfig {
    pub commands: Vec<String>,
}

#[derive(Debug, Clone, Default)]
pub struct AgentTemplate {
    pub id: String,
    pub name: String,
    pub prompt: String,
}

#[derive(Debug, Clone, Default)]
pub struct DisplayMetadata {
    pub name: Option<String>,
    pub description: Option<String>,
}

} // verus!
