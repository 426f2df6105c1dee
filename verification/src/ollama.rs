//! Optional local helpers powered by Ollama: diff summaries, code
//! explanations, commit message drafts, light reviews and summaries of agent
//! output. When Ollama is unavailable nothing in the editor is blocked.

use vstd::prelude::*;

verus! {

#[derive(Debug, Clone, Copy, PartialEq, Eq, Structural)]
pub enum OllamaFeature {
    DiffSummary,
    CodeExplanation,
    CommitMessageDraft,
    LightweightReview,
    AgentOutputSummary,
}

/// A bounded request: one feature, one model, an explicit context.
#[derive(Debug, Clone)]
pub struct OllamaRequest {
    pub feature: OllamaFeature,
    pub model: String,
    pub context: String,
    pub max_tokens: usize,
}

#[derive(Debug, Clone)]
pub struct OllamaResponse {
    pub text: String,
    pub ok: bool,
}

pub struct OllamaClient {
    pub base_url: String,
    pub available: bool,
}

impl OllamaClient {
    /// A client for the server at `base_url`, not yet known to be available.
    pub fn new(base_url: &str) -> (r: Self)
        ensures
            r.base_url@ == base_url@,
            !r.available,
    {
        OllamaClient { base_url: base_url.to_owned(), available: false }
    }

    /// Whether the server is reported available; the client is unchanged.
    pub fn check_available(&mut self) -> (r: bool)
        ensures
            r == old(self).available,
            final(self).available == old(self).available,
            final(self).base_url@ == old(self).base_url@,
    {
        self.available
    }

    /// Runs a helper request. No generation backend is attached, so there is
    /// never a response, whether or not the server is available.
    pub fn run(&self, req: &OllamaRequest) -> (r: Option<OllamaResponse>)
        ensures
            r is None,
    {
        if !self.available {
            return None;
        }
        None
    }
}

impl Default for OllamaClient {
    /// A client for the default local server address.
    fn default() -> (r: Self)
        ensures
            r.base_url@ == "http://127.0.0.1:11434"@,
            !r.available,
    {
        Self::new("http://127.0.0.1:11434")
    }
}

} // verus!
