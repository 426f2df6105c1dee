//! Ginger's presence: the mascot's current state and its personality
//! settings.

use vstd::prelude::*;

verus! {

#[derive(Debug, Clone, Copy, PartialEq, Eq, Structural)]
pub enum GingerState {
    Idle,
    Listening,
    Thinking,
    Coding,
    Testing,
    Reviewing,
    Success,
    Warning,
    Failure,
}

impl Default for GingerState {
    /// Ginger starts idle.
    fn default() -> (r: Self)
        ensures
            r == GingerState::Idle,
    {
        GingerState::Idle
    }
}

#[derive(Debug, Clone, Copy, PartialEq, Eq, Structural)]
pub enum Personality {
    Standard,
    Quiet,
    Extra,
}

#[derive(Debug, Clone, Copy, PartialEq, Eq, Structural)]
pub struct GingerConfig {
    pub personality: Personality,
    pub commentary: bool,
}

impl Default for GingerConfig {
    /// The standard personality with commentary on.
    fn default() -> (r: Self)
        ensures
            r.personality == Personality::Standard,
            r.commentary,
    {
        GingerConfig { personality: Personality::Standard, commentary: true }
    }
}

/// Ginger's state and configuration.
pub struct GingerPresence {
    state: GingerState,
    config: GingerConfig,
}

impl GingerPresence {
    pub closed spec fn current(self) -> GingerState {
        self.state
    }

    pub closed spec fn settings(self) -> GingerConfig {
        self.config
    }

    /// An idle Ginger with the default configuration.
    pub fn new() -> (r: Self)
        ensures
            r.current() == GingerState::Idle,
            r.settings().personality == Personality::Standard,
            r.settings().commentary,
    {
        GingerPresence {
            state: GingerState::Idle,
            config: GingerConfig { personality: Personality::Standard, commentary: true },
        }
    }

    pub fn state(&self) -> (r: GingerState)
        ensures
            r == self.current(),
    {
        self.state
    }

    /// Sets the state; the configuration is unchanged.
    pub fn set_state(&mut self, s: GingerState)
        ensures
            final(self).current() == s,
            final(self).settings() == old(self).settings(),
    {
        self.state = s;
    }

    pub fn config(&self) -> (r: GingerConfig)
        ensures
            r == self.settings(),
    {
        self.config
    }
}

impl Default for GingerPresence {
    fn default() -> (r: Self)
        ensures
            r.current() == GingerState::Idle,
            r.settings().personality == Personality::Standard,
            r.settings().commentary,
    {
        Self::new()
    }
}

} // verus!
