//! The health screen and the exported diagnostics bundle: versions, health
//! checks, agent detection and crash markers, without source, secrets or raw
//! terminal logs.

use crate::clock::now;
use crate::text::owned;
use vstd::prelude::*;

verus! {

/// The outcome of one health check.
#[derive(Debug, Clone)]
pub struct HealthStatus {
    pub component: String,
    pub ok: bool,
    pub detail: String,
}

pub struct HealthStatusView {
    pub component: Seq<char>,
    pub ok: bool,
    pub detail: Seq<char>,
}

impl View for HealthStatus {
    type V = HealthStatusView;

    open spec fn view(&self) -> HealthStatusView {
        HealthStatusView { component: self.component@, ok: self.ok, detail: self.detail@ }
    }
}

pub open spec fn health_view(s: Seq<HealthStatus>) -> Seq<HealthStatusView> {
    s.map_values(|h: HealthStatus| h@)
}

pub open spec fn checks_view(s: Seq<(String, bool, String)>) -> Seq<HealthStatusView> {
    s.map_values(|c: (String, bool, String)| HealthStatusView { component: c.0@, ok: c.1, detail: c.2@ })
}

/// An exported diagnostics bundle.
#[derive(Debug, Clone)]
pub struct DiagnosticsBundle {
    pub app_version: String,
    pub runtime_version: String,
    pub db_schema_version: i32,
    pub ipc_protocol_version: u32,
    pub catalog_version: String,
    pub health: Vec<HealthStatus>,
    pub agent_detection: Vec<String>,
    pub crash_markers: Vec<String>,
    pub generated_at: u64,
}

/// The versions the bundles report.
pub struct DiagnosticsService {
    pub app_version: String,
    pub runtime_version: String,
    pub db_schema_version: i32,
    pub ipc_protocol_version: u32,
    pub catalog_version: String,
}

impl DiagnosticsService {
    /// The versions of this build: application and runtime 0.1.0, database
    /// schema 1, IPC protocol 1, catalog `baseline-1`.
    pub fn new() -> (r: Self)
        ensures
            r.app_version@ == "0.1.0"@,
            r.runtime_version@ == "0.1.0"@,
            r.db_schema_version == 1,
            r.ipc_protocol_version == 1,
            r.catalog_version@ == "baseline-1"@,
    {
        DiagnosticsService {
            app_version: owned("0.1.0"),
            runtime_version: owned("0.1.0"),
            db_schema_version: 1,
            ipc_protocol_version: 1,
            catalog_version: owned("baseline-1"),
        }
    }

    /// One health status per `(component, ok, detail)` check, in order.
    pub fn health(&self, checks: Vec<(String, bool, String)>) -> (r: Vec<HealthStatus>)
        ensures
            health_view(r@) == checks_view(checks@),
    {
        let mut out: Vec<HealthStatus> = Vec::new();
        let mut i: usize = 0;
        while i < checks.len()
            invariant
                i <= checks@.len(),
                health_view(out@) == checks_view(checks@.subrange(0, i as int)),
            decreases checks.len() - i,
        {
            let ghost prev = health_view(out@);
            let h = HealthStatus {
                component: checks[i].0.clone(),
                ok: checks[i].1,
                detail: checks[i].2.clone(),
            };
            let ghost hv = h@;
            out.push(h);
            assert(health_view(out@) =~= prev.push(hv));
            assert(checks_view(checks@.subrange(0, i + 1)) =~= checks_view(
                checks@.subrange(0, i as int),
            ).push(hv));
            i = i + 1;
        }
        assert(checks@.subrange(0, i as int) =~= checks@);
        out
    }

    /// The bundle of this build's versions with the given health, agent
    /// detection and crash markers, stamped with the current time. Raw
    /// terminal logs are never part of it.
    pub fn bundle(
        &self,
        health: Vec<HealthStatus>,
        agent_detection: Vec<String>,
        crash_markers: Vec<String>,
        include_pty_logs: bool,
    ) -> (r: DiagnosticsBundle)
        ensures
            r.app_version@ == self.app_version@,
            r.runtime_version@ == self.runtime_version@,
            r.db_schema_version == self.db_schema_version,
            r.ipc_protocol_version == self.ipc_protocol_version,
            r.catalog_version@ == self.catalog_version@,
            r.health@ == health@,
            r.agent_detection@ == agent_detection@,
            r.crash_markers@ == crash_markers@,
    {
        DiagnosticsBundle {
            app_version: self.app_version.clone(),
            runtime_version: self.runtime_version.clone(),
            db_schema_version: self.db_schema_version,
            ipc_protocol_version: self.ipc_protocol_version,
            catalog_version: self.catalog_version.clone(),
            health,
            agent_detection,
            crash_markers,
            generated_at: now(),
        }
    }
}

impl Default for DiagnosticsService {
    fn default() -> (r: Self)
        ensures
            r.app_version@ == "0.1.0"@,
            r.runtime_version@ == "0.1.0"@,
            r.db_schema_version == 1,
            r.ipc_protocol_version == 1,
            r.catalog_version@ == "baseline-1"@,
    {
        Self::new()
    }
}

} // verus!
