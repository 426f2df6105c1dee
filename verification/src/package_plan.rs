//! Trust levels of packages and the install plan shown before an install.

use vstd::prelude::*;

verus! {

/// The badge of a package. `Curated` means that Ginger owns the metadata and
/// install rules; it is no security certification.
#[derive(Debug, Clone, Copy, PartialEq, Eq, Structural)]
pub enum PackageTrust {
    Core,
    Curated,
    Community,
    Local,
}

/// One step of an install plan.
#[derive(Debug, Clone)]
pub struct InstallPlanItem {
    pub package_id: String,
    pub version: String,
    pub source: String,
    pub command: String,
    pub environment_changes: Vec<String>,
}

/// The steps of an install, and whether custom commands are shown
/// explicitly.
#[derive(Debug, Clone)]
pub struct InstallPlan {
    pub items: Vec<InstallPlanItem>,
    pub custom_commands_explicit: bool,
}

pub struct PackagePlanner;

impl PackagePlanner {
    /// The plan made of `items`, in order; the commands of custom installs
    /// are shown explicitly exactly when `has_custom` holds.
    pub fn plan(&self, items: Vec<InstallPlanItem>, has_custom: bool) -> (r: InstallPlan)
        ensures
            r.items@ == items@,
            r.custom_commands_explicit == has_custom,
    {
        InstallPlan { items, custom_commands_explicit: has_custom }
    }
}

} // verus!
