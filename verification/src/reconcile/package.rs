//! Package reconciliation on workspace open: manifest and lock presence,
//! runtime compatibility and cache artifacts classify environment readiness,
//! and the optional gaps to repair are listed.

use vstd::prelude::*;
use crate::text::{copy_strings, owned, strings_view};

verus! {

/// Readiness of a workspace environment.
#[derive(Debug, Clone, Copy, PartialEq, Eq, Structural)]
pub enum EnvReadiness {
    Ready,
    Degraded,
    Missing,
}

/// The outcome of reconciling a workspace's packages.
#[derive(Debug, Clone)]
pub struct PackageReconcileResult {
    pub manifest_present: bool,
    pub lock_present: bool,
    pub runtime_compatible: bool,
    pub cache_artifacts_ok: bool,
    pub project_local_tools: Vec<String>,
    pub readiness: EnvReadiness,
    pub repair_needed: Vec<String>,
}

/// Readiness from the manifest, runtime and cache checks.
pub open spec fn readiness(manifest_present: bool, runtime_compatible: bool, cache_ok: bool)
    -> EnvReadiness
{
    if manifest_present && runtime_compatible && cache_ok {
        EnvReadiness::Ready
    } else if manifest_present {
        EnvReadiness::Degraded
    } else {
        EnvReadiness::Missing
    }
}

/// The gaps to repair, in the order lock, runtime, cache.
pub open spec fn repairs(lock_present: bool, runtime_compatible: bool, cache_ok: bool) -> Seq<
    Seq<char>,
> {
    (if !lock_present {
        seq!["lock"@]
    } else {
        seq![]
    }) + (if !runtime_compatible {
        seq!["runtime"@]
    } else {
        seq![]
    }) + (if !cache_ok {
        seq!["cache"@]
    } else {
        seq![]
    })
}

pub struct PackageReconciler;

impl PackageReconciler {
    /// Classifies environment readiness and lists the optional gaps.
    pub fn reconcile(
        &self,
        manifest_present: bool,
        lock_present: bool,
        runtime_compatible: bool,
        cache_artifacts_ok: bool,
        project_local_tools: &[String],
    ) -> (r: PackageReconcileResult)
        ensures
            r.manifest_present == manifest_present,
            r.lock_present == lock_present,
            r.runtime_compatible == runtime_compatible,
            r.cache_artifacts_ok == cache_artifacts_ok,
            strings_view(r.project_local_tools@) == strings_view(project_local_tools@),
            r.readiness == readiness(manifest_present, runtime_compatible, cache_artifacts_ok),
            strings_view(r.repair_needed@) == repairs(
                lock_present,
                runtime_compatible,
                cache_artifacts_ok,
            ),
    {
        let mut repair_needed: Vec<String> = Vec::new();
        if !lock_present {
            repair_needed.push(owned("lock"));
        }
        let ghost r1 = strings_view(repair_needed@);
        if !runtime_compatible {
            repair_needed.push(owned("runtime"));
        }
        let ghost r2 = strings_view(repair_needed@);
        if !cache_artifacts_ok {
            repair_needed.push(owned("cache"));
        }
        assert(strings_view(repair_needed@) =~= repairs(
            lock_present,
            runtime_compatible,
            cache_artifacts_ok,
        ));
        let readiness = if manifest_present && runtime_compatible && cache_artifacts_ok {
            EnvReadiness::Ready
        } else if manifest_present {
            EnvReadiness::Degraded
        } else {
            EnvReadiness::Missing
        };
        PackageReconcileResult {
            manifest_present,
            lock_present,
            runtime_compatible,
            cache_artifacts_ok,
            project_local_tools: copy_strings(project_local_tools),
            readiness,
            repair_needed,
        }
    }
}

/// An environment is ready exactly when nothing but possibly the lock needs
/// repair and the manifest is present.
pub proof fn ready_iff_no_runtime_or_cache_gap(
    manifest_present: bool,
    lock_present: bool,
    runtime_compatible: bool,
    cache_ok: bool,
)
    ensures
        (readiness(manifest_present, runtime_compatible, cache_ok) == EnvReadiness::Ready) <==> (
        manifest_present && !repairs(lock_present, runtime_compatible, cache_ok).contains(
            "runtime"@,
        ) && !repairs(lock_present, runtime_compatible, cache_ok).contains("cache"@)),
{
    reveal_strlit("lock");
    reveal_strlit("runtime");
    reveal_strlit("cache");
    let r = repairs(lock_present, runtime_compatible, cache_ok);
    if !runtime_compatible {
        assert(r.contains("runtime"@)) by {
            let k = if !lock_present { 1int } else { 0int };
            assert(r[k] == "runtime"@);
        }
    }
    if !cache_ok {
        assert(r.contains("cache"@)) by {
            let k = r.len() - 1;
            assert(r[k] == "cache"@);
        }
    }
    if runtime_compatible && cache_ok {
        assert forall|k: int| 0 <= k < r.len() implies r[k] != "runtime"@ && r[k] != "cache"@ by {
            assert(r[k] == "lock"@);
        }
    }
}

} // verus!
