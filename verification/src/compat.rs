//! Version compatibility matrix: App, Runtime, DB schema, IPC protocol and
//! Catalog versions are compatible only as a known-good combination, never
//! inferred from semver; a mismatch reports each dimension that differs from
//! the baseline.

use vstd::prelude::*;
use crate::text::{decimal, i64_to_decimal, owned, push_str, u64_to_decimal};

verus! {

/// A combination of component versions.
#[derive(Debug, Clone)]
pub struct VersionSet {
    pub app: String,
    pub runtime: String,
    pub db_schema: i32,
    pub ipc_protocol: u32,
    pub catalog: String,
}

/// The outcome of a compatibility check.
#[derive(Debug, Clone)]
pub struct CompatibilityCheck {
    pub compatible: bool,
    pub mismatches: Vec<String>,
}

pub struct VersionSetView {
    pub app: Seq<char>,
    pub runtime: Seq<char>,
    pub db_schema: int,
    pub ipc_protocol: int,
    pub catalog: Seq<char>,
}

impl View for VersionSet {
    type V = VersionSetView;

    open spec fn view(&self) -> VersionSetView {
        VersionSetView {
            app: self.app@,
            runtime: self.runtime@,
            db_schema: self.db_schema as int,
            ipc_protocol: self.ipc_protocol as int,
            catalog: self.catalog@,
        }
    }
}

/// The baseline combination shipped with this release.
pub open spec fn baseline_set() -> VersionSetView {
    VersionSetView {
        app: "0.1.0"@,
        runtime: "0.1.0"@,
        db_schema: 1,
        ipc_protocol: 1,
        catalog: "baseline-1"@,
    }
}

/// One report line per dimension in which `set` differs from `base`, in the
/// order app, runtime, db_schema, ipc_protocol, catalog; each names the
/// dimension, then the checked value, ` != ` and the baseline value.
pub open spec fn mismatch_report(set: VersionSetView, base: VersionSetView) -> Seq<Seq<char>> {
    let a = if base.app != set.app {
        seq!["app: "@ + set.app + " != "@ + base.app]
    } else {
        seq![]
    };
    let r = if base.runtime != set.runtime {
        seq!["runtime: "@ + set.runtime + " != "@ + base.runtime]
    } else {
        seq![]
    };
    let d = if base.db_schema != set.db_schema {
        seq!["db_schema: "@ + decimal(set.db_schema) + " != "@ + decimal(base.db_schema)]
    } else {
        seq![]
    };
    let i = if base.ipc_protocol != set.ipc_protocol {
        seq!["ipc_protocol: "@ + decimal(set.ipc_protocol) + " != "@ + decimal(base.ipc_protocol)]
    } else {
        seq![]
    };
    let c = if base.catalog != set.catalog {
        seq!["catalog: "@ + set.catalog + " != "@ + base.catalog]
    } else {
        seq![]
    };
    a + r + d + i + c
}

/// `set` is one of the known-good combinations.
pub open spec fn is_known(known: Seq<VersionSetView>, set: VersionSetView) -> bool {
    exists|k: int| 0 <= k < known.len() && known[k] == set
}

/// Known-good version combinations. The first one is the baseline against
/// which mismatches are reported.
pub struct CompatibilityMatrix {
    known_sets: Vec<VersionSet>,
}

impl CompatibilityMatrix {
    #[verifier::type_invariant]
    spec fn has_baseline(self) -> bool {
        self.known_sets@.len() >= 1
    }

    /// The known-good combinations, baseline first.
    pub closed spec fn known(self) -> Seq<VersionSetView> {
        self.known_sets@.map_values(|v: VersionSet| v@)
    }

    /// A matrix whose only known-good combination is the baseline.
    pub fn new() -> (r: Self)
        ensures
            r.known() == seq![baseline_set()],
    {
        let base = VersionSet {
            app: owned("0.1.0"),
            runtime: owned("0.1.0"),
            db_schema: 1,
            ipc_protocol: 1,
            catalog: owned("baseline-1"),
        };
        let mut known_sets: Vec<VersionSet> = Vec::new();
        known_sets.push(base);
        let r = CompatibilityMatrix { known_sets };
        assert(r.known() =~= seq![baseline_set()]);
        r
    }

    /// Checks `set` against the known-good combinations. When it matches
    /// none, each dimension that differs from the baseline is reported.
    pub fn check(&self, set: &VersionSet) -> (r: CompatibilityCheck)
        ensures
            self.known().len() >= 1,
            r.compatible == is_known(self.known(), set@),
            r.mismatches@.map_values(|m: String| m@) == (if r.compatible {
                Seq::<Seq<char>>::empty()
            } else {
                mismatch_report(set@, self.known()[0])
            }),
    {
        proof {
            use_type_invariant(self);
        }
        let ghost known = self.known();
        let mut compatible = false;
        let mut k: usize = 0;
        while k < self.known_sets.len() && !compatible
            invariant
                k <= self.known_sets@.len(),
                known == self.known(),
                known == self.known_sets@.map_values(|v: VersionSet| v@),
                compatible ==> is_known(known, set@),
                !compatible ==> forall|j: int| 0 <= j < k ==> known[j] != set@,
            decreases self.known_sets.len() - k,
        {
            let row = &self.known_sets[k];
            if row.app == set.app && row.runtime == set.runtime && row.db_schema == set.db_schema
                && row.ipc_protocol == set.ipc_protocol && row.catalog == set.catalog {
                assert(known[k as int] == row@);
                assert(known[k as int] =~= set@);
                compatible = true;
            } else {
                assert(known[k as int] == row@);
            }
            k = k + 1;
        }
        let mut mismatches: Vec<String> = Vec::new();
        if !compatible {
            let base = &self.known_sets[0];
            assert(known[0] == base@);
            let ghost bv = base@;
            let ghost sv = set@;
            if base.app != set.app {
                let mut m = owned("app: ");
                push_str(&mut m, set.app.as_str());
                push_str(&mut m, " != ");
                push_str(&mut m, base.app.as_str());
                mismatches.push(m);
            }
            let ghost m1 = mismatches@.map_values(|m: String| m@);
            if base.runtime != set.runtime {
                let mut m = owned("runtime: ");
                push_str(&mut m, set.runtime.as_str());
                push_str(&mut m, " != ");
                push_str(&mut m, base.runtime.as_str());
                mismatches.push(m);
            }
            let ghost m2 = mismatches@.map_values(|m: String| m@);
            if base.db_schema != set.db_schema {
                let mut m = owned("db_schema: ");
                let a = i64_to_decimal(set.db_schema as i64);
                let b = i64_to_decimal(base.db_schema as i64);
                push_str(&mut m, a.as_str());
                push_str(&mut m, " != ");
                push_str(&mut m, b.as_str());
                mismatches.push(m);
            }
            let ghost m3 = mismatches@.map_values(|m: String| m@);
            if base.ipc_protocol != set.ipc_protocol {
                let mut m = owned("ipc_protocol: ");
                let a = u64_to_decimal(set.ipc_protocol as u64);
                let b = u64_to_decimal(base.ipc_protocol as u64);
                push_str(&mut m, a.as_str());
                push_str(&mut m, " != ");
                push_str(&mut m, b.as_str());
                mismatches.push(m);
            }
            let ghost m4 = mismatches@.map_values(|m: String| m@);
            if base.catalog != set.catalog {
                let mut m = owned("catalog: ");
                push_str(&mut m, set.catalog.as_str());
                push_str(&mut m, " != ");
                push_str(&mut m, base.catalog.as_str());
                mismatches.push(m);
            }
            proof {
                let rep = mismatch_report(sv, bv);
                assert(mismatches@.map_values(|m: String| m@) =~= rep);
            }
        } else {
            assert(mismatches@.map_values(|m: String| m@) =~= Seq::<Seq<char>>::empty());
        }
        CompatibilityCheck { compatible, mismatches }
    }
}

/// The baseline combination is always compatible.
pub proof fn baseline_is_compatible(m: CompatibilityMatrix)
    requires
        m.known() == seq![baseline_set()],
    ensures
        is_known(m.known(), baseline_set()),
{
    assert(m.known()[0] == baseline_set());
}

} // verus!
