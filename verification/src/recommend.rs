//! Package recommendations from deterministic project evidence: each
//! detected capability maps to at most one package, and only packages the
//! catalog knows are recommended.

use crate::text::{owned, str_eq, strings_view};
use vstd::prelude::*;

verus! {

#[derive(Debug, Clone, Copy, PartialEq, Eq, Structural)]
pub enum RecommendationState {
    New,
    Shown,
    Installed,
    Ignored,
    Dismissed,
}

/// A package chosen for the capability at `capability_index` of the
/// evidence, with its state.
#[derive(Debug, Clone)]
pub struct RecommendationCandidate {
    pub capability_index: usize,
    pub package_id: String,
    pub state: RecommendationState,
}

pub struct CandidateView {
    pub capability_index: nat,
    pub package_id: Seq<char>,
    pub state: RecommendationState,
}

impl View for RecommendationCandidate {
    type V = CandidateView;

    open spec fn view(&self) -> CandidateView {
        CandidateView {
            capability_index: self.capability_index as nat,
            package_id: self.package_id@,
            state: self.state,
        }
    }
}

pub open spec fn candidates_view(s: Seq<RecommendationCandidate>) -> Seq<CandidateView> {
    s.map_values(|c: RecommendationCandidate| c@)
}

/// The package a capability maps to, if any.
pub open spec fn package_for(cap: Seq<char>) -> Option<Seq<char>> {
    if cap == "typescript"@ || cap == "react"@ {
        Some("typescript-language-server"@)
    } else if cap == "rust"@ {
        Some("rust-analyzer"@)
    } else if cap == "python"@ {
        Some("pyright"@)
    } else if cap == "go"@ {
        Some("gopls"@)
    } else if cap == "lua"@ {
        Some("lua-language-server"@)
    } else if cap == "prettier"@ {
        Some("prettier"@)
    } else if cap == "eslint"@ {
        Some("eslint"@)
    } else {
        None
    }
}

/// The candidates for the capabilities `caps[..n]`, in order: a capability
/// with a package the catalog knows yields it, `Installed` when it is
/// installed and `New` otherwise.
pub open spec fn candidates_for(
    caps: Seq<Seq<char>>,
    known: Seq<Seq<char>>,
    installed: Seq<Seq<char>>,
) -> Seq<CandidateView>
    decreases caps.len(),
{
    if caps.len() == 0 {
        seq![]
    } else {
        let rest = candidates_for(caps.drop_last(), known, installed);
        match package_for(caps.last()) {
            Some(p) => if known.contains(p) {
                rest.push(
                    CandidateView {
                        capability_index: (caps.len() - 1) as nat,
                        package_id: p,
                        state: if installed.contains(p) {
                            RecommendationState::Installed
                        } else {
                            RecommendationState::New
                        },
                    },
                )
            } else {
                rest
            },
            None => rest,
        }
    }
}

fn package_for_exec(cap: &str) -> (r: Option<&'static str>)
    ensures
        match r {
            Some(p) => package_for(cap@) == Some(p@),
            None => package_for(cap@) is None,
        },
{
    if str_eq(cap, "typescript") || str_eq(cap, "react") {
        Some("typescript-language-server")
    } else if str_eq(cap, "rust") {
        Some("rust-analyzer")
    } else if str_eq(cap, "python") {
        Some("pyright")
    } else if str_eq(cap, "go") {
        Some("gopls")
    } else if str_eq(cap, "lua") {
        Some("lua-language-server")
    } else if str_eq(cap, "prettier") {
        Some("prettier")
    } else if str_eq(cap, "eslint") {
        Some("eslint")
    } else {
        None
    }
}

fn contains_str(v: &[String], s: &str) -> (r: bool)
    ensures
        r == strings_view(v@).contains(s@),
{
    let mut i: usize = 0;
    while i < v.len()
        invariant
            i <= v@.len(),
            forall|j: int| 0 <= j < i ==> v@[j]@ != s@,
        decreases v.len() - i,
    {
        if str_eq(v[i].as_str(), s) {
            assert(strings_view(v@)[i as int] == s@);
            return true;
        }
        i = i + 1;
    }
    proof {
        if strings_view(v@).contains(s@) {
            let k = choose|k: int| 0 <= k < strings_view(v@).len() && strings_view(v@)[k] == s@;
            assert(v@[k]@ == s@);
        }
    }
    false
}

pub struct RecommendationEngine;

impl RecommendationEngine {
    /// The packages recommended for the capabilities named `capabilities`,
    /// in order, before they are ranked by confidence.
    pub fn candidates(&self, capabilities: &[String], known_package_ids: &[String], installed: &[String]) -> (r: Vec<RecommendationCandidate>)
        ensures
            candidates_view(r@) == candidates_for(
                strings_view(capabilities@),
                strings_view(known_package_ids@),
                strings_view(installed@),
            ),
    {
        let ghost caps = strings_view(capabilities@);
        let ghost known = strings_view(known_package_ids@);
        let ghost inst = strings_view(installed@);
        let mut out: Vec<RecommendationCandidate> = Vec::new();
        let mut i: usize = 0;
        while i < capabilities.len()
            invariant
                i <= capabilities@.len(),
                caps == strings_view(capabilities@),
                known == strings_view(known_package_ids@),
                inst == strings_view(installed@),
                candidates_view(out@) == candidates_for(caps.subrange(0, i as int), known, inst),
            decreases capabilities.len() - i,
        {
            let ghost sub = caps.subrange(0, i + 1);
            assert(sub.drop_last() =~= caps.subrange(0, i as int));
            assert(sub.last() == capabilities@[i as int]@);
            let ghost prev = candidates_view(out@);
            match package_for_exec(capabilities[i].as_str()) {
                Some(p) => {
                    if contains_str(known_package_ids, p) {
                        let state = if contains_str(installed, p) {
                            RecommendationState::Installed
                        } else {
                            RecommendationState::New
                        };
                        let c = RecommendationCandidate {
                            capability_index: i,
                            package_id: owned(p),
                            state,
                        };
                        let ghost cv = c@;
                        out.push(c);
                        assert(candidates_view(out@) =~= prev.push(cv));
                    }
                },
                None => {},
            }
            i = i + 1;
        }
        assert(caps.subrange(0, i as int) =~= caps);
        out
    }
}

/// Every candidate names a package the catalog knows.
pub proof fn candidates_are_known(caps: Seq<Seq<char>>, known: Seq<Seq<char>>, installed: Seq<Seq<char>>)
    ensures
        forall|i: int|
            0 <= i < candidates_for(caps, known, installed).len() ==> known.contains(
                #[trigger] candidates_for(caps, known, installed)[i].package_id,
            ),
    decreases caps.len(),
{
    if caps.len() > 0 {
        candidates_are_known(caps.drop_last(), known, installed);
    }
}


/// The state a recommended package starts in: installed or new.
pub open spec fn install_state(installed: Seq<Seq<char>>, p: Seq<char>) -> RecommendationState {
    if installed.contains(p) {
        RecommendationState::Installed
    } else {
        RecommendationState::New
    }
}

proof fn lemma_candidate_at(caps: Seq<Seq<char>>, known: Seq<Seq<char>>, installed: Seq<Seq<char>>, i: int)
    requires
        0 <= i < caps.len(),
    ensures
        (package_for(caps[i]) matches Some(p) && known.contains(p)) ==> candidates_for(caps, known, installed).contains(
            CandidateView { capability_index: i as nat, package_id: package_for(caps[i])->0, state: install_state(installed, package_for(caps[i])->0) },
        ),
        forall|k: int|
            0 <= k < candidates_for(caps, known, installed).len() ==> (#[trigger] candidates_for(caps, known, installed)[k]).capability_index < caps.len(),
        forall|k: int|
            0 <= k < candidates_for(caps, known, installed).len() && (#[trigger] candidates_for(caps, known, installed)[k]).capability_index == i
                ==> package_for(caps[i]) == Some(candidates_for(caps, known, installed)[k].package_id),
    decreases caps.len(),
{
    let c = candidates_for(caps, known, installed);
    let init = caps.drop_last();
    let rest = candidates_for(init, known, installed);
    let n = caps.len() - 1;
    if i < n {
        assert(init[i] == caps[i]);
        lemma_candidate_at(init, known, installed, i);
    } else if n > 0 {
        lemma_candidate_at(init, known, installed, n - 1);
    }
    assert forall|k: int| 0 <= k < rest.len() implies (#[trigger] rest[k]).capability_index < n by {
        if n > 0 {
            lemma_candidate_at(init, known, installed, 0);
        }
    }
    assert forall|k: int| 0 <= k < c.len() implies (#[trigger] c[k]) == (if k < rest.len() {
        rest[k]
    } else {
        CandidateView { capability_index: n as nat, package_id: package_for(caps[n])->0, state: install_state(installed, package_for(caps[n])->0) }
    }) by {}
    if (package_for(caps[i]) matches Some(p) && known.contains(p)) {
        if i == n {
            assert(c[rest.len() as int] == CandidateView { capability_index: i as nat, package_id: package_for(caps[i])->0, state: install_state(installed, package_for(caps[i])->0) });
        } else {
            let k = choose|k: int| 0 <= k < rest.len() && rest[k] == CandidateView { capability_index: i as nat, package_id: package_for(caps[i])->0, state: install_state(installed, package_for(caps[i])->0) };
            assert(c[k] == rest[k]);
        }
    }
    assert forall|k: int|
        0 <= k < c.len() && (#[trigger] c[k]).capability_index == i implies package_for(caps[i]) == Some(c[k].package_id) by {
        if k < rest.len() {
            assert(rest[k].capability_index < n);
            assert(init[i] == caps[i]);
        }
    }
}

/// Each capability leads to its language server or tool when the catalog
/// knows it: TypeScript and React to typescript-language-server, Rust to
/// rust-analyzer, Python to pyright, Go to gopls, Lua to
/// lua-language-server, Prettier to prettier and ESLint to eslint, each
/// installed or new as the installed list says; any other capability leads
/// to nothing.
pub proof fn capabilities_map_to_their_packages(
    caps: Seq<Seq<char>>,
    known: Seq<Seq<char>>,
    installed: Seq<Seq<char>>,
    i: int,
)
    requires
        0 <= i < caps.len(),
    ensures
        caps[i] == "typescript"@ && known.contains("typescript-language-server"@) ==> candidates_for(caps, known, installed).contains(
            CandidateView { capability_index: i as nat, package_id: "typescript-language-server"@, state: install_state(installed, "typescript-language-server"@) },
        ),
        caps[i] == "react"@ && known.contains("typescript-language-server"@) ==> candidates_for(caps, known, installed).contains(
            CandidateView { capability_index: i as nat, package_id: "typescript-language-server"@, state: install_state(installed, "typescript-language-server"@) },
        ),
        caps[i] == "rust"@ && known.contains("rust-analyzer"@) ==> candidates_for(caps, known, installed).contains(
            CandidateView { capability_index: i as nat, package_id: "rust-analyzer"@, state: install_state(installed, "rust-analyzer"@) },
        ),
        caps[i] == "python"@ && known.contains("pyright"@) ==> candidates_for(caps, known, installed).contains(
            CandidateView { capability_index: i as nat, package_id: "pyright"@, state: install_state(installed, "pyright"@) },
        ),
        caps[i] == "go"@ && known.contains("gopls"@) ==> candidates_for(caps, known, installed).contains(
            CandidateView { capability_index: i as nat, package_id: "gopls"@, state: install_state(installed, "gopls"@) },
        ),
        caps[i] == "lua"@ && known.contains("lua-language-server"@) ==> candidates_for(caps, known, installed).contains(
            CandidateView { capability_index: i as nat, package_id: "lua-language-server"@, state: install_state(installed, "lua-language-server"@) },
        ),
        caps[i] == "prettier"@ && known.contains("prettier"@) ==> candidates_for(caps, known, installed).contains(
            CandidateView { capability_index: i as nat, package_id: "prettier"@, state: install_state(installed, "prettier"@) },
        ),
        caps[i] == "eslint"@ && known.contains("eslint"@) ==> candidates_for(caps, known, installed).contains(
            CandidateView { capability_index: i as nat, package_id: "eslint"@, state: install_state(installed, "eslint"@) },
        ),
        caps[i] != "typescript"@ && caps[i] != "react"@ && caps[i] != "rust"@ && caps[i] != "python"@ && caps[i] != "go"@ && caps[i] != "lua"@ && caps[i] != "prettier"@ && caps[i] != "eslint"@ ==> forall|k: int|
            0 <= k < candidates_for(caps, known, installed).len() ==> (#[trigger] candidates_for(caps, known, installed)[k]).capability_index != i,
{
    reveal_strlit("typescript");
    reveal_strlit("react");
    reveal_strlit("rust");
    reveal_strlit("python");
    reveal_strlit("go");
    reveal_strlit("lua");
    reveal_strlit("prettier");
    reveal_strlit("eslint");
    assert("typescript"@.len() == 10);
    assert("react"@.len() == 5);
    assert("rust"@.len() == 4);
    assert("python"@.len() == 6);
    assert("go"@.len() == 2);
    assert("lua"@.len() == 3);
    assert("prettier"@.len() == 8);
    assert("eslint"@.len() == 6);
    assert("eslint"@[0] != "python"@[0]);
    assert(package_for("typescript"@) == Some("typescript-language-server"@));
    assert(package_for("react"@) == Some("typescript-language-server"@));
    assert(package_for("rust"@) == Some("rust-analyzer"@));
    assert(package_for("python"@) == Some("pyright"@));
    assert(package_for("go"@) == Some("gopls"@));
    assert(package_for("lua"@) == Some("lua-language-server"@));
    assert(package_for("prettier"@) == Some("prettier"@));
    assert(package_for("eslint"@) == Some("eslint"@));
    lemma_candidate_at(caps, known, installed, i);
}


/// Candidates come in the order of their capabilities, at most one per
/// capability.
pub proof fn candidates_follow_capability_order(
    caps: Seq<Seq<char>>,
    known: Seq<Seq<char>>,
    installed: Seq<Seq<char>>,
)
    ensures
        forall|a: int, b: int|
            0 <= a < b < candidates_for(caps, known, installed).len() ==> (#[trigger] candidates_for(
                caps,
                known,
                installed,
            )[a]).capability_index < (#[trigger] candidates_for(caps, known, installed)[b]).capability_index,
    decreases caps.len(),
{
    if caps.len() > 0 {
        let init = caps.drop_last();
        let n = init.len() as int;
        candidates_follow_capability_order(init, known, installed);
        let rest = candidates_for(init, known, installed);
        let c = candidates_for(caps, known, installed);
        if n > 0 {
            lemma_candidate_at(init, known, installed, 0);
        }
        assert forall|a: int, b: int| 0 <= a < b < c.len() implies (#[trigger] c[a]).capability_index
            < (#[trigger] c[b]).capability_index by {
            assert(c[a] == rest[a]);
            if b < rest.len() {
                assert(c[b] == rest[b]);
            } else {
                assert(c[b].capability_index == n);
            }
        }
    }
}

} // verus!
