//! Worktree reconciliation at startup: recorded worktrees are matched
//! against `git worktree list --porcelain` by canonical path; recorded ones
//! are marked present or missing and unrecorded ones unmanaged. Nothing is
//! deleted during reconciliation.

pub mod agent;
pub mod package;

use vstd::prelude::*;
use crate::paths::{byte_chars, canonical_bytes, is_normalized, lossy_text, utf8_lossy};
use crate::text::{
    chars_of, first_index_of, first_match, has_prefix, lemma_first_match_found, lines,
    split_lines, starts_with, suffix_from, strings_view,
};

verus! {

/// The reconciled state of a worktree.
#[derive(Debug, Clone, Copy, PartialEq, Eq, Structural)]
pub enum WorktreeReconcileState {
    Recorded,
    Present,
    Missing,
    Unmanaged,
    Orphaned,
}

/// The outcome of reconciling one worktree.
#[derive(Debug, Clone)]
pub struct WorktreeReconcileResult {
    pub path: String,
    pub branch: String,
    pub state: WorktreeReconcileState,
}

pub struct WorktreeResultView {
    pub path: Seq<char>,
    pub branch: Seq<char>,
    pub state: WorktreeReconcileState,
}

impl View for WorktreeReconcileResult {
    type V = WorktreeResultView;

    open spec fn view(&self) -> WorktreeResultView {
        WorktreeResultView { path: self.path@, branch: self.branch@, state: self.state }
    }
}

pub open spec fn results_view(s: Seq<WorktreeReconcileResult>) -> Seq<WorktreeResultView> {
    s.map_values(|r: WorktreeReconcileResult| r@)
}

pub open spec fn pairs_view(s: Seq<(String, String)>) -> Seq<(Seq<char>, Seq<char>)> {
    s.map_values(|p: (String, String)| (p.0@, p.1@))
}


// ---------------------------------------------------------------------------
// Porcelain parsing
// ---------------------------------------------------------------------------

/// State of the porcelain reader: the entries read so far, and the path
/// and branch of the entry being read.
pub struct PorcelainState {
    pub entries: Seq<(Seq<char>, Seq<char>)>,
    pub path: Option<Seq<char>>,
    pub branch: Option<Seq<char>>,
}

/// An entry with both a path and a branch is emitted; path and branch are
/// reset either way.
pub open spec fn flush_entry(st: PorcelainState) -> PorcelainState {
    PorcelainState {
        entries: match (st.path, st.branch) {
            (Some(p), Some(b)) => st.entries.push((p, b)),
            _ => st.entries,
        },
        path: None,
        branch: None,
    }
}

/// One porcelain line: a blank line ends an entry, `worktree <path>` sets
/// the path, `branch refs/heads/<name>` sets the branch; anything else
/// (such as `HEAD <sha>` or a detached head) is ignored.
pub open spec fn read_porcelain_line(st: PorcelainState, line: Seq<char>) -> PorcelainState {
    if line.len() == 0 {
        flush_entry(st)
    } else if has_prefix(line, "worktree "@) {
        PorcelainState {
            path: Some(line.subrange("worktree "@.len() as int, line.len() as int)),
            ..st
        }
    } else if has_prefix(line, "branch refs/heads/"@) {
        PorcelainState {
            branch: Some(line.subrange("branch refs/heads/"@.len() as int, line.len() as int)),
            ..st
        }
    } else {
        st
    }
}

pub open spec fn read_porcelain_lines(ls: Seq<Seq<char>>) -> PorcelainState
    decreases ls.len(),
{
    if ls.len() == 0 {
        PorcelainState { entries: seq![], path: None, branch: None }
    } else {
        read_porcelain_line(read_porcelain_lines(ls.drop_last()), ls.last())
    }
}

/// The `(path, branch)` entries of `git worktree list --porcelain` output.
pub open spec fn porcelain_entries(output: Seq<char>) -> Seq<(Seq<char>, Seq<char>)> {
    flush_entry(read_porcelain_lines(lines(output))).entries
}

// ---------------------------------------------------------------------------
// Reconciliation over canonical paths
// ---------------------------------------------------------------------------

/// The result for each recorded worktree: present with the branch of the
/// first actual worktree with the same canonical path, or missing with an
/// empty branch.
pub open spec fn recorded_results(
    recorded: Seq<Seq<char>>,
    recorded_canon: Seq<Seq<char>>,
    actual: Seq<(Seq<char>, Seq<char>)>,
    actual_canon: Seq<Seq<char>>,
) -> Seq<WorktreeResultView> {
    Seq::new(
        recorded.len(),
        |i: int|
            {
                let k = first_match(actual_canon, recorded_canon[i]);
                if k < actual_canon.len() {
                    WorktreeResultView {
                        path: recorded[i],
                        branch: actual[k].1,
                        state: WorktreeReconcileState::Present,
                    }
                } else {
                    WorktreeResultView {
                        path: recorded[i],
                        branch: seq![],
                        state: WorktreeReconcileState::Missing,
                    }
                }
            },
    )
}

/// The actual worktrees whose canonical path matches no recorded one, as
/// unmanaged results, in list order.
pub open spec fn unmanaged_results(
    recorded_canon: Seq<Seq<char>>,
    actual: Seq<(Seq<char>, Seq<char>)>,
    actual_canon: Seq<Seq<char>>,
) -> Seq<WorktreeResultView>
    decreases actual.len(),
{
    if actual.len() == 0 || actual_canon.len() < actual.len() {
        seq![]
    } else {
        let n = actual.len() - 1;
        let rest = unmanaged_results(recorded_canon, actual.drop_last(), actual_canon.subrange(0, n));
        if recorded_canon.contains(actual_canon[n]) {
            rest
        } else {
            rest.push(
                WorktreeResultView {
                    path: actual[n].0,
                    branch: actual[n].1,
                    state: WorktreeReconcileState::Unmanaged,
                },
            )
        }
    }
}

/// Reconciliation given the canonical form of every path.
pub open spec fn reconciled(
    recorded: Seq<Seq<char>>,
    recorded_canon: Seq<Seq<char>>,
    actual: Seq<(Seq<char>, Seq<char>)>,
    actual_canon: Seq<Seq<char>>,
) -> Seq<WorktreeResultView> {
    recorded_results(recorded, recorded_canon, actual, actual_canon) + unmanaged_results(
        recorded_canon,
        actual,
        actual_canon,
    )
}

/// Text read lossily from the bytes of a canonical path: a normalized
/// absolute path on disk, its invalid UTF-8 replaced.
pub open spec fn canonical_text(t: Seq<char>) -> bool {
    exists|b: Seq<u8>| is_normalized(byte_chars(b)) && t == #[trigger] utf8_lossy(b)
}

/// The canonical form of `p` on disk read lossily as text, or `p` itself
/// when it has none.
fn canonical_or_same(p: &str) -> (r: String)
    ensures
        r@ == p@ || canonical_text(r@),
{
    match canonical_bytes(p) {
        Some(c) => {
            let t = lossy_text(c.as_slice());
            assert(is_normalized(byte_chars(c@)) && t@ == utf8_lossy(c@));
            t
        },
        None => p.to_owned(),
    }
}

pub struct WorktreeReconciler;

impl WorktreeReconciler {
    /// Parses `git worktree list --porcelain` output into `(path, branch)`
    /// pairs; entries are separated by blank lines and an entry without a
    /// branch (a detached head) is skipped.
    pub fn parse_porcelain(&self, output: &str) -> (r: Vec<(String, String)>)
        ensures
            pairs_view(r@) == porcelain_entries(output@),
    {
        let chars = chars_of(output);
        let all = split_lines(chars.as_slice());
        let ghost ls = lines(output@);
        let wt = chars_of("worktree ");
        let br = chars_of("branch refs/heads/");
        let mut result: Vec<(String, String)> = Vec::new();
        let mut current_path: Option<String> = None;
        let mut current_branch: Option<String> = None;
        let mut i: usize = 0;
        assert(ls.subrange(0, 0) =~= Seq::<Seq<char>>::empty());
        while i < all.len()
            invariant
                all@.map_values(|l: Vec<char>| l@) == ls,
                ls == lines(output@),
                i <= all@.len(),
                wt@ == "worktree "@,
                br@ == "branch refs/heads/"@,
                ({
                    let st = read_porcelain_lines(ls.subrange(0, i as int));
                    &&& pairs_view(result@) == st.entries
                    &&& opt_view(current_path) == st.path
                    &&& opt_view(current_branch) == st.branch
                }),
            decreases all@.len() - i,
        {
            let line = &all[i];
            assert(line@ == ls[i as int]);
            assert(ls.subrange(0, i + 1).drop_last() =~= ls.subrange(0, i as int));
            if line.len() == 0 {
                let p = current_path.take();
                let b = current_branch.take();
                match (p, b) {
                    (Some(p), Some(b)) => {
                        let ghost before = pairs_view(result@);
                        result.push((p, b));
                        assert(pairs_view(result@) =~= before.push((p@, b@)));
                    },
                    _ => {},
                }
            } else if starts_with(line.as_slice(), wt.as_slice()) {
                current_path = Some(suffix_from(line.as_slice(), wt.len()));
            } else if starts_with(line.as_slice(), br.as_slice()) {
                current_branch = Some(suffix_from(line.as_slice(), br.len()));
            }
            i = i + 1;
        }
        assert(ls.subrange(0, i as int) =~= ls);
        match (current_path, current_branch) {
            (Some(p), Some(b)) => {
                let ghost before = pairs_view(result@);
                result.push((p, b));
                assert(pairs_view(result@) =~= before.push((p@, b@)));
            },
            _ => {},
        }
        result
    }

    /// Reconciles the recorded worktree paths against the actual worktree
    /// list. Paths are compared by their canonical form, which depends on
    /// the file system: each is the path itself (when it cannot be
    /// canonicalized) or a normalized absolute path read lossily as text
    /// (`canonical_text`). For the canonical forms found, the result is the
    /// one `reconcile_canonical` gives.
    pub fn reconcile(&self, recorded: &Vec<String>, actual: &Vec<(String, String)>) -> (r: Vec<
        WorktreeReconcileResult,
    >)
        ensures
            exists|rc: Seq<Seq<char>>, ac: Seq<Seq<char>>|
                {
                    &&& rc.len() == recorded@.len()
                    &&& ac.len() == actual@.len()
                    &&& forall|k: int|
                        0 <= k < rc.len() ==> #[trigger] rc[k] == recorded@[k]@ || canonical_text(rc[k])
                    &&& forall|k: int|
                        0 <= k < ac.len() ==> #[trigger] ac[k] == actual@[k].0@ || canonical_text(ac[k])
                    &&& #[trigger] results_view(r@) == reconciled(
                        strings_view(recorded@),
                        rc,
                        pairs_view(actual@),
                        ac,
                    )
                },
    {
        let mut recorded_canon: Vec<String> = Vec::new();
        let mut i: usize = 0;
        while i < recorded.len()
            invariant
                i <= recorded@.len(),
                recorded_canon@.len() == i,
                forall|k: int|
                    0 <= k < i ==> #[trigger] recorded_canon@[k]@ == recorded@[k]@ || canonical_text(recorded_canon@[k]@),
            decreases recorded.len() - i,
        {
            recorded_canon.push(canonical_or_same(recorded[i].as_str()));
            i = i + 1;
        }
        let mut actual_canon: Vec<String> = Vec::new();
        let mut j: usize = 0;
        while j < actual.len()
            invariant
                j <= actual@.len(),
                actual_canon@.len() == j,
                forall|k: int|
                    0 <= k < j ==> #[trigger] actual_canon@[k]@ == actual@[k].0@ || canonical_text(actual_canon@[k]@),
            decreases actual.len() - j,
        {
            actual_canon.push(canonical_or_same(actual[j].0.as_str()));
            j = j + 1;
        }
        let r = self.reconcile_canonical(recorded, &recorded_canon, actual, &actual_canon);
        let ghost rc = strings_view(recorded_canon@);
        let ghost ac = strings_view(actual_canon@);
        assert(rc.len() == recorded@.len());
        assert(ac.len() == actual@.len());
        assert(forall|k: int| 0 <= k < rc.len() ==> #[trigger] rc[k] == recorded_canon@[k]@);
        assert(forall|k: int| 0 <= k < ac.len() ==> #[trigger] ac[k] == actual_canon@[k]@);
        assert(results_view(r@) == reconciled(strings_view(recorded@), rc, pairs_view(actual@), ac));
        r
    }

    /// Reconciles recorded worktrees against the actual list, given the
    /// canonical form of each recorded path and of each actual path: each
    /// recorded worktree is present (with the branch of the first actual
    /// worktree with the same canonical path) or missing; each actual
    /// worktree whose canonical path matches no recorded one is unmanaged.
    pub fn reconcile_canonical(
        &self,
        recorded: &Vec<String>,
        recorded_canon: &Vec<String>,
        actual: &Vec<(String, String)>,
        actual_canon: &Vec<String>,
    ) -> (r: Vec<WorktreeReconcileResult>)
        requires
            recorded_canon@.len() == recorded@.len(),
            actual_canon@.len() == actual@.len(),
        ensures
            results_view(r@) == reconciled(
                strings_view(recorded@),
                strings_view(recorded_canon@),
                pairs_view(actual@),
                strings_view(actual_canon@),
            ),
    {
        let ghost rv = strings_view(recorded@);
        let ghost rcv = strings_view(recorded_canon@);
        let ghost av = pairs_view(actual@);
        let ghost acv = strings_view(actual_canon@);
        let mut results: Vec<WorktreeReconcileResult> = Vec::new();
        let mut i: usize = 0;
        while i < recorded.len()
            invariant
                i <= recorded@.len(),
                recorded_canon@.len() == recorded@.len(),
                actual_canon@.len() == actual@.len(),
                rv == strings_view(recorded@),
                rcv == strings_view(recorded_canon@),
                av == pairs_view(actual@),
                acv == strings_view(actual_canon@),
                results_view(results@) == recorded_results(rv, rcv, av, acv).subrange(0, i as int),
            decreases recorded.len() - i,
        {
            let k = first_index_of(actual_canon, &recorded_canon[i]);
            assert(rcv[i as int] == recorded_canon@[i as int]@);
            let ghost before = results_view(results@);
            let res = if k < actual_canon.len() {
                assert(av[k as int] == (actual@[k as int].0@, actual@[k as int].1@));
                WorktreeReconcileResult {
                    path: recorded[i].clone(),
                    branch: actual[k].1.clone(),
                    state: WorktreeReconcileState::Present,
                }
            } else {
                WorktreeReconcileResult {
                    path: recorded[i].clone(),
                    branch: String::new(),
                    state: WorktreeReconcileState::Missing,
                }
            };
            assert(rv[i as int] == recorded@[i as int]@);
            assert(recorded_results(rv, rcv, av, acv)[i as int] == res@);
            let ghost rres = res@;
            results.push(res);
            assert(results_view(results@) =~= before.push(rres));
            assert(results_view(results@) =~= recorded_results(rv, rcv, av, acv).subrange(
                0,
                i + 1,
            ));
            i = i + 1;
        }
        assert(recorded_results(rv, rcv, av, acv).subrange(0, i as int) =~= recorded_results(
            rv,
            rcv,
            av,
            acv,
        ));
        let ghost head = results_view(results@);
        let mut j: usize = 0;
        assert(av.subrange(0, 0) =~= Seq::<(Seq<char>, Seq<char>)>::empty());
        while j < actual.len()
            invariant
                j <= actual@.len(),
                actual_canon@.len() == actual@.len(),
                rcv == strings_view(recorded_canon@),
                av == pairs_view(actual@),
                acv == strings_view(actual_canon@),
                results_view(results@) == head + unmanaged_results(
                    rcv,
                    av.subrange(0, j as int),
                    acv.subrange(0, j as int),
                ),
            decreases actual.len() - j,
        {
            let known = first_index_of(recorded_canon, &actual_canon[j]) < recorded_canon.len();
            proof {
                let sub_a = av.subrange(0, j + 1);
                let sub_c = acv.subrange(0, j + 1);
                assert(sub_a.drop_last() =~= av.subrange(0, j as int));
                assert(sub_c.subrange(0, j as int) =~= acv.subrange(0, j as int));
                assert(sub_c[j as int] == actual_canon@[j as int]@);
                lemma_first_match_found(rcv, actual_canon@[j as int]@);
            }
            if !known {
                let ghost before = results_view(results@);
                let res = WorktreeReconcileResult {
                    path: actual[j].0.clone(),
                    branch: actual[j].1.clone(),
                    state: WorktreeReconcileState::Unmanaged,
                };
                results.push(res);
                assert(results_view(results@) =~= before.push(res@));
            }
            j = j + 1;
        }
        assert(av.subrange(0, j as int) =~= av);
        assert(acv.subrange(0, j as int) =~= acv);
        results
    }
}

pub open spec fn opt_view(o: Option<String>) -> Option<Seq<char>> {
    match o {
        Some(s) => Some(s@),
        None => None,
    }
}

} // verus!
