//! The end-to-end workflows that tie the slices of the editor together, and
//! the wiring report of its modules.

use crate::text::{
    chars_of, concat3, has_prefix, lines, owned, owned_all, slice_chars, split_lines, starts_with,
    str_eq, string_of, strings_view, strs_view, trim, trim_chars,
};
use vstd::prelude::*;

verus! {

/// An end-to-end workflow and the slices it needs.
#[derive(Debug, Clone)]
pub struct E2ETest {
    pub id: String,
    pub name: String,
    pub description: String,
    pub slices_required: Vec<String>,
}

pub struct E2ETestView {
    pub id: Seq<char>,
    pub name: Seq<char>,
    pub description: Seq<char>,
    pub slices_required: Seq<Seq<char>>,
}

impl View for E2ETest {
    type V = E2ETestView;

    open spec fn view(&self) -> E2ETestView {
        E2ETestView {
            id: self.id@,
            name: self.name@,
            description: self.description@,
            slices_required: strings_view(self.slices_required@),
        }
    }
}

pub open spec fn tests_view(s: Seq<E2ETest>) -> Seq<E2ETestView> {
    s.map_values(|t: E2ETest| t@)
}

/// The workflows, in order.
pub open spec fn e2e_catalog() -> Seq<E2ETestView> {
    seq![
        E2ETestView {
            id: "A"@,
            name: "Open repo → edit/save with bundled Neovim"@,
            description: "Open a local Git repo, edit a file using bundled Neovim, save, verify file changed on disk."@,
            slices_required: seq!["1"@, "2"@, "3"@],
        },
        E2ETestView {
            id: "B"@,
            name: "Start agent → worktree → diff → apply"@,
            description: "Start a coding agent, worktree created, agent changes a file, view diff, apply approved work."@,
            slices_required: seq!["1"@, "4"@, "5"@, "6"@, "8"@],
        },
        E2ETestView {
            id: "C"@,
            name: "Two agents → distinct worktrees → primary tree isolated"@,
            description: "Start two coding agents concurrently, verify distinct worktrees, primary tree remains unaffected."@,
            slices_required: seq!["1"@, "5"@, "6"@],
        },
        E2ETestView {
            id: "D"@,
            name: "Crash with unapplied agent work → relaunch → recover"@,
            description: "Simulate crash with unapplied agent work in worktree, relaunch app, verify worktree preserved."@,
            slices_required: seq!["1"@, "3"@, "6"@, "13"@],
        },
        E2ETestView {
            id: "E"@,
            name: "Detect TypeScript project → recommendation → install → active"@,
            description: "Open a TypeScript project, detect capabilities, receive package recommendation, install, verify active."@,
            slices_required: seq!["1"@, "10"@, "11"@],
        },
    ]
}

fn workflow(id: &str, name: &str, description: &str, slices: &[&str]) -> (r: E2ETest)
    ensures
        r@ == (E2ETestView {
            id: id@,
            name: name@,
            description: description@,
            slices_required: strs_view(slices@),
        }),
{
    E2ETest {
        id: owned(id),
        name: owned(name),
        description: owned(description),
        slices_required: owned_all(slices),
    }
}

/// The end-to-end workflows of the editor.
pub fn all_e2e_tests() -> (r: Vec<E2ETest>)
    ensures
        tests_view(r@) == e2e_catalog(),
{
    let a = workflow(
        "A",
        "Open repo → edit/save with bundled Neovim",
        "Open a local Git repo, edit a file using bundled Neovim, save, verify file changed on disk.",
        &["1", "2", "3"],
    );
    let b = workflow(
        "B",
        "Start agent → worktree → diff → apply",
        "Start a coding agent, worktree created, agent changes a file, view diff, apply approved work.",
        &["1", "4", "5", "6", "8"],
    );
    let c = workflow(
        "C",
        "Two agents → distinct worktrees → primary tree isolated",
        "Start two coding agents concurrently, verify distinct worktrees, primary tree remains unaffected.",
        &["1", "5", "6"],
    );
    let d = workflow(
        "D",
        "Crash with unapplied agent work → relaunch → recover",
        "Simulate crash with unapplied agent work in worktree, relaunch app, verify worktree preserved.",
        &["1", "3", "6", "13"],
    );
    let e = workflow(
        "E",
        "Detect TypeScript project → recommendation → install → active",
        "Open a TypeScript project, detect capabilities, receive package recommendation, install, verify active.",
        &["1", "10", "11"],
    );
    assert(a@.slices_required =~= seq!["1"@, "2"@, "3"@]);
    assert(b@.slices_required =~= seq!["1"@, "4"@, "5"@, "6"@, "8"@]);
    assert(c@.slices_required =~= seq!["1"@, "5"@, "6"@]);
    assert(d@.slices_required =~= seq!["1"@, "3"@, "6"@, "13"@]);
    assert(e@.slices_required =~= seq!["1"@, "10"@, "11"@]);
    let r = vec![a, b, c, d, e];
    assert(tests_view(r@) =~= e2e_catalog());
    r
}

/// The modules whose wiring is reported.
pub open spec fn wired_modules() -> Seq<Seq<char>> {
    seq![
        "action"@, "agent"@, "detection"@, "diff"@, "editor"@, "git"@, "package"@,
        "packaging"@, "persistence"@, "platform"@, "presence"@, "recovery"@, "terminal"@,
        "verification"@, "workspace"@,
    ]
}

/// The module a line of a crate root declares, if it is a `mod` item
/// ending in `;` (`mod name;` or `pub mod name;`, surrounding whitespace
/// ignored).
pub open spec fn module_of_line(l: Seq<char>) -> Option<Seq<char>> {
    let t = trim(l);
    if t.len() > 0 && t.last() == ';' && has_prefix(t, "mod "@) {
        Some(t.subrange(4, t.len() - 1))
    } else if t.len() > 0 && t.last() == ';' && has_prefix(t, "pub mod "@) {
        Some(t.subrange(8, t.len() - 1))
    } else {
        None
    }
}

/// The modules declared by the lines `ls` of a crate root, in order.
pub open spec fn modules_of_lines(ls: Seq<Seq<char>>) -> Seq<Seq<char>>
    decreases ls.len(),
{
    if ls.len() == 0 {
        seq![]
    } else {
        modules_of_lines(ls.drop_last()) + match module_of_line(ls.last()) {
            Some(m) => seq![m],
            None => seq![],
        }
    }
}

fn module_of_line_exec(l: &[char], m: &[char], pm: &[char]) -> (r: Option<String>)
    requires
        m@ == "mod "@,
        pm@ == "pub mod "@,
    ensures
        r matches Some(x) ==> module_of_line(l@) == Some(x@),
        r is None ==> module_of_line(l@) is None,
{
    let t = trim_chars(l);
    let n = t.len();
    if n > 0 && t[n - 1] == ';' {
        if starts_with(t.as_slice(), m) {
            proof {
                reveal_strlit("mod ");
            }
            assert(t@.subrange(0, 4) =~= "mod "@);
            assert("mod "@[3] == ' ');
            assert(t@.subrange(0, 4)[3] == t@[3]);
            assert(t@.len() >= 5);
            return Some(string_of(slice_chars(t.as_slice(), 4, n - 1).as_slice()));
        } else if starts_with(t.as_slice(), pm) {
            proof {
                reveal_strlit("pub mod ");
            }
            assert(t@.subrange(0, 8) =~= "pub mod "@);
            assert("pub mod "@[7] == ' ');
            assert(t@.subrange(0, 8)[7] == t@[7]);
            assert(t@.len() >= 9);
            return Some(string_of(slice_chars(t.as_slice(), 8, n - 1).as_slice()));
        }
    }
    None
}

/// The modules a crate root declares, read from its text.
pub fn declared_modules(lib_rs: &str) -> (r: Vec<String>)
    ensures
        strings_view(r@) == modules_of_lines(lines(lib_rs@)),
{
    let cs = chars_of(lib_rs);
    let ls = split_lines(cs.as_slice());
    let ghost lv = ls@.map_values(|l: Vec<char>| l@);
    let m = chars_of("mod ");
    let pm = chars_of("pub mod ");
    let mut out: Vec<String> = Vec::new();
    let mut i: usize = 0;
    assert(lv.subrange(0, 0) =~= Seq::<Seq<char>>::empty());
    while i < ls.len()
        invariant
            i <= ls@.len(),
            lv == ls@.map_values(|l: Vec<char>| l@),
            lv == lines(lib_rs@),
            m@ == "mod "@,
            pm@ == "pub mod "@,
            strings_view(out@) == modules_of_lines(lv.subrange(0, i as int)),
        decreases ls.len() - i,
    {
        assert(lv.subrange(0, i + 1).drop_last() =~= lv.subrange(0, i as int));
        assert(lv.subrange(0, i + 1).last() == ls@[i as int]@);
        let ghost prev = strings_view(out@);
        match module_of_line_exec(ls[i].as_slice(), m.as_slice(), pm.as_slice()) {
            Some(x) => {
                let ghost xv = x@;
                out.push(x);
                assert(strings_view(out@) =~= prev + seq![xv]);
            },
            None => {
                assert(strings_view(out@) =~= prev + Seq::<Seq<char>>::empty());
            },
        }
        i = i + 1;
    }
    assert(lv.subrange(0, i as int) =~= lv);
    out
}

/// The line reporting on module `m` when the crate root declares
/// `declared`: wired when it is declared, missing otherwise.
pub open spec fn wiring_line(m: Seq<char>, declared: Seq<Seq<char>>) -> Seq<char> {
    if declared.contains(m) {
        "Module '"@ + m + "' — declared and wired"@
    } else {
        "Module '"@ + m + "' — missing from the crate root"@
    }
}

pub open spec fn wiring_lines(ms: Seq<Seq<char>>, declared: Seq<Seq<char>>) -> Seq<Seq<char>> {
    ms.map_values(|m: Seq<char>| wiring_line(m, declared))
}

/// Whether `m` is among `declared`.
fn is_declared(m: &str, declared: &[String]) -> (r: bool)
    ensures
        r == strings_view(declared@).contains(m@),
{
    let ghost dv = strings_view(declared@);
    let mut i: usize = 0;
    while i < declared.len()
        invariant
            i <= declared@.len(),
            dv == strings_view(declared@),
            forall|j: int| 0 <= j < i ==> dv[j] != m@,
        decreases declared.len() - i,
    {
        if str_eq(declared[i].as_str(), m) {
            assert(dv[i as int] == m@);
            return true;
        }
        i = i + 1;
    }
    proof {
        if dv.contains(m@) {
            let j = choose|j: int| 0 <= j < dv.len() && dv[j] == m@;
            assert(dv[j] != m@);
        }
    }
    false
}

/// The wiring of the crate root that declares the modules `declared`: one
/// line per required module, in order, saying whether it is declared.
pub fn verify_wiring(declared: &[String]) -> (r: Vec<String>)
    ensures
        strings_view(r@) == wiring_lines(wired_modules(), strings_view(declared@)),
{
    let required: [&str; 15] = [
        "action", "agent", "detection", "diff", "editor", "git", "package", "packaging",
        "persistence", "platform", "presence", "recovery", "terminal", "verification",
        "workspace",
    ];
    let ghost names = strs_view(required@);
    let ghost dv = strings_view(declared@);
    assert(names =~= wired_modules());
    let mut issues: Vec<String> = Vec::new();
    let mut i: usize = 0;
    while i < required.len()
        invariant
            i <= 15,
            names == strs_view(required@),
            dv == strings_view(declared@),
            strings_view(issues@) == wiring_lines(names.subrange(0, i as int), dv),
        decreases 15 - i,
    {
        let ghost prev = strings_view(issues@);
        let m = required[i];
        let line = if is_declared(m, declared) {
            concat3("Module '", m, "' — declared and wired")
        } else {
            concat3("Module '", m, "' — missing from the crate root")
        };
        issues.push(line);
        assert(names[i as int] == m@);
        assert(strings_view(issues@) =~= prev.push(wiring_line(m@, dv)));
        assert(wiring_lines(names.subrange(0, i + 1), dv) =~= wiring_lines(
            names.subrange(0, i as int),
            dv,
        ).push(wiring_line(m@, dv)));
        i = i + 1;
    }
    assert(names.subrange(0, 15) =~= names);
    issues
}

} // verus!
