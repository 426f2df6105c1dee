//! Keybinding conflict detection: a proposed global shortcut is checked
//! against existing Ginger mappings, reserved macOS shortcuts and known
//! Neovim defaults, case-insensitively. Warnings never block an intentional
//! override.

use vstd::prelude::*;
use crate::text::{lowercase, owned, str_eq, strings_view, to_lowercase};

verus! {

/// Where a conflicting mapping comes from.
#[derive(Debug, Clone, Copy, PartialEq, Eq, Structural)]
pub enum ConflictKind {
    Ginger,
    MacOSReserved,
    Neovim,
}

/// A conflict found for a proposed keybinding.
#[derive(Debug, Clone)]
pub struct KeybindingConflict {
    pub kind: ConflictKind,
    pub existing: String,
    pub note: String,
}

pub struct KeybindingConflictView {
    pub kind: ConflictKind,
    pub existing: Seq<char>,
    pub note: Seq<char>,
}

impl View for KeybindingConflict {
    type V = KeybindingConflictView;

    open spec fn view(&self) -> KeybindingConflictView {
        KeybindingConflictView { kind: self.kind, existing: self.existing@, note: self.note@ }
    }
}

pub open spec fn conflicts_view(s: Seq<KeybindingConflict>) -> Seq<KeybindingConflictView> {
    s.map_values(|c: KeybindingConflict| c@)
}

/// Reserved macOS system shortcuts, in lowercase.
pub open spec fn macos_reserved() -> Seq<Seq<char>> {
    seq!["cmd+space"@, "cmd+tab"@, "cmd+q"@, "cmd+h"@, "cmd+m"@, "cmd+w"@, "cmd+`"@]
}

/// Known Neovim default mappings, in lowercase.
pub open spec fn neovim_defaults() -> Seq<Seq<char>> {
    seq!["ctrl+w"@, "ctrl+n"@, "ctrl+o"@, "ctrl+i"@, "ctrl+["@, "ctrl+v"@]
}

/// The conflicts of `keybinding`, whose lowercase form is `lower`, given the
/// lowercase forms of the existing Ginger keybindings: a Ginger duplicate,
/// then a macOS reservation, then a Neovim default, each when it applies.
pub open spec fn conflicts(keybinding: Seq<char>, lower: Seq<char>, existing_lower: Seq<Seq<char>>)
    -> Seq<KeybindingConflictView>
{
    (if existing_lower.contains(lower) {
        seq![
            KeybindingConflictView {
                kind: ConflictKind::Ginger,
                existing: keybinding,
                note: "Already assigned to another Ginger action"@,
            },
        ]
    } else {
        seq![]
    }) + (if macos_reserved().contains(lower) {
        seq![
            KeybindingConflictView {
                kind: ConflictKind::MacOSReserved,
                existing: lower,
                note: "Reserved by macOS system shortcuts"@,
            },
        ]
    } else {
        seq![]
    }) + (if neovim_defaults().contains(lower) {
        seq![
            KeybindingConflictView {
                kind: ConflictKind::Neovim,
                existing: lower,
                note: "Known Neovim default mapping"@,
            },
        ]
    } else {
        seq![]
    })
}

fn is_macos_reserved(s: &str) -> (r: bool)
    ensures
        r == macos_reserved().contains(s@),
{
    let r = str_eq(s, "cmd+space") || str_eq(s, "cmd+tab") || str_eq(s, "cmd+q") || str_eq(
        s,
        "cmd+h",
    ) || str_eq(s, "cmd+m") || str_eq(s, "cmd+w") || str_eq(s, "cmd+`");
    proof {
        let l = macos_reserved();
        if r {
            assert(l[0] == "cmd+space"@ && l[1] == "cmd+tab"@ && l[2] == "cmd+q"@ && l[3]
                == "cmd+h"@ && l[4] == "cmd+m"@ && l[5] == "cmd+w"@ && l[6] == "cmd+`"@);
        } else {
            assert forall|k: int| 0 <= k < l.len() implies l[k] != s@ by {}
        }
    }
    r
}

fn is_neovim_default(s: &str) -> (r: bool)
    ensures
        r == neovim_defaults().contains(s@),
{
    let r = str_eq(s, "ctrl+w") || str_eq(s, "ctrl+n") || str_eq(s, "ctrl+o") || str_eq(
        s,
        "ctrl+i",
    ) || str_eq(s, "ctrl+[") || str_eq(s, "ctrl+v");
    proof {
        let l = neovim_defaults();
        if r {
            assert(l[0] == "ctrl+w"@ && l[1] == "ctrl+n"@ && l[2] == "ctrl+o"@ && l[3]
                == "ctrl+i"@ && l[4] == "ctrl+["@ && l[5] == "ctrl+v"@);
        } else {
            assert forall|k: int| 0 <= k < l.len() implies l[k] != s@ by {}
        }
    }
    r
}

pub struct KeybindingChecker;

impl KeybindingChecker {
    /// Checks a proposed keybinding for conflicts, comparing lowercase forms
    /// (as `str::to_lowercase` gives them) with the existing Ginger
    /// keybindings, the reserved macOS shortcuts and the Neovim defaults.
    pub fn check(&self, keybinding: &str, existing_ginger: &[String]) -> (r: Vec<
        KeybindingConflict,
    >)
        ensures
            conflicts_view(r@) == conflicts(
                keybinding@,
                lowercase(keybinding@),
                strings_view(existing_ginger@).map_values(|s: Seq<char>| lowercase(s)),
            ),
    {
        let lower = to_lowercase(keybinding);
        let mut existing_lower: Vec<String> = Vec::new();
        let mut i: usize = 0;
        while i < existing_ginger.len()
            invariant
                i <= existing_ginger@.len(),
                existing_lower@.len() == i,
                forall|j: int|
                    0 <= j < i ==> #[trigger] existing_lower@[j]@ == lowercase(
                        existing_ginger@[j]@,
                    ),
            decreases existing_ginger.len() - i,
        {
            existing_lower.push(to_lowercase(existing_ginger[i].as_str()));
            i = i + 1;
        }
        assert(strings_view(existing_lower@) =~= strings_view(existing_ginger@).map_values(
            |s: Seq<char>| lowercase(s),
        ));
        self.check_lowered(keybinding, lower.as_str(), &existing_lower)
    }

    /// The conflicts of `keybinding` given its lowercase form `lower` and
    /// the lowercase forms of the existing Ginger keybindings.
    pub fn check_lowered(&self, keybinding: &str, lower: &str, existing_lower: &Vec<String>) -> (r:
        Vec<KeybindingConflict>)
        ensures
            conflicts_view(r@) == conflicts(keybinding@, lower@, strings_view(existing_lower@)),
    {
        let ghost ev = strings_view(existing_lower@);
        let mut conflicts_found: Vec<KeybindingConflict> = Vec::new();
        let lower_owned = owned(lower);
        let mut dup = false;
        let mut i: usize = 0;
        while i < existing_lower.len() && !dup
            invariant
                i <= existing_lower@.len(),
                ev == strings_view(existing_lower@),
                lower_owned@ == lower@,
                dup ==> ev.contains(lower@),
                !dup ==> forall|j: int| 0 <= j < i ==> ev[j] != lower@,
            decreases existing_lower.len() - i,
        {
            assert(ev[i as int] == existing_lower@[i as int]@);
            if existing_lower[i] == lower_owned {
                dup = true;
            }
            i = i + 1;
        }
        if dup {
            conflicts_found.push(
                KeybindingConflict {
                    kind: ConflictKind::Ginger,
                    existing: owned(keybinding),
                    note: owned("Already assigned to another Ginger action"),
                },
            );
        }
        let ghost c1 = conflicts_view(conflicts_found@);
        if is_macos_reserved(lower) {
            conflicts_found.push(
                KeybindingConflict {
                    kind: ConflictKind::MacOSReserved,
                    existing: owned(lower),
                    note: owned("Reserved by macOS system shortcuts"),
                },
            );
        }
        let ghost c2 = conflicts_view(conflicts_found@);
        if is_neovim_default(lower) {
            conflicts_found.push(
                KeybindingConflict {
                    kind: ConflictKind::Neovim,
                    existing: owned(lower),
                    note: owned("Known Neovim default mapping"),
                },
            );
        }
        assert(conflicts_view(conflicts_found@) =~= conflicts(keybinding@, lower@, ev));
        conflicts_found
    }
}

/// A binding whose lowercase form is a reserved macOS shortcut always
/// reports a macOS conflict, whatever the Ginger mappings.
pub proof fn reserved_always_reported(
    keybinding: Seq<char>,
    lower: Seq<char>,
    existing_lower: Seq<Seq<char>>,
)
    requires
        macos_reserved().contains(lower),
    ensures
        exists|k: int|
            0 <= k < conflicts(keybinding, lower, existing_lower).len() && conflicts(
                keybinding,
                lower,
                existing_lower,
            )[k].kind == ConflictKind::MacOSReserved,
{
    let c = conflicts(keybinding, lower, existing_lower);
    let k = if existing_lower.contains(lower) {
        1int
    } else {
        0int
    };
    assert(c[k].kind == ConflictKind::MacOSReserved);
}

/// A binding that matches no Ginger mapping, no reserved macOS shortcut and
/// no Neovim default has no conflict.
pub proof fn clean_binding_has_no_conflict(
    keybinding: Seq<char>,
    lower: Seq<char>,
    existing_lower: Seq<Seq<char>>,
)
    requires
        !existing_lower.contains(lower),
        !macos_reserved().contains(lower),
        !neovim_defaults().contains(lower),
    ensures
        conflicts(keybinding, lower, existing_lower).len() == 0,
{
}


/// `check` reports a reserved macOS shortcut exactly for the seven system
/// shortcuts Cmd+Space, Cmd+Tab, Cmd+Q, Cmd+H, Cmd+M, Cmd+W and Cmd+`,
/// in any case: the conflict names the lowercase shortcut and says it is
/// reserved by macOS, whatever the existing Ginger keybindings.
pub proof fn macos_shortcuts_are_reserved(keybinding: Seq<char>, existing: Seq<Seq<char>>)
    ensures
        ({
            let lower = lowercase(keybinding);
            let r = conflicts(keybinding, lower, existing.map_values(|s: Seq<char>| lowercase(s)));
            &&& (exists|k: int| 0 <= k < r.len() && (#[trigger] r[k]).kind == ConflictKind::MacOSReserved)
                <==> (lower == "cmd+space"@ || lower == "cmd+tab"@ || lower == "cmd+q"@ || lower
                == "cmd+h"@ || lower == "cmd+m"@ || lower == "cmd+w"@ || lower == "cmd+`"@)
            &&& forall|k: int|
                0 <= k < r.len() && (#[trigger] r[k]).kind == ConflictKind::MacOSReserved ==> r[k].existing
                    == lower && r[k].note == "Reserved by macOS system shortcuts"@
        }),
{
    let lower = lowercase(keybinding);
    let ex = existing.map_values(|s: Seq<char>| lowercase(s));
    let r = conflicts(keybinding, lower, ex);
    let l = macos_reserved();
    assert(l[0] == "cmd+space"@ && l[1] == "cmd+tab"@ && l[2] == "cmd+q"@ && l[3] == "cmd+h"@
        && l[4] == "cmd+m"@ && l[5] == "cmd+w"@ && l[6] == "cmd+`"@);
    let a: Seq<KeybindingConflictView> = if ex.contains(lower) {
        seq![
            KeybindingConflictView {
                kind: ConflictKind::Ginger,
                existing: keybinding,
                note: "Already assigned to another Ginger action"@,
            },
        ]
    } else {
        seq![]
    };
    let m: Seq<KeybindingConflictView> = if l.contains(lower) {
        seq![
            KeybindingConflictView {
                kind: ConflictKind::MacOSReserved,
                existing: lower,
                note: "Reserved by macOS system shortcuts"@,
            },
        ]
    } else {
        seq![]
    };
    let n: Seq<KeybindingConflictView> = if neovim_defaults().contains(lower) {
        seq![
            KeybindingConflictView {
                kind: ConflictKind::Neovim,
                existing: lower,
                note: "Known Neovim default mapping"@,
            },
        ]
    } else {
        seq![]
    };
    assert(r == a + m + n);
    assert forall|k: int| 0 <= k < r.len() && (#[trigger] r[k]).kind == ConflictKind::MacOSReserved
        implies k == a.len() && l.contains(lower) && r[k] == m[0] by {
        if k < a.len() {
            assert(r[k] == a[k]);
        } else if k < a.len() + m.len() {
            assert(r[k] == m[k - a.len()]);
        } else {
            assert(r[k] == n[k - a.len() - m.len()]);
        }
    }
    if l.contains(lower) {
        assert(r[a.len() as int] == m[0]);
    }
    if lower == "cmd+space"@ || lower == "cmd+tab"@ || lower == "cmd+q"@ || lower == "cmd+h"@
        || lower == "cmd+m"@ || lower == "cmd+w"@ || lower == "cmd+`"@ {
        assert(l.contains(lower));
    }
}


/// The conflicts `check` gives, as three optional parts in order.
proof fn lemma_conflict_parts(keybinding: Seq<char>, lower: Seq<char>, ex: Seq<Seq<char>>)
    ensures
        ({
            let r = conflicts(keybinding, lower, ex);
            &&& forall|k: int|
                0 <= k < r.len() && (#[trigger] r[k]).kind == ConflictKind::Ginger ==> ex.contains(lower)
                    && r[k].existing == keybinding && r[k].note
                    == "Already assigned to another Ginger action"@
            &&& forall|k: int|
                0 <= k < r.len() && (#[trigger] r[k]).kind == ConflictKind::Neovim ==> neovim_defaults().contains(lower)
                    && r[k].existing == lower && r[k].note == "Known Neovim default mapping"@
            &&& ex.contains(lower) ==> r[0].kind == ConflictKind::Ginger && 0 < r.len()
            &&& neovim_defaults().contains(lower) ==> 0 < r.len() && r[r.len() - 1].kind
                == ConflictKind::Neovim
            &&& r.len() <= 3
        }),
{
    let r = conflicts(keybinding, lower, ex);
    let a: Seq<KeybindingConflictView> = if ex.contains(lower) {
        seq![
            KeybindingConflictView {
                kind: ConflictKind::Ginger,
                existing: keybinding,
                note: "Already assigned to another Ginger action"@,
            },
        ]
    } else {
        seq![]
    };
    let m: Seq<KeybindingConflictView> = if macos_reserved().contains(lower) {
        seq![
            KeybindingConflictView {
                kind: ConflictKind::MacOSReserved,
                existing: lower,
                note: "Reserved by macOS system shortcuts"@,
            },
        ]
    } else {
        seq![]
    };
    let n: Seq<KeybindingConflictView> = if neovim_defaults().contains(lower) {
        seq![
            KeybindingConflictView {
                kind: ConflictKind::Neovim,
                existing: lower,
                note: "Known Neovim default mapping"@,
            },
        ]
    } else {
        seq![]
    };
    assert(r == a + m + n);
    assert forall|k: int| 0 <= k < r.len() implies (#[trigger] r[k]) == (if k < a.len() {
        a[k]
    } else if k < a.len() + m.len() {
        m[k - a.len()]
    } else {
        n[k - a.len() - m.len()]
    }) by {}
}

/// `check` reports a known Neovim default exactly for Ctrl+W, Ctrl+N,
/// Ctrl+O, Ctrl+I, Ctrl+[ and Ctrl+V, in any case, and a Ginger conflict
/// exactly when an existing Ginger keybinding is the same up to case; a
/// binding with none of the three conflicts reports nothing.
pub proof fn neovim_and_ginger_conflicts(keybinding: Seq<char>, existing: Seq<Seq<char>>)
    ensures
        ({
            let lower = lowercase(keybinding);
            let r = conflicts(keybinding, lower, existing.map_values(|s: Seq<char>| lowercase(s)));
            &&& (exists|k: int| 0 <= k < r.len() && (#[trigger] r[k]).kind == ConflictKind::Neovim)
                <==> (lower == "ctrl+w"@ || lower == "ctrl+n"@ || lower == "ctrl+o"@ || lower
                == "ctrl+i"@ || lower == "ctrl+["@ || lower == "ctrl+v"@)
            &&& (exists|k: int| 0 <= k < r.len() && (#[trigger] r[k]).kind == ConflictKind::Ginger)
                <==> (exists|j: int| 0 <= j < existing.len() && lowercase(#[trigger] existing[j]) == lower)
            &&& forall|k: int|
                0 <= k < r.len() && (#[trigger] r[k]).kind == ConflictKind::Neovim ==> r[k].existing
                    == lower && r[k].note == "Known Neovim default mapping"@
            &&& forall|k: int|
                0 <= k < r.len() && (#[trigger] r[k]).kind == ConflictKind::Ginger ==> r[k].existing
                    == keybinding && r[k].note == "Already assigned to another Ginger action"@
        }),
{
    let lower = lowercase(keybinding);
    let ex = existing.map_values(|s: Seq<char>| lowercase(s));
    let r = conflicts(keybinding, lower, ex);
    lemma_conflict_parts(keybinding, lower, ex);
    let l = neovim_defaults();
    assert(l[0] == "ctrl+w"@ && l[1] == "ctrl+n"@ && l[2] == "ctrl+o"@ && l[3] == "ctrl+i"@
        && l[4] == "ctrl+["@ && l[5] == "ctrl+v"@);
    if lower == "ctrl+w"@ || lower == "ctrl+n"@ || lower == "ctrl+o"@ || lower == "ctrl+i"@
        || lower == "ctrl+["@ || lower == "ctrl+v"@ {
        assert(l.contains(lower));
        assert(r[r.len() - 1].kind == ConflictKind::Neovim);
    }
    if exists|j: int| 0 <= j < existing.len() && lowercase(#[trigger] existing[j]) == lower {
        let j = choose|j: int| 0 <= j < existing.len() && lowercase(#[trigger] existing[j]) == lower;
        assert(ex[j] == lower);
        assert(r[0].kind == ConflictKind::Ginger);
    }
    if ex.contains(lower) {
        let j = choose|j: int| 0 <= j < ex.len() && ex[j] == lower;
        assert(lowercase(existing[j]) == lower);
    }
}


/// `check` lists each kind of conflict at most once, in the order Ginger,
/// macOS, Neovim.
pub proof fn conflicts_come_in_order(keybinding: Seq<char>, existing: Seq<Seq<char>>)
    ensures
        ({
            let r = conflicts(
                keybinding,
                lowercase(keybinding),
                existing.map_values(|s: Seq<char>| lowercase(s)),
            );
            &&& r.len() <= 3
            &&& forall|a: int, b: int|
                0 <= a < b < r.len() ==> ((#[trigger] r[a]).kind == ConflictKind::Ginger && (#[trigger] r[b]).kind
                    != ConflictKind::Ginger) || (r[a].kind == ConflictKind::MacOSReserved && r[b].kind
                    == ConflictKind::Neovim)
        }),
{
    let lower = lowercase(keybinding);
    let ex = existing.map_values(|s: Seq<char>| lowercase(s));
    let r = conflicts(keybinding, lower, ex);
    let a: Seq<KeybindingConflictView> = if ex.contains(lower) {
        seq![
            KeybindingConflictView {
                kind: ConflictKind::Ginger,
                existing: keybinding,
                note: "Already assigned to another Ginger action"@,
            },
        ]
    } else {
        seq![]
    };
    let m: Seq<KeybindingConflictView> = if macos_reserved().contains(lower) {
        seq![
            KeybindingConflictView {
                kind: ConflictKind::MacOSReserved,
                existing: lower,
                note: "Reserved by macOS system shortcuts"@,
            },
        ]
    } else {
        seq![]
    };
    let n: Seq<KeybindingConflictView> = if neovim_defaults().contains(lower) {
        seq![
            KeybindingConflictView {
                kind: ConflictKind::Neovim,
                existing: lower,
                note: "Known Neovim default mapping"@,
            },
        ]
    } else {
        seq![]
    };
    assert(r == a + m + n);
    assert forall|i: int| 0 <= i < r.len() implies ((#[trigger] r[i]).kind == ConflictKind::Ginger <==> i < a.len())
        && (r[i].kind == ConflictKind::Neovim <==> i >= a.len() + m.len()) by {
        if i < a.len() {
            assert(r[i] == a[i]);
        } else if i < a.len() + m.len() {
            assert(r[i] == m[i - a.len()]);
        } else {
            assert(r[i] == n[i - a.len() - m.len()]);
        }
    }
}

} // verus!
