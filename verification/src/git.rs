//! Git status: the porcelain output of `git status` sorted into staged,
//! unstaged and untracked changes.

use crate::text::{
    chars_of, concat, copy_string, has_prefix, lines, split_lines, starts_with, string_of,
    strings_view,
};
use vstd::prelude::*;

verus! {

#[derive(Debug, Clone)]
pub enum GitError {
    Git(String),
    NotARepo(String),
    BinaryNotFound,
    Locked,
}

/// The message of an error, as `Display` writes it.
pub open spec fn git_error_text(e: GitError) -> Seq<char> {
    match e {
        GitError::Git(s) => "git error: "@ + s@,
        GitError::NotARepo(s) => "not a git repository: "@ + s@,
        GitError::BinaryNotFound => "git binary not found"@,
        GitError::Locked => "repository locked"@,
    }
}

impl GitError {
    /// The error's message.
    pub fn to_text(&self) -> (r: String)
        ensures
            r@ == git_error_text(*self),
    {
        match self {
            GitError::Git(s) => concat("git error: ", s.as_str()),
            GitError::NotARepo(s) => concat("not a git repository: ", s.as_str()),
            GitError::BinaryNotFound => "git binary not found".to_owned(),
            GitError::Locked => "repository locked".to_owned(),
        }
    }
}

/// The state of a repository's working tree.
#[derive(Debug, Clone)]
pub struct GitStatus {
    pub branch: String,
    pub clean: bool,
    pub staged: Vec<FileChange>,
    pub unstaged: Vec<FileChange>,
    pub untracked: Vec<String>,
}

/// One changed file, with its one-letter status code.
#[derive(Debug, Clone)]
pub struct FileChange {
    pub path: String,
    pub status: String,
    pub staged: bool,
}

pub struct FileChangeView {
    pub path: Seq<char>,
    pub status: Seq<char>,
    pub staged: bool,
}

impl View for FileChange {
    type V = FileChangeView;

    open spec fn view(&self) -> FileChangeView {
        FileChangeView { path: self.path@, status: self.status@, staged: self.staged }
    }
}

pub open spec fn changes_view(s: Seq<FileChange>) -> Seq<FileChangeView> {
    s.map_values(|c: FileChange| c@)
}

pub open spec fn is_ascii_char(c: char) -> bool {
    (c as int) < 128
}

/// A line of `git status --porcelain=v1 --branch` output that the parser can
/// take: the `##` branch header, or a two-letter status, a separator and a
/// path, the first three characters being ASCII.
pub open spec fn well_formed_line(l: Seq<char>) -> bool {
    has_prefix(l, "##"@) || (l.len() >= 3 && is_ascii_char(l[0]) && is_ascii_char(l[1])
        && is_ascii_char(l[2]))
}

/// What one status line contributes: staged changes, unstaged changes and
/// untracked paths.
pub open spec fn line_changes(l: Seq<char>) -> (
    Seq<FileChangeView>,
    Seq<FileChangeView>,
    Seq<Seq<char>>,
) {
    if has_prefix(l, "##"@) {
        (seq![], seq![], seq![])
    } else {
        let x = l[0];
        let y = l[1];
        let path = l.subrange(3, l.len() as int);
        if x == '?' && y == '?' {
            (seq![], seq![], seq![path])
        } else if (x == 'A' || x == 'M' || x == 'D' || x == 'R') && y == ' ' {
            (seq![FileChangeView { path, status: seq![x], staged: true }], seq![], seq![])
        } else if x == ' ' {
            (seq![], seq![FileChangeView { path, status: seq![y], staged: false }], seq![])
        } else {
            (
                if x != ' ' && x != '?' {
                    seq![FileChangeView { path, status: seq![x], staged: true }]
                } else {
                    seq![]
                },
                if y != ' ' && y != '?' {
                    seq![FileChangeView { path, status: seq![y], staged: false }]
                } else {
                    seq![]
                },
                seq![],
            )
        }
    }
}

/// The changes of a sequence of status lines, in order.
pub open spec fn status_changes(ls: Seq<Seq<char>>) -> (
    Seq<FileChangeView>,
    Seq<FileChangeView>,
    Seq<Seq<char>>,
)
    decreases ls.len(),
{
    if ls.len() == 0 {
        (seq![], seq![], seq![])
    } else {
        let prev = status_changes(ls.drop_last());
        let cur = line_changes(ls.last());
        (prev.0 + cur.0, prev.1 + cur.1, prev.2 + cur.2)
    }
}

fn one_char(c: char) -> (r: String)
    ensures
        r@ == seq![c],
{
    let v = vec![c];
    assert(v@ =~= seq![c]);
    string_of(v.as_slice())
}

/// The status of a repository on branch `branch` from the output of
/// `git status --porcelain=v1 --branch`: the header line is skipped, `??`
/// marks an untracked path, a status letter in the first column a staged
/// change and one in the second column an unstaged change; the tree is clean
/// when there is none of them.
pub fn parse_porcelain_status(branch: String, output: &str) -> (r: GitStatus)
    requires
        forall|i: int| 0 <= i < lines(output@).len() ==> well_formed_line(#[trigger] lines(output@)[i]),
    ensures
        r.branch@ == branch@,
        changes_view(r.staged@) == status_changes(lines(output@)).0,
        changes_view(r.unstaged@) == status_changes(lines(output@)).1,
        strings_view(r.untracked@) == status_changes(lines(output@)).2,
        r.clean == (r.staged@.len() == 0 && r.unstaged@.len() == 0 && r.untracked@.len() == 0),
{
    let cs = chars_of(output);
    let ls = split_lines(cs.as_slice());
    let ghost lv = ls@.map_values(|l: Vec<char>| l@);
    let header = chars_of("##");
    proof {
        reveal_strlit("##");
    }
    let mut staged: Vec<FileChange> = Vec::new();
    let mut unstaged: Vec<FileChange> = Vec::new();
    let mut untracked: Vec<String> = Vec::new();
    let mut i: usize = 0;
    while i < ls.len()
        invariant
            i <= ls@.len(),
            lv == ls@.map_values(|l: Vec<char>| l@),
            lv == lines(output@),
            header@ == "##"@,
            forall|j: int| 0 <= j < lv.len() ==> well_formed_line(#[trigger] lv[j]),
            changes_view(staged@) == status_changes(lv.subrange(0, i as int)).0,
            changes_view(unstaged@) == status_changes(lv.subrange(0, i as int)).1,
            strings_view(untracked@) == status_changes(lv.subrange(0, i as int)).2,
        decreases ls.len() - i,
    {
        let line = &ls[i];
        let ghost l = lv[i as int];
        assert(line@ == l);
        assert(lv.subrange(0, i + 1).drop_last() =~= lv.subrange(0, i as int));
        assert(lv.subrange(0, i + 1).last() == l);
        let ghost s0 = changes_view(staged@);
        let ghost u0 = changes_view(unstaged@);
        let ghost t0 = strings_view(untracked@);
        if !starts_with(line.as_slice(), header.as_slice()) {
            assert(well_formed_line(lv[i as int]));
            let x = line[0];
            let y = line[1];
            let path_chars = crate::text::slice_chars(line.as_slice(), 3, line.len());
            let path = string_of(path_chars.as_slice());
            let ghost pv = path@;
            assert(pv == l.subrange(3, l.len() as int));
            if x == '?' && y == '?' {
                untracked.push(path);
                assert(strings_view(untracked@) =~= t0 + seq![pv]);
                assert(changes_view(staged@) =~= s0 + Seq::<FileChangeView>::empty());
                assert(changes_view(unstaged@) =~= u0 + Seq::<FileChangeView>::empty());
            } else if (x == 'A' || x == 'M' || x == 'D' || x == 'R') && y == ' ' {
                let c = FileChange { path, status: one_char(x), staged: true };
                let ghost cv = c@;
                staged.push(c);
                assert(changes_view(staged@) =~= s0 + seq![cv]);
                assert(changes_view(unstaged@) =~= u0 + Seq::<FileChangeView>::empty());
                assert(strings_view(untracked@) =~= t0 + Seq::<Seq<char>>::empty());
            } else if x == ' ' {
                let c = FileChange { path, status: one_char(y), staged: false };
                let ghost cv = c@;
                unstaged.push(c);
                assert(changes_view(unstaged@) =~= u0 + seq![cv]);
                assert(changes_view(staged@) =~= s0 + Seq::<FileChangeView>::empty());
                assert(strings_view(untracked@) =~= t0 + Seq::<Seq<char>>::empty());
            } else {
                if x != ' ' && x != '?' {
                    let c = FileChange { path: copy_string(&path), status: one_char(x), staged: true };
                    let ghost cv = c@;
                    staged.push(c);
                    assert(changes_view(staged@) =~= s0 + seq![cv]);
                } else {
                    assert(changes_view(staged@) =~= s0 + Seq::<FileChangeView>::empty());
                }
                if y != ' ' && y != '?' {
                    let c = FileChange { path, status: one_char(y), staged: false };
                    let ghost cv = c@;
                    unstaged.push(c);
                    assert(changes_view(unstaged@) =~= u0 + seq![cv]);
                } else {
                    assert(changes_view(unstaged@) =~= u0 + Seq::<FileChangeView>::empty());
                }
                assert(strings_view(untracked@) =~= t0 + Seq::<Seq<char>>::empty());
            }
        } else {
            assert(changes_view(staged@) =~= s0 + Seq::<FileChangeView>::empty());
            assert(changes_view(unstaged@) =~= u0 + Seq::<FileChangeView>::empty());
            assert(strings_view(untracked@) =~= t0 + Seq::<Seq<char>>::empty());
        }
        i = i + 1;
    }
    assert(lv.subrange(0, i as int) =~= lv);
    let clean = staged.len() == 0 && unstaged.len() == 0 && untracked.len() == 0;
    GitStatus { branch, clean, staged, unstaged, untracked }
}


/// Each change a line contributes is in the parsed status, and each change
/// of the parsed status comes from some line.
proof fn lemma_status_changes_from_lines(ls: Seq<Seq<char>>)
    ensures
        forall|i: int, c: FileChangeView|
            0 <= i < ls.len() && line_changes(#[trigger] ls[i]).0.contains(c) ==> #[trigger] status_changes(
                ls,
            ).0.contains(c),
        forall|i: int, c: FileChangeView|
            0 <= i < ls.len() && line_changes(#[trigger] ls[i]).1.contains(c) ==> #[trigger] status_changes(
                ls,
            ).1.contains(c),
        forall|i: int, p: Seq<char>|
            0 <= i < ls.len() && line_changes(#[trigger] ls[i]).2.contains(p) ==> #[trigger] status_changes(
                ls,
            ).2.contains(p),
        forall|c: FileChangeView|
            #[trigger] status_changes(ls).0.contains(c) ==> exists|i: int|
                0 <= i < ls.len() && line_changes(#[trigger] ls[i]).0.contains(c),
        forall|c: FileChangeView|
            #[trigger] status_changes(ls).1.contains(c) ==> exists|i: int|
                0 <= i < ls.len() && line_changes(#[trigger] ls[i]).1.contains(c),
    decreases ls.len(),
{
    if ls.len() > 0 {
        let init = ls.drop_last();
        lemma_status_changes_from_lines(init);
        let prev = status_changes(init);
        let cur = line_changes(ls.last());
        let st = status_changes(ls);
        assert(st.0 == prev.0 + cur.0);
        assert(st.1 == prev.1 + cur.1);
        assert(st.2 == prev.2 + cur.2);
        assert forall|i: int, c: FileChangeView|
            0 <= i < ls.len() && line_changes(#[trigger] ls[i]).0.contains(c) implies #[trigger] st.0.contains(c) by {
            if i < init.len() {
                assert(init[i] == ls[i]);
                assert(line_changes(init[i]).0.contains(c));
                assert(prev.0.contains(c));
                let k = choose|k: int| 0 <= k < prev.0.len() && prev.0[k] == c;
                assert(st.0[k] == c);
            } else {
                let k = choose|k: int| 0 <= k < cur.0.len() && cur.0[k] == c;
                assert(st.0[prev.0.len() + k] == c);
            }
        }
        assert forall|i: int, c: FileChangeView|
            0 <= i < ls.len() && line_changes(#[trigger] ls[i]).1.contains(c) implies #[trigger] st.1.contains(c) by {
            if i < init.len() {
                assert(init[i] == ls[i]);
                assert(line_changes(init[i]).1.contains(c));
                assert(prev.1.contains(c));
                let k = choose|k: int| 0 <= k < prev.1.len() && prev.1[k] == c;
                assert(st.1[k] == c);
            } else {
                let k = choose|k: int| 0 <= k < cur.1.len() && cur.1[k] == c;
                assert(st.1[prev.1.len() + k] == c);
            }
        }
        assert forall|i: int, p: Seq<char>|
            0 <= i < ls.len() && line_changes(#[trigger] ls[i]).2.contains(p) implies #[trigger] st.2.contains(p) by {
            if i < init.len() {
                assert(init[i] == ls[i]);
                assert(line_changes(init[i]).2.contains(p));
                assert(prev.2.contains(p));
                let k = choose|k: int| 0 <= k < prev.2.len() && prev.2[k] == p;
                assert(st.2[k] == p);
            } else {
                let k = choose|k: int| 0 <= k < cur.2.len() && cur.2[k] == p;
                assert(st.2[prev.2.len() + k] == p);
            }
        }
        assert forall|c: FileChangeView| #[trigger] st.0.contains(c) implies exists|i: int|
            0 <= i < ls.len() && line_changes(#[trigger] ls[i]).0.contains(c) by {
            let k = choose|k: int| 0 <= k < st.0.len() && st.0[k] == c;
            if k < prev.0.len() {
                assert(prev.0[k] == c);
                assert(prev.0.contains(c));
                let i = choose|i: int| 0 <= i < init.len() && line_changes(#[trigger] init[i]).0.contains(c);
                assert(init[i] == ls[i]);
                assert(line_changes(ls[i]).0.contains(c));
            } else {
                assert(cur.0[k - prev.0.len()] == c);
                assert(ls[ls.len() - 1] == ls.last());
                assert(line_changes(ls[ls.len() - 1]).0.contains(c));
            }
        }
        assert forall|c: FileChangeView| #[trigger] st.1.contains(c) implies exists|i: int|
            0 <= i < ls.len() && line_changes(#[trigger] ls[i]).1.contains(c) by {
            let k = choose|k: int| 0 <= k < st.1.len() && st.1[k] == c;
            if k < prev.1.len() {
                assert(prev.1[k] == c);
                assert(prev.1.contains(c));
                let i = choose|i: int| 0 <= i < init.len() && line_changes(#[trigger] init[i]).1.contains(c);
                assert(init[i] == ls[i]);
                assert(line_changes(ls[i]).1.contains(c));
            } else {
                assert(cur.1[k - prev.1.len()] == c);
                assert(ls[ls.len() - 1] == ls.last());
                assert(line_changes(ls[ls.len() - 1]).1.contains(c));
            }
        }
    }
}

/// What `parse_porcelain_status` reports for the status lines of `output`
/// (each line `XY path`, after the `##` branch header): a first column `X`
/// other than a space or `?` is a staged change of the path with status
/// `X`; a second column `Y` other than a space or `?` is an unstaged change
/// with status `Y`, whatever `X` is; `??` is an untracked path. Every staged
/// change comes from a line with such an `X`, and every unstaged change from
/// a line whose `Y` it carries.
pub proof fn status_columns_are_read(output: Seq<char>)
    requires
        forall|i: int| 0 <= i < lines(output).len() ==> well_formed_line(#[trigger] lines(output)[i]),
    ensures
        forall|i: int|
            0 <= i < lines(output).len() && !has_prefix(#[trigger] lines(output)[i], "##"@) ==> {
                let l = lines(output)[i];
                let path = l.subrange(3, l.len() as int);
                &&& l[0] != ' ' && l[0] != '?' ==> status_changes(lines(output)).0.contains(
                    FileChangeView { path, status: seq![l[0]], staged: true },
                )
                &&& l[1] != ' ' && l[1] != '?' ==> status_changes(lines(output)).1.contains(
                    FileChangeView { path, status: seq![l[1]], staged: false },
                )
                &&& l[0] == '?' && l[1] == '?' ==> status_changes(lines(output)).2.contains(path)
            },
        forall|c: FileChangeView|
            #[trigger] status_changes(lines(output)).0.contains(c) ==> c.staged && exists|i: int|
                0 <= i < lines(output).len() && !has_prefix(#[trigger] lines(output)[i], "##"@)
                    && lines(output)[i][0] != ' ' && lines(output)[i][0] != '?' && c.status
                    == seq![lines(output)[i][0]] && c.path == lines(output)[i].subrange(
                    3,
                    lines(output)[i].len() as int,
                ),
        forall|c: FileChangeView|
            #[trigger] status_changes(lines(output)).1.contains(c) ==> !c.staged && exists|i: int|
                0 <= i < lines(output).len() && !has_prefix(#[trigger] lines(output)[i], "##"@)
                    && c.status == seq![lines(output)[i][1]] && c.path == lines(output)[i].subrange(
                    3,
                    lines(output)[i].len() as int,
                ),
{
    let ls = lines(output);
    lemma_status_changes_from_lines(ls);
    assert forall|i: int|
        0 <= i < ls.len() && !has_prefix(#[trigger] ls[i], "##"@) implies {
            let l = ls[i];
            let path = l.subrange(3, l.len() as int);
            &&& l[0] != ' ' && l[0] != '?' ==> status_changes(ls).0.contains(
                FileChangeView { path, status: seq![l[0]], staged: true },
            )
            &&& l[1] != ' ' && l[1] != '?' ==> status_changes(ls).1.contains(
                FileChangeView { path, status: seq![l[1]], staged: false },
            )
            &&& l[0] == '?' && l[1] == '?' ==> status_changes(ls).2.contains(path)
        } by {
        let l = ls[i];
        let path = l.subrange(3, l.len() as int);
        let lc = line_changes(l);
        assert(well_formed_line(l));
        if l[0] != ' ' && l[0] != '?' {
            let c = FileChangeView { path, status: seq![l[0]], staged: true };
            assert(lc.0[0] == c);
            assert(lc.0.contains(c));
        }
        if l[1] != ' ' && l[1] != '?' {
            let c = FileChangeView { path, status: seq![l[1]], staged: false };
            assert(lc.1[0] == c);
            assert(lc.1.contains(c));
        }
        if l[0] == '?' && l[1] == '?' {
            assert(lc.2[0] == path);
            assert(lc.2.contains(path));
        }
    }
    assert forall|c: FileChangeView| #[trigger] status_changes(ls).0.contains(c) implies c.staged
        && exists|i: int|
        0 <= i < ls.len() && !has_prefix(#[trigger] ls[i], "##"@) && ls[i][0] != ' ' && ls[i][0]
            != '?' && c.status == seq![ls[i][0]] && c.path == ls[i].subrange(3, ls[i].len() as int) by {
        let i = choose|i: int| 0 <= i < ls.len() && line_changes(#[trigger] ls[i]).0.contains(c);
        let k = choose|k: int| 0 <= k < line_changes(ls[i]).0.len() && line_changes(ls[i]).0[k] == c;
    }
    assert forall|c: FileChangeView| #[trigger] status_changes(ls).1.contains(c) implies !c.staged
        && exists|i: int|
        0 <= i < ls.len() && !has_prefix(#[trigger] ls[i], "##"@) && c.status == seq![ls[i][1]]
            && c.path == ls[i].subrange(3, ls[i].len() as int) by {
        let i = choose|i: int| 0 <= i < ls.len() && line_changes(#[trigger] ls[i]).1.contains(c);
        let k = choose|k: int| 0 <= k < line_changes(ls[i]).1.len() && line_changes(ls[i]).1[k] == c;
    }
}


/// A status line that records a staged change: not the branch header, and
/// its first column is neither a space nor `?`.
pub open spec fn has_staged_column(l: Seq<char>) -> bool {
    !has_prefix(l, "##"@) && l[0] != ' ' && l[0] != '?'
}

/// A status line that records an unstaged change: not the branch header,
/// and its first column is a space or its second column is neither a space
/// nor `?`.
pub open spec fn has_unstaged_column(l: Seq<char>) -> bool {
    !has_prefix(l, "##"@) && (l[0] == ' ' || (l[1] != ' ' && l[1] != '?'))
}

/// A status line `?? path`.
pub open spec fn is_untracked_line(l: Seq<char>) -> bool {
    !has_prefix(l, "##"@) && l[0] == '?' && l[1] == '?'
}

/// The path of a status line: what follows its two columns and separator.
pub open spec fn line_path(l: Seq<char>) -> Seq<char> {
    l.subrange(3, l.len() as int)
}

/// The staged changes of a status are, in order, one per line with a
/// staged column, carrying that column's letter; the unstaged changes one
/// per line with an unstaged column, carrying the second column's letter;
/// the untracked paths one per `??` line.
pub proof fn status_lists_follow_lines(ls: Seq<Seq<char>>)
    ensures
        status_changes(ls).0 == ls.filter(|l: Seq<char>| has_staged_column(l)).map_values(
            |l: Seq<char>| FileChangeView { path: line_path(l), status: seq![l[0]], staged: true },
        ),
        status_changes(ls).1 == ls.filter(|l: Seq<char>| has_unstaged_column(l)).map_values(
            |l: Seq<char>| FileChangeView { path: line_path(l), status: seq![l[1]], staged: false },
        ),
        status_changes(ls).2 == ls.filter(|l: Seq<char>| is_untracked_line(l)).map_values(
            |l: Seq<char>| line_path(l),
        ),
    decreases ls.len(),
{
    let fs = |l: Seq<char>| FileChangeView { path: line_path(l), status: seq![l[0]], staged: true };
    let fu = |l: Seq<char>| FileChangeView { path: line_path(l), status: seq![l[1]], staged: false };
    let ft = |l: Seq<char>| line_path(l);
    let ps = |l: Seq<char>| has_staged_column(l);
    let pu = |l: Seq<char>| has_unstaged_column(l);
    let pt = |l: Seq<char>| is_untracked_line(l);
    if ls.len() == 0 {
        assert(ls.filter(ps).map_values(fs) =~= Seq::<FileChangeView>::empty());
        assert(ls.filter(pu).map_values(fu) =~= Seq::<FileChangeView>::empty());
        assert(ls.filter(pt).map_values(ft) =~= Seq::<Seq<char>>::empty());
    } else {
        let init = ls.drop_last();
        let l = ls.last();
        status_lists_follow_lines(init);
        let cur = line_changes(l);
        reveal_strlit("##");
        assert(cur.0 == (if ps(l) { seq![fs(l)] } else { Seq::<FileChangeView>::empty() }));
        assert(cur.1 == (if pu(l) { seq![fu(l)] } else { Seq::<FileChangeView>::empty() }));
        assert(cur.2 == (if pt(l) { seq![ft(l)] } else { Seq::<Seq<char>>::empty() }));
        assert(init.push(l) =~= ls);
        init.lemma_filter_push(l, ps);
        init.lemma_filter_push(l, pu);
        init.lemma_filter_push(l, pt);
        if ps(l) {
            assert(init.filter(ps).push(l).map_values(fs) =~= init.filter(ps).map_values(fs).push(fs(l)));
        }
        if pu(l) {
            assert(init.filter(pu).push(l).map_values(fu) =~= init.filter(pu).map_values(fu).push(fu(l)));
        }
        if pt(l) {
            assert(init.filter(pt).push(l).map_values(ft) =~= init.filter(pt).map_values(ft).push(ft(l)));
        }
        assert(ls.filter(ps).map_values(fs) =~= init.filter(ps).map_values(fs) + cur.0);
        assert(ls.filter(pu).map_values(fu) =~= init.filter(pu).map_values(fu) + cur.1);
        assert(ls.filter(pt).map_values(ft) =~= init.filter(pt).map_values(ft) + cur.2);
    }
}

} // verus!
