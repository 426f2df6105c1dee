//! Re-reading a partial patch: the patch that keeps every hunk of a parsed
//! diff parses back to the files it was built from (those with hunks), and
//! the patch that keeps none is empty.

use vstd::prelude::*;
use crate::diff::{
    accepted_indices, add_line, close_file, close_hunk, file_patch_lines, git_line, header_range,
    hunk_lines, initial_read_state, marked_line, parsed_diff, partial_patch, patch_lines,
    patch_lines_split_back, read_diff, read_diff_line, read_diff_lines, selected_lines,
    DiffFileView, DiffHunkView, DiffLineType, DiffLineView, DiffReadState, HunkRefView,
    file_path_of, partial_patch_of_nothing,
};
use crate::text::{
    has_prefix, lemma_next_char_bounds, lemma_next_newline_bounds, lines, lines_from, next_char,
    next_newline, no_newline, plain_line, split_char, split_from, strip_line_end, trim_prefix_all,
    without_cr,
};

verus! {

/// The reader state after the lines `ls`, starting from `st`.
pub open spec fn read_from(st: DiffReadState, ls: Seq<Seq<char>>) -> DiffReadState
    decreases ls.len(),
{
    if ls.len() == 0 {
        st
    } else {
        read_diff_line(read_from(st, ls.drop_last()), ls.last())
    }
}

proof fn lemma_read_from_initial(ls: Seq<Seq<char>>)
    ensures
        read_diff_lines(ls) == read_from(initial_read_state(), ls),
    decreases ls.len(),
{
    if ls.len() > 0 {
        lemma_read_from_initial(ls.drop_last());
    }
}

proof fn lemma_read_concat(st: DiffReadState, a: Seq<Seq<char>>, b: Seq<Seq<char>>)
    ensures
        read_from(st, a + b) == read_from(read_from(st, a), b),
    decreases b.len(),
{
    if b.len() == 0 {
        assert(a + b =~= a);
    } else {
        assert((a + b).drop_last() =~= a + b.drop_last());
        assert((a + b).last() == b.last());
        lemma_read_concat(st, a, b.drop_last());
    }
}

proof fn lemma_read_one(st: DiffReadState, x: Seq<char>)
    ensures
        read_from(st, seq![x]) == read_diff_line(st, x),
{
    assert(seq![x].drop_last() =~= Seq::<Seq<char>>::empty());
    assert(read_from(st, Seq::<Seq<char>>::empty()) == st);
    assert(seq![x].last() == x);
}

/// How far the old side's line number advances over `ls`.
pub open spec fn old_advance(ls: Seq<DiffLineView>) -> int
    decreases ls.len(),
{
    if ls.len() == 0 {
        0
    } else {
        old_advance(ls.drop_last()) + if ls.last().line_type != DiffLineType::Addition {
            1int
        } else {
            0int
        }
    }
}

/// How far the new side's line number advances over `ls`.
pub open spec fn new_advance(ls: Seq<DiffLineView>) -> int
    decreases ls.len(),
{
    if ls.len() == 0 {
        0
    } else {
        new_advance(ls.drop_last()) + if ls.last().line_type != DiffLineType::Deletion {
            1int
        } else {
            0int
        }
    }
}

/// The lines `ls` are numbered from `o` on the old side and `n` on the new
/// side: each line of a side gets the side's number, which then advances.
pub open spec fn numbered_from(ls: Seq<DiffLineView>, o: int, n: int) -> bool {
    forall|k: int|
        0 <= k < ls.len() ==> {
            &&& (#[trigger] ls[k]).old_line == (if ls[k].line_type != DiffLineType::Addition {
                Some(o + old_advance(ls.take(k)))
            } else {
                None
            })
            &&& ls[k].new_line == (if ls[k].line_type != DiffLineType::Deletion {
                Some(n + new_advance(ls.take(k)))
            } else {
                None
            })
        }
}

/// A parsed line that reads back as itself once its marker is put back.
pub open spec fn rereadable_line(l: DiffLineView) -> bool {
    &&& plain_line(l.content)
    &&& l.line_type == DiffLineType::Addition ==> !has_prefix(l.content, "++"@)
    &&& l.line_type == DiffLineType::Deletion ==> !has_prefix(l.content, "--"@)
}

/// A parsed hunk that reads back as itself from its header and lines.
pub open spec fn rereadable_hunk(h: DiffHunkView) -> bool {
    let parts = split_char(h.header, ' ');
    &&& plain_line(h.header)
    &&& has_prefix(h.header, "@@ "@)
    &&& parts.len() >= 4
    &&& h.old_start == header_range(parts[1], '-').0
    &&& h.old_count == header_range(parts[1], '-').1
    &&& h.new_start == header_range(parts[2], '+').0
    &&& h.new_count == header_range(parts[2], '+').1
    &&& numbered_from(h.lines, h.old_start, h.new_start)
    &&& forall|k: int| 0 <= k < h.lines.len() ==> rereadable_line(#[trigger] h.lines[k])
}

/// A parsed file that reads back as itself from its patch lines.
pub open spec fn rereadable_file(f: DiffFileView) -> bool {
    &&& f.status == "modified"@
    &&& no_newline(f.path)
    &&& forall|j: int| 0 <= j < f.path.len() ==> f.path[j] != ' '
    &&& !has_prefix(f.path, "a/"@)
    &&& forall|k: int| 0 <= k < f.hunks.len() ==> rereadable_hunk(#[trigger] f.hunks[k])
}

proof fn lemma_cons_prefix(c: char, t: Seq<char>, p: Seq<char>)
    requires
        p.len() >= 1,
    ensures
        has_prefix(seq![c] + t, p) <==> (p[0] == c && has_prefix(t, p.subrange(1, p.len() as int))),
{
    let s = seq![c] + t;
    if has_prefix(s, p) {
        assert(s.subrange(0, p.len() as int)[0] == s[0]);
        assert(t.subrange(0, p.len() - 1) =~= s.subrange(0, p.len() as int).subrange(1, p.len() as int));
    }
    if p[0] == c && has_prefix(t, p.subrange(1, p.len() as int)) {
        let q = p.subrange(1, p.len() as int);
        assert forall|j: int| 0 <= j < p.len() implies s.subrange(0, p.len() as int)[j] == p[j] by {
            if j > 0 {
                assert(t.subrange(0, q.len() as int)[j - 1] == q[j - 1]);
            }
        }
        assert(s.subrange(0, p.len() as int) =~= p);
    }
}

proof fn lemma_marked_reads_back(st: DiffReadState, l: DiffLineView)
    requires
        rereadable_line(l),
        st.hunk is Some,
    ensures
        read_diff_line(st, marked_line(l)) == add_line(st, marked_line(l), l.line_type),
        marked_line(l).subrange(1, marked_line(l).len() as int) == l.content,
{
    let m = marked_line(l);
    let c = m[0];
    assert(m =~= seq![line_marker_of(l)] + l.content);
    reveal_strlit("diff --git");
    reveal_strlit("@@ ");
    reveal_strlit("+");
    reveal_strlit("+++");
    reveal_strlit("++");
    reveal_strlit("-");
    reveal_strlit("---");
    reveal_strlit("--");
    reveal_strlit(" ");
    lemma_cons_prefix(line_marker_of(l), l.content, "diff --git"@);
    lemma_cons_prefix(line_marker_of(l), l.content, "@@ "@);
    lemma_cons_prefix(line_marker_of(l), l.content, "+"@);
    lemma_cons_prefix(line_marker_of(l), l.content, "-"@);
    lemma_cons_prefix(line_marker_of(l), l.content, " "@);
    lemma_cons_prefix(line_marker_of(l), l.content, "+++"@);
    lemma_cons_prefix(line_marker_of(l), l.content, "---"@);
    assert("+++"@.subrange(1, 3) =~= "++"@);
    assert("---"@.subrange(1, 3) =~= "--"@);
    assert("+"@.subrange(1, 1) =~= Seq::<char>::empty());
    assert("-"@.subrange(1, 1) =~= Seq::<char>::empty());
    assert(" "@.subrange(1, 1) =~= Seq::<char>::empty());
    assert(has_prefix(l.content, Seq::<char>::empty())) by {
        assert(l.content.subrange(0, 0) =~= Seq::<char>::empty());
    }
    assert(m.subrange(1, m.len() as int) =~= l.content);
}

pub open spec fn line_marker_of(l: DiffLineView) -> char {
    crate::diff::line_marker(l.line_type)
}

proof fn lemma_take_prefix(p: Seq<DiffLineView>, q: Seq<DiffLineView>, k: int)
    requires
        0 <= k <= p.len(),
    ensures
        (p + q).take(k) == p.take(k),
{
    assert((p + q).take(k) =~= p.take(k));
}

proof fn lemma_read_marked(st: DiffReadState, h: DiffHunkView, p: Seq<DiffLineView>, ls: Seq<DiffLineView>)
    requires
        st.hunk == Some(DiffHunkView { lines: p, ..h }),
        st.old_line == h.old_start + old_advance(p),
        st.new_line == h.new_start + new_advance(p),
        numbered_from(p + ls, h.old_start, h.new_start),
        forall|k: int| 0 <= k < ls.len() ==> rereadable_line(#[trigger] ls[k]),
    ensures
        read_from(st, ls.map_values(|l: DiffLineView| marked_line(l))).hunk == Some(
            DiffHunkView { lines: p + ls, ..h },
        ),
        read_from(st, ls.map_values(|l: DiffLineView| marked_line(l))).files == st.files,
        read_from(st, ls.map_values(|l: DiffLineView| marked_line(l))).file == st.file,
        read_from(st, ls.map_values(|l: DiffLineView| marked_line(l))).old_line == h.old_start
            + old_advance(p + ls),
        read_from(st, ls.map_values(|l: DiffLineView| marked_line(l))).new_line == h.new_start
            + new_advance(p + ls),
    decreases ls.len(),
{
    let m = ls.map_values(|l: DiffLineView| marked_line(l));
    if ls.len() == 0 {
        assert(p + ls =~= p);
    } else {
        let init = ls.drop_last();
        let l = ls.last();
        let pl = p + ls;
        let pi = p + init;
        assert(pl.drop_last() =~= pi);
        assert forall|k: int| 0 <= k < pi.len() implies {
            &&& (#[trigger] pi[k]).old_line == (if pi[k].line_type != DiffLineType::Addition {
                Some(h.old_start + old_advance(pi.take(k)))
            } else {
                None
            })
            &&& pi[k].new_line == (if pi[k].line_type != DiffLineType::Deletion {
                Some(h.new_start + new_advance(pi.take(k)))
            } else {
                None
            })
        } by {
            assert(pi[k] == pl[k]);
            assert(pl.take(k) =~= pi.take(k));
        }
        assert forall|k: int| 0 <= k < init.len() implies rereadable_line(#[trigger] init[k]) by {
            assert(init[k] == ls[k]);
        }
        lemma_read_marked(st, h, p, init);
        assert(m.drop_last() =~= init.map_values(|l: DiffLineView| marked_line(l)));
        assert(m.last() == marked_line(l));
        let mid = read_from(st, m.drop_last());
        assert(rereadable_line(ls[ls.len() - 1]));
        lemma_marked_reads_back(mid, l);
        let k = pi.len() as int;
        assert(pl[k] == l);
        assert(pl.take(k) =~= pi);
        assert(pi.push(l) =~= pl);
    }
}

/// The lines a patch writes for the hunks `hs`, in order.
pub open spec fn hunks_lines(hs: Seq<DiffHunkView>) -> Seq<Seq<char>>
    decreases hs.len(),
{
    if hs.len() == 0 {
        seq![]
    } else {
        hunks_lines(hs.drop_last()) + hunk_lines(hs.last())
    }
}

proof fn lemma_read_hunk(st: DiffReadState, h: DiffHunkView)
    requires
        rereadable_hunk(h),
    ensures
        read_from(st, hunk_lines(h)).hunk == Some(h),
        read_from(st, hunk_lines(h)).files == close_hunk(st).files,
        read_from(st, hunk_lines(h)).file == close_hunk(st).file,
{
    let marks = h.lines.map_values(|l: DiffLineView| marked_line(l));
    assert(hunk_lines(h) == seq![h.header] + marks);
    lemma_read_concat(st, seq![h.header], marks);
    lemma_read_one(st, h.header);
    reveal_strlit("diff --git");
    reveal_strlit("@@ ");
    assert(h.header.subrange(0, 3) == "@@ "@);
    assert(h.header[0] == '@') by {
        assert(h.header.subrange(0, 3)[0] == h.header[0]);
    }
    if has_prefix(h.header, "diff --git"@) {
        assert(h.header.subrange(0, 10)[0] == h.header[0]);
    }
    let st1 = close_hunk(st);
    let h0 = DiffHunkView { lines: seq![], ..h };
    let st2 = read_diff_line(st, h.header);
    assert(st2.hunk == Some(h0));
    assert(st2.old_line == h.old_start);
    assert(st2.new_line == h.new_start);
    assert(Seq::<DiffLineView>::empty() + h.lines =~= h.lines);
    assert(old_advance(Seq::<DiffLineView>::empty()) == 0);
    assert(new_advance(Seq::<DiffLineView>::empty()) == 0);
    lemma_read_marked(st2, h, seq![], h.lines);
    assert(DiffHunkView { lines: h.lines, ..h } == h);
}

proof fn lemma_read_hunks(st: DiffReadState, f: DiffFileView, hs: Seq<DiffHunkView>)
    requires
        st.file == Some(f),
        st.hunk is None,
        hs.len() >= 1,
        forall|k: int| 0 <= k < hs.len() ==> rereadable_hunk(#[trigger] hs[k]),
    ensures
        read_from(st, hunks_lines(hs)).files == st.files,
        read_from(st, hunks_lines(hs)).hunk is Some,
        close_hunk(read_from(st, hunks_lines(hs))).file == Some(
            DiffFileView { hunks: f.hunks + hs, ..f },
        ),
    decreases hs.len(),
{
    let last = hs.last();
    assert(rereadable_hunk(hs[hs.len() - 1]));
    if hs.len() == 1 {
        assert(hs.drop_last() =~= Seq::<DiffHunkView>::empty());
        assert(hunks_lines(hs.drop_last()) =~= Seq::<Seq<char>>::empty());
        assert(hunks_lines(hs) =~= hunk_lines(last));
        lemma_read_hunk(st, last);
        assert(f.hunks + hs =~= f.hunks.push(last));
    } else {
        let init = hs.drop_last();
        assert forall|k: int| 0 <= k < init.len() implies rereadable_hunk(#[trigger] init[k]) by {
            assert(init[k] == hs[k]);
        }
        lemma_read_hunks(st, f, init);
        lemma_read_concat(st, hunks_lines(init), hunk_lines(last));
        let r1 = read_from(st, hunks_lines(init));
        lemma_read_hunk(r1, last);
        assert(f.hunks + hs =~= (f.hunks + init).push(last));
    }
}

proof fn lemma_next_char_is(s: Seq<char>, c: char, from: int, k: int)
    requires
        0 <= from <= k < s.len(),
        s[k] == c,
        forall|j: int| from <= j < k ==> s[j] != c,
    ensures
        next_char(s, c, from) == k,
    decreases k - from,
{
    if from < k {
        lemma_next_char_is(s, c, from + 1, k);
    }
}

proof fn lemma_git_line_path(p: Seq<char>)
    requires
        forall|j: int| 0 <= j < p.len() ==> p[j] != ' ',
        !has_prefix(p, "a/"@),
    ensures
        file_path_of(without_cr(git_line(p))) == p,
{
    reveal_strlit("diff --git a/");
    reveal_strlit(" b/");
    reveal_strlit("a/");
    let g = git_line(p);
    let s = without_cr(g);
    let n = p.len() as int;
    assert(g.len() == 16 + 2 * n);
    assert(s.len() >= 15 + 2 * n);
    assert forall|j: int| 0 <= j < s.len() implies s[j] == g[j] by {}
    assert forall|j: int| 13 <= j < 13 + n implies s[j] == p[j - 13] by {
        assert(s[j] == g[j]);
    }
    assert(s[4] == g[4]);
    assert(s[10] == g[10]);
    assert(s[13 + n] == g[13 + n]);
    assert(s[4] == ' ');
    assert(s[10] == ' ');
    assert(s[13 + n] == ' ');
    assert forall|j: int| 0 <= j < 4 implies s[j] != ' ' by {
        assert(s[j] == g[j]);
    }
    assert forall|j: int| 5 <= j < 10 implies s[j] != ' ' by {
        assert(s[j] == g[j]);
    }
    lemma_next_char_is(s, ' ', 0, 4);
    lemma_next_char_is(s, ' ', 5, 10);
    assert forall|j: int| 11 <= j < 13 + n implies s[j] != ' ' by {
        assert(s[j] == g[j]);
        if j >= 13 {
            assert(s[j] == p[j - 13]);
        }
    }
    lemma_next_char_is(s, ' ', 11, 13 + n);
    crate::text::lemma_next_char_bounds(s, ' ', 14 + n);
    let pieces = split_char(s, ' ');
    assert(pieces == split_from(s, ' ', 0));
    assert(split_from(s, ' ', 0) == seq![s.subrange(0, 4)] + split_from(s, ' ', 5));
    assert(split_from(s, ' ', 5) == seq![s.subrange(5, 10)] + split_from(s, ' ', 11));
    assert(split_from(s, ' ', 11) == seq![s.subrange(11, 13 + n)] + split_from(s, ' ', 14 + n));
    assert(pieces[2] == s.subrange(11, 13 + n));
    let piece = s.subrange(11, 13 + n);
    assert(piece.subrange(0, 2) =~= "a/"@) by {
        assert(s[11] == g[11]);
        assert(s[12] == g[12]);
    }
    assert(piece.subrange(2, piece.len() as int) =~= p);
    assert(trim_prefix_all(piece, "a/"@) == trim_prefix_all(p, "a/"@));
}

proof fn lemma_git_line_prefix(p: Seq<char>)
    ensures
        has_prefix(without_cr(git_line(p)), "diff --git"@),
{
    reveal_strlit("diff --git");
    reveal_strlit("diff --git a/");
    reveal_strlit(" b/");
    let g = git_line(p);
    assert(g.len() >= 16);
    assert(without_cr(g).subrange(0, 10) =~= g.subrange(0, 10));
    assert(g.subrange(0, 10) =~= "diff --git"@);
}

proof fn lemma_read_git_line(st: DiffReadState, p: Seq<char>)
    requires
        forall|j: int| 0 <= j < p.len() ==> p[j] != ' ',
        !has_prefix(p, "a/"@),
    ensures
        read_diff_line(st, without_cr(git_line(p))) == (DiffReadState {
            file: Some(DiffFileView { path: p, status: "modified"@, hunks: seq![] }),
            ..close_file(close_hunk(st))
        }),
{
    lemma_git_line_prefix(p);
    lemma_git_line_path(p);
}

proof fn lemma_read_file(st: DiffReadState, f: DiffFileView)
    requires
        rereadable_file(f),
        f.hunks.len() >= 1,
    ensures
        close_file(
            close_hunk(read_from(st, seq![without_cr(git_line(f.path))] + hunks_lines(f.hunks))),
        ).files == close_file(close_hunk(st)).files.push(f),
{
    let g = without_cr(git_line(f.path));
    lemma_read_concat(st, seq![g], hunks_lines(f.hunks));
    lemma_read_one(st, g);
    lemma_read_git_line(st, f.path);
    let st1 = read_diff_line(st, g);
    let f0 = DiffFileView { path: f.path, status: "modified"@, hunks: seq![] };
    lemma_read_hunks(st1, f0, f.hunks);
    assert(f0.hunks + f.hunks =~= f.hunks);
    assert(DiffFileView { hunks: f.hunks, ..f0 } == f);
}

/// The lines of the patch that keeps every hunk of `fs`.
pub open spec fn full_lines(fs: Seq<DiffFileView>) -> Seq<Seq<char>>
    decreases fs.len(),
{
    if fs.len() == 0 {
        seq![]
    } else {
        full_lines(fs.drop_last()) + if fs.last().hunks.len() > 0 {
            seq![git_line(fs.last().path)] + hunks_lines(fs.last().hunks)
        } else {
            seq![]
        }
    }
}

/// The files of `fs` that have hunks, in order.
pub open spec fn with_hunks(fs: Seq<DiffFileView>) -> Seq<DiffFileView>
    decreases fs.len(),
{
    if fs.len() == 0 {
        seq![]
    } else {
        with_hunks(fs.drop_last()) + if fs.last().hunks.len() > 0 {
            seq![fs.last()]
        } else {
            seq![]
        }
    }
}

proof fn lemma_read_full(fs: Seq<DiffFileView>)
    requires
        forall|k: int| 0 <= k < fs.len() ==> rereadable_file(#[trigger] fs[k]),
    ensures
        close_file(close_hunk(read_from(initial_read_state(), reread_lines(fs)))).files
            == with_hunks(fs),
    decreases fs.len(),
{
    if fs.len() > 0 {
        let init = fs.drop_last();
        let f = fs.last();
        assert(rereadable_file(fs[fs.len() - 1]));
        assert forall|k: int| 0 <= k < init.len() implies rereadable_file(#[trigger] init[k]) by {
            assert(init[k] == fs[k]);
        }
        lemma_read_full(init);
        let st = read_from(initial_read_state(), reread_lines(init));
        if f.hunks.len() > 0 {
            lemma_read_concat(
                initial_read_state(),
                reread_lines(init),
                seq![without_cr(git_line(f.path))] + hunks_lines(f.hunks),
            );
            lemma_read_file(st, f);
        } else {
            assert(reread_lines(fs) =~= reread_lines(init));
            assert(with_hunks(fs) =~= with_hunks(init));
        }
    }
}

/// References to the first `n` hunks of the file at `path`.
pub open spec fn hunk_refs(path: Seq<char>, n: nat) -> Seq<HunkRefView> {
    Seq::new(n, |i: int| HunkRefView { file: path, hunk_index: i })
}

/// References to every hunk of `fs`, file by file, each file's hunks in
/// order.
pub open spec fn all_refs(fs: Seq<DiffFileView>) -> Seq<HunkRefView>
    decreases fs.len(),
{
    if fs.len() == 0 {
        seq![]
    } else {
        all_refs(fs.drop_last()) + hunk_refs(fs.last().path, fs.last().hunks.len())
    }
}

pub open spec fn index_range(n: nat) -> Seq<int> {
    Seq::new(n, |i: int| i)
}

proof fn lemma_accepted_concat(a: Seq<HunkRefView>, b: Seq<HunkRefView>, p: Seq<char>)
    ensures
        accepted_indices(a + b, p) == accepted_indices(a, p) + accepted_indices(b, p),
    decreases b.len(),
{
    if b.len() == 0 {
        assert(a + b =~= a);
        assert(accepted_indices(a, p) + accepted_indices(b, p) =~= accepted_indices(a, p));
    } else {
        assert((a + b).drop_last() =~= a + b.drop_last());
        assert((a + b).last() == b.last());
        lemma_accepted_concat(a, b.drop_last(), p);
        if b.last().file == p {
            assert(accepted_indices(a + b, p) =~= accepted_indices(a, p) + accepted_indices(b, p));
        } else {
            assert(accepted_indices(a + b, p) =~= accepted_indices(a, p) + accepted_indices(b, p));
        }
    }
}

proof fn lemma_accepted_refs(path: Seq<char>, n: nat, p: Seq<char>)
    ensures
        accepted_indices(hunk_refs(path, n), p) == (if path == p {
            index_range(n)
        } else {
            Seq::<int>::empty()
        }),
    decreases n,
{
    if n == 0 {
        assert(hunk_refs(path, n) =~= Seq::<HunkRefView>::empty());
        assert(index_range(n) =~= Seq::<int>::empty());
    } else {
        let m = (n - 1) as nat;
        assert(hunk_refs(path, n).drop_last() =~= hunk_refs(path, m));
        assert(hunk_refs(path, n).last() == HunkRefView { file: path, hunk_index: m as int });
        lemma_accepted_refs(path, m, p);
        assert(index_range(n) =~= index_range(m).push(m as int));
    }
}

proof fn lemma_accepted_absent(fs: Seq<DiffFileView>, p: Seq<char>)
    requires
        forall|k: int| 0 <= k < fs.len() ==> (#[trigger] fs[k]).path != p,
    ensures
        accepted_indices(all_refs(fs), p) == Seq::<int>::empty(),
    decreases fs.len(),
{
    if fs.len() > 0 {
        let init = fs.drop_last();
        assert forall|k: int| 0 <= k < init.len() implies (#[trigger] init[k]).path != p by {
            assert(init[k] == fs[k]);
        }
        lemma_accepted_absent(init, p);
        assert(fs[fs.len() - 1].path != p);
        lemma_accepted_concat(all_refs(init), hunk_refs(fs.last().path, fs.last().hunks.len()), p);
        lemma_accepted_refs(fs.last().path, fs.last().hunks.len(), p);
        assert(Seq::<int>::empty() + Seq::<int>::empty() =~= Seq::<int>::empty());
    }
}

proof fn lemma_accepted_all(fs: Seq<DiffFileView>, j: int)
    requires
        0 <= j < fs.len(),
        forall|a: int, b: int| 0 <= a < b < fs.len() ==> (#[trigger] fs[a]).path != (#[trigger] fs[b]).path,
    ensures
        accepted_indices(all_refs(fs), fs[j].path) == index_range(fs[j].hunks.len()),
    decreases fs.len(),
{
    let init = fs.drop_last();
    let last = fs.last();
    let p = fs[j].path;
    lemma_accepted_concat(all_refs(init), hunk_refs(last.path, last.hunks.len()), p);
    lemma_accepted_refs(last.path, last.hunks.len(), p);
    if j == fs.len() - 1 {
        assert forall|k: int| 0 <= k < init.len() implies (#[trigger] init[k]).path != p by {
            assert(init[k] == fs[k]);
        }
        lemma_accepted_absent(init, p);
        assert(Seq::<int>::empty() + index_range(last.hunks.len()) =~= index_range(last.hunks.len()));
    } else {
        assert forall|a: int, b: int| 0 <= a < b < init.len() implies (#[trigger] init[a]).path != (
        #[trigger] init[b]).path by {
            assert(init[a] == fs[a]);
            assert(init[b] == fs[b]);
        }
        assert(init[j] == fs[j]);
        lemma_accepted_all(init, j);
        assert(fs[j].path != fs[fs.len() - 1].path);
        assert(index_range(fs[j].hunks.len()) + Seq::<int>::empty() =~= index_range(
            fs[j].hunks.len(),
        ));
    }
}

proof fn lemma_selected_range(f: DiffFileView, n: nat)
    requires
        n <= f.hunks.len(),
    ensures
        selected_lines(f, index_range(n)) == hunks_lines(f.hunks.take(n as int)),
    decreases n,
{
    if n == 0 {
        assert(index_range(n) =~= Seq::<int>::empty());
        assert(f.hunks.take(0) =~= Seq::<DiffHunkView>::empty());
    } else {
        let m = (n - 1) as nat;
        lemma_selected_range(f, m);
        assert(index_range(n).drop_last() =~= index_range(m));
        assert(index_range(n).last() == m as int);
        assert(f.hunks.take(n as int).drop_last() =~= f.hunks.take(m as int));
        assert(f.hunks.take(n as int).last() == f.hunks[m as int]);
    }
}

proof fn lemma_patch_is_full(gs: Seq<DiffFileView>, acc: Seq<HunkRefView>)
    requires
        forall|k: int|
            0 <= k < gs.len() ==> accepted_indices(acc, (#[trigger] gs[k]).path) == index_range(
                gs[k].hunks.len(),
            ),
    ensures
        patch_lines(gs, acc) == full_lines(gs),
    decreases gs.len(),
{
    if gs.len() > 0 {
        let init = gs.drop_last();
        let f = gs.last();
        assert forall|k: int| 0 <= k < init.len() implies accepted_indices(
            acc,
            (#[trigger] init[k]).path,
        ) == index_range(init[k].hunks.len()) by {
            assert(init[k] == gs[k]);
        }
        lemma_patch_is_full(init, acc);
        assert(accepted_indices(acc, gs[gs.len() - 1].path) == index_range(
            gs[gs.len() - 1].hunks.len(),
        ));
        let n = f.hunks.len();
        if n > 0 {
            lemma_selected_range(f, n);
            assert(f.hunks.take(n as int) =~= f.hunks);
            assert(index_range(n).len() == n);
        } else {
            assert(index_range(n) =~= Seq::<int>::empty());
        }
    }
}

proof fn lemma_marked_plain(l: DiffLineView)
    requires
        plain_line(l.content),
    ensures
        plain_line(marked_line(l)),
{
    let m = marked_line(l);
    assert(m =~= seq![line_marker_of(l)] + l.content);
    assert forall|j: int| 0 <= j < m.len() implies m[j] != '\n' by {
        if j > 0 {
            assert(m[j] == l.content[j - 1]);
        }
    }
    if l.content.len() > 0 {
        assert(m.last() == l.content.last());
    }
}

proof fn lemma_hunk_lines_plain(h: DiffHunkView)
    requires
        rereadable_hunk(h),
    ensures
        forall|i: int| 0 <= i < hunk_lines(h).len() ==> plain_line(#[trigger] hunk_lines(h)[i]),
{
    assert forall|i: int| 0 <= i < hunk_lines(h).len() implies plain_line(#[trigger] hunk_lines(h)[i]) by {
        if i > 0 {
            let l = h.lines[i - 1];
            assert(rereadable_line(l));
            assert(hunk_lines(h)[i] == marked_line(l));
            lemma_marked_plain(l);
        }
    }
}

proof fn lemma_hunks_lines_plain(hs: Seq<DiffHunkView>)
    requires
        forall|k: int| 0 <= k < hs.len() ==> rereadable_hunk(#[trigger] hs[k]),
    ensures
        forall|i: int| 0 <= i < hunks_lines(hs).len() ==> plain_line(#[trigger] hunks_lines(hs)[i]),
    decreases hs.len(),
{
    if hs.len() > 0 {
        let init = hs.drop_last();
        assert forall|k: int| 0 <= k < init.len() implies rereadable_hunk(#[trigger] init[k]) by {
            assert(init[k] == hs[k]);
        }
        lemma_hunks_lines_plain(init);
        assert(rereadable_hunk(hs[hs.len() - 1]));
        lemma_hunk_lines_plain(hs.last());
        let a = hunks_lines(init);
        let b = hunk_lines(hs.last());
        assert forall|i: int| 0 <= i < hunks_lines(hs).len() implies plain_line(#[trigger] hunks_lines(hs)[i]) by {
            if i < a.len() {
                assert(hunks_lines(hs)[i] == a[i]);
            } else {
                assert(hunks_lines(hs)[i] == b[i - a.len()]);
            }
        }
    }
}

proof fn lemma_git_line_no_newline(p: Seq<char>)
    requires
        no_newline(p),
    ensures
        no_newline(git_line(p)),
{
    reveal_strlit("diff --git a/");
    reveal_strlit(" b/");
    let g = git_line(p);
    let n = p.len() as int;
    assert forall|j: int| 0 <= j < g.len() implies g[j] != '\n' by {
        if 13 <= j < 13 + n {
            assert(g[j] == p[j - 13]);
        } else if 16 + n <= j {
            assert(g[j] == p[j - 16 - n]);
        }
    }
}

/// The lines `str::lines` gives back from the patch that keeps every hunk
/// of `fs`: a `diff --git` line loses one trailing carriage return, which a
/// path may end in.
pub open spec fn reread_lines(fs: Seq<DiffFileView>) -> Seq<Seq<char>>
    decreases fs.len(),
{
    if fs.len() == 0 {
        seq![]
    } else {
        reread_lines(fs.drop_last()) + if fs.last().hunks.len() > 0 {
            seq![without_cr(git_line(fs.last().path))] + hunks_lines(fs.last().hunks)
        } else {
            seq![]
        }
    }
}

proof fn lemma_map_cr_concat(a: Seq<Seq<char>>, b: Seq<Seq<char>>)
    ensures
        (a + b).map_values(|l: Seq<char>| without_cr(l)) == a.map_values(|l: Seq<char>| without_cr(l))
            + b.map_values(|l: Seq<char>| without_cr(l)),
{
    assert((a + b).map_values(|l: Seq<char>| without_cr(l)) =~= a.map_values(
        |l: Seq<char>| without_cr(l),
    ) + b.map_values(|l: Seq<char>| without_cr(l)));
}

proof fn lemma_full_lines_reread(fs: Seq<DiffFileView>)
    requires
        forall|k: int| 0 <= k < fs.len() ==> rereadable_file(#[trigger] fs[k]),
    ensures
        forall|i: int| 0 <= i < full_lines(fs).len() ==> no_newline(#[trigger] full_lines(fs)[i]),
        full_lines(fs).map_values(|l: Seq<char>| without_cr(l)) == reread_lines(fs),
    decreases fs.len(),
{
    if fs.len() > 0 {
        let init = fs.drop_last();
        let f = fs.last();
        assert(rereadable_file(fs[fs.len() - 1]));
        assert forall|k: int| 0 <= k < init.len() implies rereadable_file(#[trigger] init[k]) by {
            assert(init[k] == fs[k]);
        }
        lemma_full_lines_reread(init);
        let a = full_lines(init);
        if f.hunks.len() > 0 {
            lemma_hunks_lines_plain(f.hunks);
            lemma_git_line_no_newline(f.path);
            let hl = hunks_lines(f.hunks);
            let b = seq![git_line(f.path)] + hl;
            assert forall|i: int| 0 <= i < full_lines(fs).len() implies no_newline(#[trigger] full_lines(fs)[i]) by {
                if i < a.len() {
                    assert(full_lines(fs)[i] == a[i]);
                } else if i == a.len() {
                    assert(full_lines(fs)[i] == git_line(f.path));
                } else {
                    assert(full_lines(fs)[i] == hl[i - a.len() - 1]);
                    assert(plain_line(hl[i - a.len() - 1]));
                }
            }
            lemma_map_cr_concat(a, b);
            assert(b.map_values(|l: Seq<char>| without_cr(l)) =~= seq![without_cr(git_line(f.path))] + hl) by {
                assert forall|i: int| 0 <= i < hl.len() implies without_cr(#[trigger] hl[i]) == hl[i] by {
                    assert(plain_line(hl[i]));
                }
            }
        } else {
            assert(full_lines(fs) =~= a);
            assert(reread_lines(fs) =~= reread_lines(init));
        }
    }
}

/// Re-parsing the patch that keeps every hunk of some files gives back
/// those of the files that have hunks, field by field, when each file reads
/// back as itself (`rereadable_file`) and no two files share a path.
pub proof fn full_patch_parses_back(fs: Seq<DiffFileView>)
    requires
        forall|k: int| 0 <= k < fs.len() ==> rereadable_file(#[trigger] fs[k]),
        forall|a: int, b: int| 0 <= a < b < fs.len() ==> (#[trigger] fs[a]).path != (#[trigger] fs[b]).path,
    ensures
        parsed_diff(partial_patch(fs, all_refs(fs))) == with_hunks(fs),
{
    let acc = all_refs(fs);
    assert forall|k: int| 0 <= k < fs.len() implies accepted_indices(acc, (#[trigger] fs[k]).path)
        == index_range(fs[k].hunks.len()) by {
        lemma_accepted_all(fs, k);
    }
    lemma_patch_is_full(fs, acc);
    lemma_full_lines_reread(fs);
    patch_lines_split_back(fs, acc);
    lemma_read_from_initial(reread_lines(fs));
    lemma_read_full(fs);
}

// ---------------------------------------------------------------------------
// Parsed files read back as themselves
// ---------------------------------------------------------------------------

/// What the reader keeps true while it reads lines that hold no line break
/// and do not end in a carriage return: finished and open files read back
/// as themselves, and the open hunk is numbered from its header with the
/// reader's line numbers just past its lines.
pub open spec fn reader_ok(st: DiffReadState) -> bool {
    &&& forall|k: int| 0 <= k < st.files.len() ==> rereadable_file(#[trigger] st.files[k])
    &&& st.file matches Some(f) ==> rereadable_file(f)
    &&& st.hunk matches Some(h) ==> {
        &&& rereadable_hunk(h)
        &&& st.old_line == h.old_start + old_advance(h.lines)
        &&& st.new_line == h.new_start + new_advance(h.lines)
    }
}

proof fn lemma_close_ok(st: DiffReadState)
    requires
        reader_ok(st),
    ensures
        reader_ok(close_hunk(st)),
        reader_ok(close_file(close_hunk(st))),
{
    let c = close_hunk(st);
    if let (Some(h), Some(f)) = (st.hunk, st.file) {
        let f2 = DiffFileView { hunks: f.hunks.push(h), ..f };
        assert forall|k: int| 0 <= k < f2.hunks.len() implies rereadable_hunk(#[trigger] f2.hunks[k]) by {
            if k < f.hunks.len() {
                assert(f2.hunks[k] == f.hunks[k]);
            }
        }
    }
    let d = close_file(c);
    if let Some(f) = c.file {
        assert forall|k: int| 0 <= k < d.files.len() implies rereadable_file(#[trigger] d.files[k]) by {
            if k < c.files.len() {
                assert(d.files[k] == c.files[k]);
            }
        }
    }
}

proof fn lemma_split_pieces(s: Seq<char>, c: char, from: int)
    requires
        0 <= from <= s.len(),
        no_newline(s),
    ensures
        forall|k: int, j: int|
            0 <= k < split_from(s, c, from).len() && 0 <= j < split_from(s, c, from)[k].len()
                ==> #[trigger] split_from(s, c, from)[k][j] != c,
        forall|k: int|
            0 <= k < split_from(s, c, from).len() ==> no_newline(#[trigger] split_from(s, c, from)[k]),
    decreases s.len() - from,
{
    lemma_next_char_bounds(s, c, from);
    let n = next_char(s, c, from);
    assert forall|j: int| from <= j < n implies s[j] != c by {
        lemma_next_char_before(s, c, from, j);
    }
    let piece = if n >= s.len() {
        s.subrange(from, s.len() as int)
    } else {
        s.subrange(from, n)
    };
    let ps = split_from(s, c, from);
    if n < s.len() {
        lemma_split_pieces(s, c, n + 1);
        let rest = split_from(s, c, n + 1);
        assert(ps == seq![piece] + rest);
        assert forall|k: int, j: int| 0 <= k < ps.len() && 0 <= j < ps[k].len() implies #[trigger] ps[k][j]
            != c by {
            if k > 0 {
                assert(ps[k] == rest[k - 1]);
            }
        }
        assert forall|k: int| 0 <= k < ps.len() implies no_newline(#[trigger] ps[k]) by {
            if k > 0 {
                assert(ps[k] == rest[k - 1]);
            }
        }
    } else {
        assert(ps == seq![piece]);
    }
}

proof fn lemma_next_char_before(s: Seq<char>, c: char, from: int, j: int)
    requires
        0 <= from <= j < next_char(s, c, from),
        next_char(s, c, from) <= s.len(),
    ensures
        s[j] != c,
    decreases j - from,
{
    if j > from {
        lemma_next_char_before(s, c, from + 1, j);
    }
}

proof fn lemma_trim_all(s: Seq<char>, p: Seq<char>)
    requires
        p.len() > 0,
    ensures
        !has_prefix(trim_prefix_all(s, p), p),
        exists|a: int|
            0 <= a <= s.len() && trim_prefix_all(s, p) == #[trigger] s.subrange(a, s.len() as int),
    decreases s.len(),
{
    if has_prefix(s, p) {
        let t = s.subrange(p.len() as int, s.len() as int);
        lemma_trim_all(t, p);
        let a = choose|a: int| 0 <= a <= t.len() && trim_prefix_all(t, p) == #[trigger] t.subrange(a, t.len() as int);
        assert(t.subrange(a, t.len() as int) =~= s.subrange(a + p.len(), s.len() as int));
    } else {
        assert(s.subrange(0, s.len() as int) =~= s);
    }
}

proof fn lemma_path_ok(line: Seq<char>)
    requires
        no_newline(line),
    ensures
        no_newline(file_path_of(line)),
        forall|j: int| 0 <= j < file_path_of(line).len() ==> file_path_of(line)[j] != ' ',
        !has_prefix(file_path_of(line), "a/"@),
{
    reveal_strlit("a/");
    let pieces = split_char(line, ' ');
    lemma_split_pieces(line, ' ', 0);
    let piece = if pieces.len() > 2 {
        pieces[2]
    } else {
        seq![]
    };
    if pieces.len() > 2 {
        assert(no_newline(pieces[2]));
        assert forall|j: int| 0 <= j < piece.len() implies piece[j] != ' ' by {
            assert(pieces[2][j] != ' ');
        }
    }
    lemma_trim_all(piece, "a/"@);
    let r = trim_prefix_all(piece, "a/"@);
    let a = choose|a: int| 0 <= a <= piece.len() && r == #[trigger] piece.subrange(a, piece.len() as int);
    assert forall|j: int| 0 <= j < r.len() implies r[j] != ' ' && r[j] != '\n' by {
        assert(r[j] == piece[a + j]);
    }
}

proof fn lemma_line_ok(st: DiffReadState, line: Seq<char>, t: DiffLineType)
    requires
        reader_ok(st),
        plain_line(line),
        line.len() >= 1,
        t == DiffLineType::Addition ==> line[0] == '+' && !has_prefix(line, "+++"@),
        t == DiffLineType::Deletion ==> line[0] == '-' && !has_prefix(line, "---"@),
    ensures
        reader_ok(add_line(st, line, t)),
{
    if let Some(h) = st.hunk {
        let r = add_line(st, line, t);
        let content = line.subrange(1, line.len() as int);
        let l = r.hunk->0.lines.last();
        let ls = h.lines;
        let ls2 = ls.push(l);
        assert(r.hunk->0.lines == ls2);
        assert(line =~= seq![line[0]] + content);
        reveal_strlit("+++");
        reveal_strlit("---");
        reveal_strlit("++");
        reveal_strlit("--");
        lemma_cons_prefix(line[0], content, "+++"@);
        lemma_cons_prefix(line[0], content, "---"@);
        assert("+++"@.subrange(1, 3) =~= "++"@);
        assert("---"@.subrange(1, 3) =~= "--"@);
        assert forall|j: int| 0 <= j < content.len() implies content[j] != '\n' by {
            assert(content[j] == line[j + 1]);
        }
        if content.len() > 0 {
            assert(content.last() == line.last());
        }
        assert(rereadable_line(l));
        assert(ls2.drop_last() =~= ls);
        assert forall|k: int| 0 <= k < ls2.len() implies {
            &&& (#[trigger] ls2[k]).old_line == (if ls2[k].line_type != DiffLineType::Addition {
                Some(h.old_start + old_advance(ls2.take(k)))
            } else {
                None
            })
            &&& ls2[k].new_line == (if ls2[k].line_type != DiffLineType::Deletion {
                Some(h.new_start + new_advance(ls2.take(k)))
            } else {
                None
            })
        } by {
            if k < ls.len() {
                assert(ls2[k] == ls[k]);
                assert(ls2.take(k) =~= ls.take(k));
            } else {
                assert(ls2.take(k) =~= ls);
            }
        }
        let h2 = r.hunk->0;
        assert forall|k: int| 0 <= k < h2.lines.len() implies rereadable_line(#[trigger] h2.lines[k]) by {
            if k < ls.len() {
                assert(h2.lines[k] == ls[k]);
            }
        }
    }
}

proof fn lemma_read_line_ok(st: DiffReadState, line: Seq<char>)
    requires
        reader_ok(st),
        plain_line(line),
    ensures
        reader_ok(read_diff_line(st, line)),
{
    lemma_close_ok(st);
    reveal_strlit("+");
    reveal_strlit("-");
    reveal_strlit(" ");
    if has_prefix(line, "diff --git"@) {
        assert(no_newline(line));
        lemma_path_ok(line);
    } else if has_prefix(line, "@@ "@) {
        let parts = split_char(line, ' ');
        if parts.len() >= 4 {
            let h = read_diff_line(st, line).hunk->0;
            assert(h.lines =~= Seq::<DiffLineView>::empty());
            assert(old_advance(h.lines) == 0);
            assert(new_advance(h.lines) == 0);
        }
    } else if has_prefix(line, "+"@) && !has_prefix(line, "+++"@) {
        assert(line.subrange(0, 1)[0] == line[0]);
        lemma_line_ok(st, line, DiffLineType::Addition);
    } else if has_prefix(line, "-"@) && !has_prefix(line, "---"@) {
        assert(line.subrange(0, 1)[0] == line[0]);
        lemma_line_ok(st, line, DiffLineType::Deletion);
    } else if has_prefix(line, " "@) {
        lemma_line_ok(st, line, DiffLineType::Context);
    }
}

proof fn lemma_read_lines_ok(ls: Seq<Seq<char>>)
    requires
        forall|i: int| 0 <= i < ls.len() ==> plain_line(#[trigger] ls[i]),
    ensures
        reader_ok(read_diff_lines(ls)),
    decreases ls.len(),
{
    if ls.len() > 0 {
        let init = ls.drop_last();
        assert forall|i: int| 0 <= i < init.len() implies plain_line(#[trigger] init[i]) by {
            assert(init[i] == ls[i]);
        }
        lemma_read_lines_ok(init);
        assert(plain_line(ls[ls.len() - 1]));
        lemma_read_line_ok(read_diff_lines(init), ls.last());
    }
}

proof fn lemma_lines_no_newline(s: Seq<char>, from: int)
    requires
        0 <= from <= s.len(),
    ensures
        forall|i: int|
            0 <= i < lines_from(s, from).len() ==> no_newline(#[trigger] lines_from(s, from)[i]),
    decreases s.len() - from,
{
    if from < s.len() {
        lemma_next_newline_bounds(s, from);
        let nl = next_newline(s, from);
        let end = if nl < s.len() {
            nl + 1
        } else {
            nl
        };
        lemma_lines_no_newline(s, end);
        let piece = s.subrange(from, end);
        let first = strip_line_end(piece);
        assert(first.len() <= nl - from && forall|j: int| 0 <= j < first.len() ==> first[j] == s[from + j]) by {
            if nl < s.len() {
                assert(piece.last() == '\n');
                let l = piece.drop_last();
                assert(l =~= s.subrange(from, nl));
            } else {
                assert(first == piece);
            }
        }
        assert forall|j: int| 0 <= j < first.len() implies first[j] != '\n' by {
            assert(first[j] == s[from + j]);
        }
        let rest = lines_from(s, end);
        assert(lines_from(s, from) == seq![first] + rest);
        assert forall|i: int| 0 <= i < lines_from(s, from).len() implies no_newline(
            #[trigger] lines_from(s, from)[i],
        ) by {
            if i > 0 {
                assert(lines_from(s, from)[i] == rest[i - 1]);
            }
        }
    }
}

/// No line of `d`, as `str::lines` gives it, ends in a carriage return.
pub open spec fn no_line_ends_in_cr(d: Seq<char>) -> bool {
    forall|i: int| 0 <= i < lines(d).len() ==> !((#[trigger] lines(d)[i]).len() > 0 && lines(d)[i].last() == '\r')
}

/// The files parsed from a diff none of whose lines ends in a carriage
/// return each read back as themselves from their patch lines.
pub proof fn parsed_files_reread(d: Seq<char>)
    requires
        no_line_ends_in_cr(d),
    ensures
        forall|k: int| 0 <= k < parsed_diff(d).len() ==> rereadable_file(#[trigger] parsed_diff(d)[k]),
{
    lemma_lines_no_newline(d, 0);
    assert forall|i: int| 0 <= i < lines(d).len() implies plain_line(#[trigger] lines(d)[i]) by {
        assert(no_newline(lines(d)[i]));
    }
    lemma_read_lines_ok(lines(d));
    lemma_close_ok(read_diff(d));
}

/// Re-parsing the patch that keeps every hunk of a parsed diff gives back
/// the parsed files that have hunks, field by field (path, status, each
/// hunk's header, starts and counts, each line's type, content and line
/// numbers), when no line of the diff ends in a carriage return and no two
/// parsed files share a path; the patch that keeps no hunk is empty.
pub proof fn full_partial_patch_reparses(d: Seq<char>)
    requires
        no_line_ends_in_cr(d),
        forall|a: int, b: int|
            0 <= a < b < parsed_diff(d).len() ==> (#[trigger] parsed_diff(d)[a]).path != (
            #[trigger] parsed_diff(d)[b]).path,
    ensures
        parsed_diff(partial_patch(parsed_diff(d), all_refs(parsed_diff(d)))) == with_hunks(
            parsed_diff(d),
        ),
        partial_patch(parsed_diff(d), seq![]) == Seq::<char>::empty(),
{
    parsed_files_reread(d);
    full_patch_parses_back(parsed_diff(d));
    partial_patch_of_nothing(parsed_diff(d));
}

} // verus!
