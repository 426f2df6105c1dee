//! Diff, review and apply pipeline: unified diffs are parsed into files,
//! hunks and lines; review selection stays non-destructive until apply, and
//! a partial patch is rebuilt from the accepted hunks only.

use vstd::prelude::*;
use crate::text::{
    chars_of, copy_string, has_prefix, lines, owned, parse_unsigned, parse_unsigned_chars,
    push_char, push_str, split_char, split_lines, split_on, starts_with, string_of,
    strings_view, suffix_from, trim_prefix_all, trim_prefix_repeated, joined,
    lemma_joined_concat, lemma_lines_of_joined_cr, no_newline, without_cr,
};

verus! {

/// Errors of the review pipeline.
#[derive(Debug, Clone)]
pub enum ReviewError {
    Inner(String),
    Conflict(String),
    AgentNotFound(u64),
}

/// The message of an error, as `Display` writes it.
pub open spec fn review_error_text(e: ReviewError) -> Seq<char> {
    match e {
        ReviewError::Inner(s) => "review error: "@ + s@,
        ReviewError::Conflict(s) => "conflict detected: "@ + s@,
        ReviewError::AgentNotFound(n) => "agent not found: "@ + crate::text::decimal(n as int),
    }
}

impl ReviewError {
    /// The error's message.
    pub fn to_text(&self) -> (r: String)
        ensures
            r@ == review_error_text(*self),
    {
        match self {
            ReviewError::Inner(s) => crate::text::concat("review error: ", s.as_str()),
            ReviewError::Conflict(s) => crate::text::concat("conflict detected: ", s.as_str()),
            ReviewError::AgentNotFound(n) => {
                let d = crate::text::u64_to_decimal(*n);
                crate::text::concat("agent not found: ", d.as_str())
            },
        }
    }
}

/// Kind of a line inside a hunk.
#[derive(Debug, Clone, Copy, PartialEq, Eq, Structural)]
pub enum DiffLineType {
    Context,
    Addition,
    Deletion,
}

/// One line of a hunk, with its line numbers on each side.
#[derive(Debug, Clone)]
pub struct DiffLine {
    pub line_type: DiffLineType,
    pub content: String,
    pub old_line: Option<u32>,
    pub new_line: Option<u32>,
}

/// One hunk of a file diff.
#[derive(Debug, Clone)]
pub struct DiffHunk {
    pub header: String,
    pub old_start: u32,
    pub old_count: u32,
    pub new_start: u32,
    pub new_count: u32,
    pub lines: Vec<DiffLine>,
}

/// The diff of one file.
#[derive(Debug, Clone)]
pub struct DiffFile {
    pub path: String,
    pub status: String,
    pub hunks: Vec<DiffHunk>,
}

/// A reference to one hunk of one file.
#[derive(Debug, Clone)]
pub struct HunkRef {
    pub file: String,
    pub hunk_index: usize,
}

/// The review state of an agent's changes.
#[derive(Debug, Clone)]
pub struct ReviewSet {
    pub agent_id: u64,
    pub base_revision: String,
    pub files: Vec<DiffFile>,
    pub accepted_files: Vec<String>,
    pub accepted_hunks: Vec<HunkRef>,
}

/// How accepted work is brought into the primary tree.
#[derive(Debug, Clone, Copy, PartialEq, Eq, Structural)]
pub enum ApplyStrategy {
    Patch,
    CherryPick,
    Merge,
}

/// A request to apply reviewed work.
#[derive(Debug, Clone)]
pub struct ApplyRequest {
    pub agent_id: u64,
    pub strategy: ApplyStrategy,
    pub accepted_files: Vec<String>,
    pub accepted_hunks: Vec<HunkRef>,
    pub auto_commit: bool,
}

// ---------------------------------------------------------------------------
// Mathematical model
// ---------------------------------------------------------------------------

pub struct DiffLineView {
    pub line_type: DiffLineType,
    pub content: Seq<char>,
    pub old_line: Option<int>,
    pub new_line: Option<int>,
}

pub struct DiffHunkView {
    pub header: Seq<char>,
    pub old_start: int,
    pub old_count: int,
    pub new_start: int,
    pub new_count: int,
    pub lines: Seq<DiffLineView>,
}

pub struct DiffFileView {
    pub path: Seq<char>,
    pub status: Seq<char>,
    pub hunks: Seq<DiffHunkView>,
}

pub open spec fn opt_int(o: Option<u32>) -> Option<int> {
    match o {
        Some(v) => Some(v as int),
        None => None,
    }
}

impl View for DiffLine {
    type V = DiffLineView;

    open spec fn view(&self) -> DiffLineView {
        DiffLineView {
            line_type: self.line_type,
            content: self.content@,
            old_line: opt_int(self.old_line),
            new_line: opt_int(self.new_line),
        }
    }
}

pub open spec fn lines_view(s: Seq<DiffLine>) -> Seq<DiffLineView> {
    s.map_values(|l: DiffLine| l@)
}

impl View for DiffHunk {
    type V = DiffHunkView;

    open spec fn view(&self) -> DiffHunkView {
        DiffHunkView {
            header: self.header@,
            old_start: self.old_start as int,
            old_count: self.old_count as int,
            new_start: self.new_start as int,
            new_count: self.new_count as int,
            lines: lines_view(self.lines@),
        }
    }
}

pub open spec fn hunks_view(s: Seq<DiffHunk>) -> Seq<DiffHunkView> {
    s.map_values(|h: DiffHunk| h@)
}

impl View for DiffFile {
    type V = DiffFileView;

    open spec fn view(&self) -> DiffFileView {
        DiffFileView { path: self.path@, status: self.status@, hunks: hunks_view(self.hunks@) }
    }
}

pub open spec fn files_view(s: Seq<DiffFile>) -> Seq<DiffFileView> {
    s.map_values(|f: DiffFile| f@)
}

pub open spec fn opt_hunk_view(o: Option<DiffHunk>) -> Option<DiffHunkView> {
    match o {
        Some(h) => Some(h@),
        None => None,
    }
}

pub open spec fn opt_file_view(o: Option<DiffFile>) -> Option<DiffFileView> {
    match o {
        Some(f) => Some(f@),
        None => None,
    }
}

/// The state of the unified-diff reader after a prefix of the lines: the
/// finished files, the file and hunk being read, the line numbers the next
/// line of each side gets, and whether a line was ever numbered past
/// `u32::MAX`.
pub struct DiffReadState {
    pub files: Seq<DiffFileView>,
    pub file: Option<DiffFileView>,
    pub hunk: Option<DiffHunkView>,
    pub old_line: int,
    pub new_line: int,
    pub overflow: bool,
}

pub open spec fn initial_read_state() -> DiffReadState {
    DiffReadState {
        files: seq![],
        file: None,
        hunk: None,
        old_line: 0,
        new_line: 0,
        overflow: false,
    }
}

/// The hunk being read is closed: it joins the file being read, if any.
pub open spec fn close_hunk(st: DiffReadState) -> DiffReadState {
    let file = match (st.hunk, st.file) {
        (Some(h), Some(f)) => Some(DiffFileView { hunks: f.hunks.push(h), ..f }),
        _ => st.file,
    };
    DiffReadState { file, hunk: None, ..st }
}

/// The file being read is closed: it joins the finished files, if any.
pub open spec fn close_file(st: DiffReadState) -> DiffReadState {
    let files = match st.file {
        Some(f) => st.files.push(f),
        None => st.files,
    };
    DiffReadState { files, file: None, ..st }
}

/// Start and count of one side of a hunk header (`-12,3` or `+12`): a
/// missing or unreadable start is 0, a missing or unreadable count is 1.
pub open spec fn header_range(part: Seq<char>, sign: char) -> (int, int) {
    let pieces = split_char(trim_prefix_all(part, seq![sign]), ',');
    let start = match parse_unsigned(pieces[0], u32::MAX as nat) {
        Some(v) => v as int,
        None => 0,
    };
    let count = if pieces.len() > 1 {
        match parse_unsigned(pieces[1], u32::MAX as nat) {
            Some(v) => v as int,
            None => 1,
        }
    } else {
        1
    };
    (start, count)
}

/// The path named by a `diff --git a/x b/x` line: its third space-separated
/// piece with leading `a/` removed.
pub open spec fn file_path_of(line: Seq<char>) -> Seq<char> {
    let pieces = split_char(line, ' ');
    trim_prefix_all(
        if pieces.len() > 2 {
            pieces[2]
        } else {
            seq![]
        },
        "a/"@,
    )
}

/// A content line of kind `t` joins the hunk being read, if any. It is
/// numbered with the current line number of each side it belongs to, and
/// those line numbers then advance by one; numbering a line past
/// `u32::MAX` is an overflow.
pub open spec fn add_line(st: DiffReadState, line: Seq<char>, t: DiffLineType) -> DiffReadState {
    match st.hunk {
        None => st,
        Some(h) => {
            let on_old = t != DiffLineType::Addition;
            let on_new = t != DiffLineType::Deletion;
            let l = DiffLineView {
                line_type: t,
                content: line.subrange(1, line.len() as int),
                old_line: if on_old {
                    Some(st.old_line)
                } else {
                    None
                },
                new_line: if on_new {
                    Some(st.new_line)
                } else {
                    None
                },
            };
            DiffReadState {
                hunk: Some(DiffHunkView { lines: h.lines.push(l), ..h }),
                old_line: if on_old {
                    st.old_line + 1
                } else {
                    st.old_line
                },
                new_line: if on_new {
                    st.new_line + 1
                } else {
                    st.new_line
                },
                overflow: st.overflow || (on_old && st.old_line > u32::MAX) || (on_new
                    && st.new_line > u32::MAX),
                ..st
            }
        },
    }
}

/// One line of a unified diff read in state `st`.
pub open spec fn read_diff_line(st: DiffReadState, line: Seq<char>) -> DiffReadState {
    if has_prefix(line, "diff --git"@) {
        let st1 = close_file(close_hunk(st));
        DiffReadState {
            file: Some(
                DiffFileView { path: file_path_of(line), status: "modified"@, hunks: seq![] },
            ),
            ..st1
        }
    } else if has_prefix(line, "@@ "@) {
        let st1 = close_hunk(st);
        let parts = split_char(line, ' ');
        if parts.len() >= 4 {
            let old = header_range(parts[1], '-');
            let new = header_range(parts[2], '+');
            DiffReadState {
                hunk: Some(
                    DiffHunkView {
                        header: line,
                        old_start: old.0,
                        old_count: old.1,
                        new_start: new.0,
                        new_count: new.1,
                        lines: seq![],
                    },
                ),
                old_line: old.0,
                new_line: new.0,
                ..st1
            }
        } else {
            st1
        }
    } else if has_prefix(line, "+"@) && !has_prefix(line, "+++"@) {
        add_line(st, line, DiffLineType::Addition)
    } else if has_prefix(line, "-"@) && !has_prefix(line, "---"@) {
        add_line(st, line, DiffLineType::Deletion)
    } else if has_prefix(line, " "@) {
        add_line(st, line, DiffLineType::Context)
    } else {
        st
    }
}

/// The reader state after the lines `ls`.
pub open spec fn read_diff_lines(ls: Seq<Seq<char>>) -> DiffReadState
    decreases ls.len(),
{
    if ls.len() == 0 {
        initial_read_state()
    } else {
        read_diff_line(read_diff_lines(ls.drop_last()), ls.last())
    }
}

/// The reader state after all lines of `diff`.
pub open spec fn read_diff(diff: Seq<char>) -> DiffReadState {
    read_diff_lines(lines(diff))
}

/// The files of a unified diff: the reader's files once the last hunk and
/// the last file are closed.
pub open spec fn parsed_diff(diff: Seq<char>) -> Seq<DiffFileView> {
    close_file(close_hunk(read_diff(diff))).files
}

/// Reading a line never clears an overflow.
proof fn lemma_overflow_sticks(ls: Seq<Seq<char>>, k: int)
    requires
        0 <= k <= ls.len(),
        read_diff_lines(ls.subrange(0, k)).overflow,
    ensures
        read_diff_lines(ls).overflow,
    decreases ls.len() - k,
{
    if k < ls.len() {
        let p = ls.subrange(0, k + 1);
        assert(p.drop_last() =~= ls.subrange(0, k));
        lemma_overflow_sticks(ls, k + 1);
    } else {
        assert(ls.subrange(0, k) =~= ls);
    }
}

// ---------------------------------------------------------------------------
// Partial patches
// ---------------------------------------------------------------------------

pub struct HunkRefView {
    pub file: Seq<char>,
    pub hunk_index: int,
}

impl View for HunkRef {
    type V = HunkRefView;

    open spec fn view(&self) -> HunkRefView {
        HunkRefView { file: self.file@, hunk_index: self.hunk_index as int }
    }
}

pub open spec fn hunk_refs_view(s: Seq<HunkRef>) -> Seq<HunkRefView> {
    s.map_values(|h: HunkRef| h@)
}

pub open spec fn line_marker(t: DiffLineType) -> char {
    match t {
        DiffLineType::Addition => '+',
        DiffLineType::Deletion => '-',
        DiffLineType::Context => ' ',
    }
}

/// A hunk line as a patch writes it: its marker, its content, a newline.
pub open spec fn line_text(l: DiffLineView) -> Seq<char> {
    seq![line_marker(l.line_type)] + l.content + seq!['\n']
}

pub open spec fn lines_text(ls: Seq<DiffLineView>) -> Seq<char>
    decreases ls.len(),
{
    if ls.len() == 0 {
        seq![]
    } else {
        lines_text(ls.drop_last()) + line_text(ls.last())
    }
}

/// A hunk as a patch writes it: its header line, then its lines.
pub open spec fn hunk_text(h: DiffHunkView) -> Seq<char> {
    h.header + seq!['\n'] + lines_text(h.lines)
}

/// The indices of the accepted hunks that belong to `path`, in the order
/// in which they were accepted.
pub open spec fn accepted_indices(accepted: Seq<HunkRefView>, path: Seq<char>) -> Seq<int>
    decreases accepted.len(),
{
    if accepted.len() == 0 {
        seq![]
    } else {
        let rest = accepted_indices(accepted.drop_last(), path);
        if accepted.last().file == path {
            rest.push(accepted.last().hunk_index)
        } else {
            rest
        }
    }
}

/// The text of the hunks of `f` at `idxs`; an index past the last hunk
/// contributes nothing.
pub open spec fn selected_hunks_text(f: DiffFileView, idxs: Seq<int>) -> Seq<char>
    decreases idxs.len(),
{
    if idxs.len() == 0 {
        seq![]
    } else {
        let i = idxs.last();
        selected_hunks_text(f, idxs.drop_last()) + if 0 <= i < f.hunks.len() {
            hunk_text(f.hunks[i])
        } else {
            seq![]
        }
    }
}

/// The part of the patch for one file: nothing when no hunk of it is
/// accepted, else its `diff --git` header and its accepted hunks.
pub open spec fn file_patch(f: DiffFileView, accepted: Seq<HunkRefView>) -> Seq<char> {
    let idxs = accepted_indices(accepted, f.path);
    if idxs.len() == 0 {
        seq![]
    } else {
        "diff --git a/"@ + f.path + " b/"@ + f.path + "\n"@ + selected_hunks_text(f, idxs)
    }
}

/// The patch made of the accepted hunks of `files`, file by file.
pub open spec fn partial_patch(files: Seq<DiffFileView>, accepted: Seq<HunkRefView>) -> Seq<
    char,
>
    decreases files.len(),
{
    if files.len() == 0 {
        seq![]
    } else {
        partial_patch(files.drop_last(), accepted) + file_patch(files.last(), accepted)
    }
}

/// A hunk line as a patch writes it, without its newline.
pub open spec fn marked_line(l: DiffLineView) -> Seq<char> {
    seq![line_marker(l.line_type)] + l.content
}

/// The lines a patch writes for a hunk: its header, then its marked lines.
pub open spec fn hunk_lines(h: DiffHunkView) -> Seq<Seq<char>> {
    seq![h.header] + h.lines.map_values(|l: DiffLineView| marked_line(l))
}

/// The lines of the hunks of `f` at `idxs`.
pub open spec fn selected_lines(f: DiffFileView, idxs: Seq<int>) -> Seq<Seq<char>>
    decreases idxs.len(),
{
    if idxs.len() == 0 {
        seq![]
    } else {
        let i = idxs.last();
        selected_lines(f, idxs.drop_last()) + if 0 <= i < f.hunks.len() {
            hunk_lines(f.hunks[i])
        } else {
            seq![]
        }
    }
}

/// The `diff --git` line a patch writes for a file.
pub open spec fn git_line(path: Seq<char>) -> Seq<char> {
    "diff --git a/"@ + path + " b/"@ + path
}

/// The lines a patch writes for one file.
pub open spec fn file_patch_lines(f: DiffFileView, accepted: Seq<HunkRefView>) -> Seq<Seq<char>> {
    let idxs = accepted_indices(accepted, f.path);
    if idxs.len() == 0 {
        seq![]
    } else {
        seq![git_line(f.path)] + selected_lines(f, idxs)
    }
}

/// The lines of the partial patch of `files`, file by file.
pub open spec fn patch_lines(files: Seq<DiffFileView>, accepted: Seq<HunkRefView>) -> Seq<
    Seq<char>,
>
    decreases files.len(),
{
    if files.len() == 0 {
        seq![]
    } else {
        patch_lines(files.drop_last(), accepted) + file_patch_lines(files.last(), accepted)
    }
}

proof fn lemma_joined_one(x: Seq<char>)
    ensures
        joined(seq![x]) == x + seq!['\n'],
{
    let one = seq![x];
    assert(one.drop_last() =~= Seq::<Seq<char>>::empty());
    assert(joined(one.drop_last()) =~= Seq::<char>::empty());
    assert(one.last() == x);
    assert(joined(one) =~= x + seq!['\n']);
}

proof fn lemma_lines_text_joined(ls: Seq<DiffLineView>)
    ensures
        lines_text(ls) == joined(ls.map_values(|l: DiffLineView| marked_line(l))),
    decreases ls.len(),
{
    if ls.len() > 0 {
        let m = ls.map_values(|l: DiffLineView| marked_line(l));
        assert(ls.drop_last().map_values(|l: DiffLineView| marked_line(l)) =~= m.drop_last());
        lemma_lines_text_joined(ls.drop_last());
        assert(m.last() == marked_line(ls.last()));
        assert(lines_text(ls) =~= joined(m));
    }
}

proof fn lemma_hunk_text_joined(h: DiffHunkView)
    ensures
        hunk_text(h) == joined(hunk_lines(h)),
{
    let m = h.lines.map_values(|l: DiffLineView| marked_line(l));
    lemma_lines_text_joined(h.lines);
    lemma_joined_concat(seq![h.header], m);
    lemma_joined_one(h.header);
    assert(hunk_text(h) =~= joined(hunk_lines(h)));
}

proof fn lemma_selected_joined(f: DiffFileView, idxs: Seq<int>)
    ensures
        selected_hunks_text(f, idxs) == joined(selected_lines(f, idxs)),
    decreases idxs.len(),
{
    if idxs.len() > 0 {
        let i = idxs.last();
        lemma_selected_joined(f, idxs.drop_last());
        let tail = if 0 <= i < f.hunks.len() {
            hunk_lines(f.hunks[i])
        } else {
            seq![]
        };
        lemma_joined_concat(selected_lines(f, idxs.drop_last()), tail);
        if 0 <= i < f.hunks.len() {
            lemma_hunk_text_joined(f.hunks[i]);
        } else {
            assert(joined(tail) =~= Seq::<char>::empty());
        }
        assert(selected_hunks_text(f, idxs) =~= joined(selected_lines(f, idxs)));
    }
}

proof fn lemma_file_patch_joined(f: DiffFileView, accepted: Seq<HunkRefView>)
    ensures
        file_patch(f, accepted) == joined(file_patch_lines(f, accepted)),
{
    let idxs = accepted_indices(accepted, f.path);
    if idxs.len() == 0 {
        assert(joined(file_patch_lines(f, accepted)) =~= Seq::<char>::empty());
    } else {
        reveal_strlit("\n");
        lemma_selected_joined(f, idxs);
        lemma_joined_concat(seq![git_line(f.path)], selected_lines(f, idxs));
        lemma_joined_one(git_line(f.path));
        assert(file_patch(f, accepted) =~= joined(file_patch_lines(f, accepted)));
    }
}

proof fn lemma_partial_patch_joined(files: Seq<DiffFileView>, accepted: Seq<HunkRefView>)
    ensures
        partial_patch(files, accepted) == joined(patch_lines(files, accepted)),
    decreases files.len(),
{
    if files.len() > 0 {
        lemma_partial_patch_joined(files.drop_last(), accepted);
        lemma_file_patch_joined(files.last(), accepted);
        lemma_joined_concat(patch_lines(files.drop_last(), accepted), file_patch_lines(files.last(), accepted));
    }
}

/// Splitting a partial patch into lines gives back, file by file, the
/// `diff --git` line of each file with an accepted hunk followed by each
/// accepted hunk's header and marked lines, each without one trailing
/// carriage return, provided no path, header or line content holds a line
/// break.
pub proof fn patch_lines_split_back(files: Seq<DiffFileView>, accepted: Seq<HunkRefView>)
    requires
        forall|i: int|
            0 <= i < patch_lines(files, accepted).len() ==> no_newline(
                #[trigger] patch_lines(files, accepted)[i],
            ),
    ensures
        lines(partial_patch(files, accepted)) == patch_lines(files, accepted).map_values(
            |l: Seq<char>| without_cr(l),
        ),
{
    lemma_partial_patch_joined(files, accepted);
    lemma_lines_of_joined_cr(patch_lines(files, accepted));
}

/// A partial patch that accepts no hunk is empty.
pub proof fn partial_patch_of_nothing(files: Seq<DiffFileView>)
    ensures
        partial_patch(files, seq![]) == Seq::<char>::empty(),
    decreases files.len(),
{
    if files.len() > 0 {
        partial_patch_of_nothing(files.drop_last());
        assert(accepted_indices(seq![], files.last().path) =~= Seq::<int>::empty());
        assert(partial_patch(files, seq![]) =~= Seq::<char>::empty());
    }
}

/// Some path changed on both sides.
pub open spec fn changes_overlap(primary: Seq<Seq<char>>, agent: Seq<Seq<char>>) -> bool {
    exists|i: int, j: int| 0 <= i < primary.len() && 0 <= j < agent.len() && primary[i] == agent[j]
}

// ---------------------------------------------------------------------------
// The service
// ---------------------------------------------------------------------------

pub struct ReviewService;

impl ReviewService {
    pub fn new() -> (r: Self) {
        ReviewService
    }

    /// Parses a unified diff into structured files, hunks and lines.
    /// Inputs that would number a line past `u32::MAX` are left out: line
    /// numbers are 32-bit and do not wrap. `parse_diff_checked` takes any
    /// input and tells that case apart.
    pub fn parse_diff(&self, diff: &str) -> (r: Vec<DiffFile>)
        requires
            !read_diff(diff@).overflow,
        ensures
            files_view(r@) == parsed_diff(diff@),
    {
        match self.parse_diff_checked(diff) {
            Some(files) => files,
            None => Vec::new(),
        }
    }

    /// Parses a unified diff as `parse_diff` does; `None` exactly when the
    /// diff would number a line past `u32::MAX`.
    pub fn parse_diff_checked(&self, diff: &str) -> (r: Option<Vec<DiffFile>>)
        ensures
            r is None <==> read_diff(diff@).overflow,
            r matches Some(fs) ==> files_view(fs@) == parsed_diff(diff@),
    {
        let chars = chars_of(diff);
        let all = split_lines(chars.as_slice());
        let ghost ls = lines(diff@);
        let diff_git = chars_of("diff --git");
        let at_at = chars_of("@@ ");
        let plus = chars_of("+");
        let plus3 = chars_of("+++");
        let minus = chars_of("-");
        let minus3 = chars_of("---");
        let space = chars_of(" ");
        let mut files: Vec<DiffFile> = Vec::new();
        let mut cur_file: Option<DiffFile> = None;
        let mut cur_hunk: Option<DiffHunk> = None;
        let mut old_line: u64 = 0;
        let mut new_line: u64 = 0;
        let mut i: usize = 0;
        assert(ls.subrange(0, 0) =~= Seq::<Seq<char>>::empty());
        while i < all.len()
            invariant
                all@.map_values(|l: Vec<char>| l@) == ls,
                ls == lines(diff@),
                i <= all@.len(),
                diff_git@ == "diff --git"@,
                at_at@ == "@@ "@,
                plus@ == "+"@,
                plus3@ == "+++"@,
                minus@ == "-"@,
                minus3@ == "---"@,
                space@ == " "@,
                ({
                    let st = read_diff_lines(ls.subrange(0, i as int));
                    &&& files_view(files@) == st.files
                    &&& opt_file_view(cur_file) == st.file
                    &&& opt_hunk_view(cur_hunk) == st.hunk
                    &&& old_line as int == st.old_line
                    &&& new_line as int == st.new_line
                    &&& !st.overflow
                }),
            decreases all@.len() - i,
        {
            proof {
                reveal_strlit("+");
                reveal_strlit("-");
                reveal_strlit(" ");
            }
            let line = &all[i];
            let ghost lv = ls[i as int];
            assert(line@ == lv);
            let ghost st = read_diff_lines(ls.subrange(0, i as int));
            proof {
                assert(ls.subrange(0, i + 1).drop_last() =~= ls.subrange(0, i as int));
                assert(ls.subrange(0, i + 1).last() == lv);
            }
            let ghost next = read_diff_lines(ls.subrange(0, i + 1));
            assert(next == read_diff_line(st, lv));
            if starts_with(line.as_slice(), diff_git.as_slice()) {
                close_hunk_exec(&mut cur_file, &mut cur_hunk);
                if let Some(f) = cur_file.take() {
                    let ghost before = files_view(files@);
                    files.push(f);
                    assert(files_view(files@) =~= before.push(f@));
                }
                let path = path_of_git_line(line.as_slice());
                let status = owned("modified");
                cur_file = Some(DiffFile { path, status, hunks: Vec::new() });
                assert(hunks_view(Seq::<DiffHunk>::empty()) =~= Seq::<DiffHunkView>::empty());
            } else if starts_with(line.as_slice(), at_at.as_slice()) {
                close_hunk_exec(&mut cur_file, &mut cur_hunk);
                let parts = split_on(line.as_slice(), ' ');
                let ghost pv = parts@.map_values(|p: Vec<char>| p@);
                assert(pv == split_char(lv, ' '));
                if parts.len() >= 4 {
                    assert(pv[1] == parts@[1]@);
                    assert(pv[2] == parts@[2]@);
                    let (os, oc) = parse_header_range(parts[1].as_slice(), '-');
                    let (ns, nc) = parse_header_range(parts[2].as_slice(), '+');
                    old_line = os as u64;
                    new_line = ns as u64;
                    cur_hunk = Some(
                        DiffHunk {
                            header: string_of(line.as_slice()),
                            old_start: os,
                            old_count: oc,
                            new_start: ns,
                            new_count: nc,
                            lines: Vec::new(),
                        },
                    );
                    assert(lines_view(Seq::<DiffLine>::empty()) =~= Seq::<DiffLineView>::empty());
                }
            } else if starts_with(line.as_slice(), plus.as_slice()) && !starts_with(
                line.as_slice(),
                plus3.as_slice(),
            ) {
                if !add_line_exec(
                    &mut cur_hunk,
                    &mut old_line,
                    &mut new_line,
                    line.as_slice(),
                    DiffLineType::Addition,
                ) {
                    proof {
                        lemma_overflow_sticks(ls, i + 1);
                    }
                    return None;
                }
            } else if starts_with(line.as_slice(), minus.as_slice()) && !starts_with(
                line.as_slice(),
                minus3.as_slice(),
            ) {
                if !add_line_exec(
                    &mut cur_hunk,
                    &mut old_line,
                    &mut new_line,
                    line.as_slice(),
                    DiffLineType::Deletion,
                ) {
                    proof {
                        lemma_overflow_sticks(ls, i + 1);
                    }
                    return None;
                }
            } else if starts_with(line.as_slice(), space.as_slice()) {
                if !add_line_exec(
                    &mut cur_hunk,
                    &mut old_line,
                    &mut new_line,
                    line.as_slice(),
                    DiffLineType::Context,
                ) {
                    proof {
                        lemma_overflow_sticks(ls, i + 1);
                    }
                    return None;
                }
            }
            i = i + 1;
        }
        assert(ls.subrange(0, i as int) =~= ls);
        close_hunk_exec(&mut cur_file, &mut cur_hunk);
        if let Some(f) = cur_file.take() {
            let ghost before = files_view(files@);
            files.push(f);
            assert(files_view(files@) =~= before.push(f@));
        }
        Some(files)
    }

    /// Whether some path changed in the primary tree was also changed by
    /// the agent.
    pub fn check_conflict(&self, primary_changes: &[String], agent_changes: &[String]) -> (r:
        bool)
        ensures
            r == changes_overlap(strings_view(primary_changes@), strings_view(agent_changes@)),
    {
        let mut i: usize = 0;
        while i < primary_changes.len()
            invariant
                i <= primary_changes@.len(),
                forall|a: int, b: int|
                    0 <= a < i && 0 <= b < agent_changes@.len() ==> primary_changes@[a]@
                        != agent_changes@[b]@,
            decreases primary_changes.len() - i,
        {
            let mut j: usize = 0;
            while j < agent_changes.len()
                invariant
                    i < primary_changes@.len(),
                    j <= agent_changes@.len(),
                    forall|b: int| 0 <= b < j ==> primary_changes@[i as int]@ != agent_changes@[b]@,
                decreases agent_changes.len() - j,
            {
                if primary_changes[i] == agent_changes[j] {
                    proof {
                        let pv = strings_view(primary_changes@);
                        let av = strings_view(agent_changes@);
                        assert(pv[i as int] == av[j as int]);
                    }
                    return true;
                }
                j = j + 1;
            }
            i = i + 1;
        }
        proof {
            let pv = strings_view(primary_changes@);
            let av = strings_view(agent_changes@);
            assert forall|a: int, b: int|
                0 <= a < pv.len() && 0 <= b < av.len() implies pv[a] != av[b] by {
                assert(pv[a] == primary_changes@[a]@);
                assert(av[b] == agent_changes@[b]@);
            }
        }
        false
    }

    /// Builds a patch from the accepted hunks only: for each file with at
    /// least one accepted hunk, its `diff --git` header and then each
    /// accepted hunk (header line and marked lines) in acceptance order.
    pub fn build_partial_patch(&self, files: &[DiffFile], accepted_hunks: &[HunkRef]) -> (r:
        String)
        ensures
            r@ == partial_patch(files_view(files@), hunk_refs_view(accepted_hunks@)),
    {
        let mut patch = String::new();
        let ghost fv = files_view(files@);
        let ghost av = hunk_refs_view(accepted_hunks@);
        let mut i: usize = 0;
        assert(fv.subrange(0, 0) =~= Seq::<DiffFileView>::empty());
        while i < files.len()
            invariant
                i <= files@.len(),
                fv == files_view(files@),
                av == hunk_refs_view(accepted_hunks@),
                patch@ == partial_patch(fv.subrange(0, i as int), av),
            decreases files.len() - i,
        {
            let file = &files[i];
            let part = file_patch_exec(file, accepted_hunks);
            push_str(&mut patch, part.as_str());
            assert(fv.subrange(0, i + 1).drop_last() =~= fv.subrange(0, i as int));
            assert(fv.subrange(0, i + 1).last() == file@);
            i = i + 1;
        }
        assert(fv.subrange(0, i as int) =~= fv);
        patch
    }
}

/// Closes the hunk being read into the file being read.
fn close_hunk_exec(cur_file: &mut Option<DiffFile>, cur_hunk: &mut Option<DiffHunk>)
    ensures
        ({
            let st = DiffReadState {
                files: seq![],
                file: opt_file_view(*old(cur_file)),
                hunk: opt_hunk_view(*old(cur_hunk)),
                old_line: 0,
                new_line: 0,
                overflow: false,
            };
            &&& opt_file_view(*final(cur_file)) == close_hunk(st).file
            &&& final(cur_hunk).is_none()
        }),
{
    if let Some(h) = cur_hunk.take() {
        if let Some(mut f) = cur_file.take() {
            let ghost before = f@;
            let ghost hv = h@;
            f.hunks.push(h);
            assert(hunks_view(f.hunks@) =~= before.hunks.push(hv));
            *cur_file = Some(f);
        }
    }
}

/// Adds a content line of kind `t` to the hunk being read, if any, and
/// advances the line numbers; returns `false`, changing nothing, when the
/// line would be numbered past `u32::MAX`.
fn add_line_exec(
    cur_hunk: &mut Option<DiffHunk>,
    old_line: &mut u64,
    new_line: &mut u64,
    line: &[char],
    t: DiffLineType,
) -> (ok: bool)
    requires
        line@.len() >= 1,
    ensures
        ({
            let st = DiffReadState {
                files: seq![],
                file: None,
                hunk: opt_hunk_view(*old(cur_hunk)),
                old_line: *old(old_line) as int,
                new_line: *old(new_line) as int,
                overflow: false,
            };
            let st2 = add_line(st, line@, t);
            &&& ok == !st2.overflow
            &&& ok ==> opt_hunk_view(*final(cur_hunk)) == st2.hunk
            &&& ok ==> *final(old_line) as int == st2.old_line
            &&& ok ==> *final(new_line) as int == st2.new_line
        }),
{
    if cur_hunk.is_none() {
        return true;
    }
    let on_old = t != DiffLineType::Addition;
    let on_new = t != DiffLineType::Deletion;
    if (on_old && *old_line > 4294967295u64) || (on_new && *new_line > 4294967295u64) {
        return false;
    }
    if let Some(mut h) = cur_hunk.take() {
        let content = suffix_from(line, 1);
        let l = DiffLine {
            line_type: t,
            content,
            old_line: if on_old {
                Some(*old_line as u32)
            } else {
                None
            },
            new_line: if on_new {
                Some(*new_line as u32)
            } else {
                None
            },
        };
        if on_old {
            *old_line = *old_line + 1;
        }
        if on_new {
            *new_line = *new_line + 1;
        }
        let ghost before = h@;
        let ghost lv = l@;
        h.lines.push(l);
        assert(lines_view(h.lines@) =~= before.lines.push(lv));
        *cur_hunk = Some(h);
    }
    true
}

/// The path named by a `diff --git` line.
fn path_of_git_line(line: &[char]) -> (r: String)
    ensures
        r@ == file_path_of(line@),
{
    let pieces = split_on(line, ' ');
    let ghost pv = pieces@.map_values(|p: Vec<char>| p@);
    let empty: Vec<char> = Vec::new();
    let third: &[char] = if pieces.len() > 2 {
        assert(pv[2] == pieces@[2]@);
        pieces[2].as_slice()
    } else {
        empty.as_slice()
    };
    let a_slash = chars_of("a/");
    let trimmed = trim_prefix_repeated(third, a_slash.as_slice());
    assert(third@ == (if pv.len() > 2 {
        pv[2]
    } else {
        seq![]
    }));
    string_of(trimmed.as_slice())
}

/// Start and count of one side of a hunk header.
fn parse_header_range(part: &[char], sign: char) -> (r: (u32, u32))
    ensures
        r.0 as int == header_range(part@, sign).0,
        r.1 as int == header_range(part@, sign).1,
{
    let mut sign_seq: Vec<char> = Vec::new();
    sign_seq.push(sign);
    assert(sign_seq@ =~= seq![sign]);
    let trimmed = trim_prefix_repeated(part, sign_seq.as_slice());
    let pieces = split_on(trimmed.as_slice(), ',');
    let ghost pv = pieces@.map_values(|p: Vec<char>| p@);
    assert(pv[0] == pieces@[0]@);
    let start: u32 = match parse_unsigned_chars(pieces[0].as_slice(), 4294967295u64) {
        Some(v) => v as u32,
        None => 0,
    };
    let count: u32 = if pieces.len() > 1 {
        assert(pv[1] == pieces@[1]@);
        match parse_unsigned_chars(pieces[1].as_slice(), 4294967295u64) {
            Some(v) => v as u32,
            None => 1,
        }
    } else {
        1
    };
    (start, count)
}

/// The patch part of one file.
fn file_patch_exec(file: &DiffFile, accepted: &[HunkRef]) -> (r: String)
    ensures
        r@ == file_patch(file@, hunk_refs_view(accepted@)),
{
    let ghost av = hunk_refs_view(accepted@);
    let mut idxs: Vec<usize> = Vec::new();
    let mut k: usize = 0;
    assert(av.subrange(0, 0) =~= Seq::<HunkRefView>::empty());
    while k < accepted.len()
        invariant
            k <= accepted@.len(),
            av == hunk_refs_view(accepted@),
            idxs@.map_values(|x: usize| x as int) == accepted_indices(
                av.subrange(0, k as int),
                file.path@,
            ),
        decreases accepted.len() - k,
    {
        let ghost before = idxs@.map_values(|x: usize| x as int);
        assert(av.subrange(0, k + 1).drop_last() =~= av.subrange(0, k as int));
        assert(av.subrange(0, k + 1).last() == accepted@[k as int]@);
        if accepted[k].file == file.path {
            idxs.push(accepted[k].hunk_index);
            assert(idxs@.map_values(|x: usize| x as int) =~= before.push(
                accepted@[k as int].hunk_index as int,
            ));
        }
        k = k + 1;
    }
    assert(av.subrange(0, k as int) =~= av);
    let ghost iv = idxs@.map_values(|x: usize| x as int);
    let mut out = String::new();
    if idxs.len() == 0 {
        assert(iv.len() == 0);
        return out;
    }
    push_str(&mut out, "diff --git a/");
    push_str(&mut out, file.path.as_str());
    push_str(&mut out, " b/");
    push_str(&mut out, file.path.as_str());
    push_str(&mut out, "\n");
    let ghost head = out@;
    let mut j: usize = 0;
    assert(iv.subrange(0, 0) =~= Seq::<int>::empty());
    while j < idxs.len()
        invariant
            j <= idxs@.len(),
            iv == idxs@.map_values(|x: usize| x as int),
            out@ == head + selected_hunks_text(file@, iv.subrange(0, j as int)),
        decreases idxs.len() - j,
    {
        let idx = idxs[j];
        assert(iv.subrange(0, j + 1).drop_last() =~= iv.subrange(0, j as int));
        assert(iv.subrange(0, j + 1).last() == idx as int);
        let ghost before = out@;
        if idx < file.hunks.len() {
            let hunk = &file.hunks[idx];
            let text = hunk_text_exec(hunk);
            push_str(&mut out, text.as_str());
            assert(hunks_view(file.hunks@)[idx as int] == hunk@);
            assert(out@ =~= head + selected_hunks_text(file@, iv.subrange(0, j + 1)));
        } else {
            assert(out@ =~= head + selected_hunks_text(file@, iv.subrange(0, j + 1)));
        }
        j = j + 1;
    }
    assert(iv.subrange(0, j as int) =~= iv);
    out
}

/// The patch text of one hunk.
fn hunk_text_exec(h: &DiffHunk) -> (r: String)
    ensures
        r@ == hunk_text(h@),
{
    let mut out = copy_string(&h.header);
    push_char(&mut out, '\n');
    let ghost head = out@;
    let ghost lv = lines_view(h.lines@);
    let mut i: usize = 0;
    assert(lv.subrange(0, 0) =~= Seq::<DiffLineView>::empty());
    while i < h.lines.len()
        invariant
            i <= h.lines@.len(),
            lv == lines_view(h.lines@),
            out@ == head + lines_text(lv.subrange(0, i as int)),
        decreases h.lines.len() - i,
    {
        let line = &h.lines[i];
        let marker = match line.line_type {
            DiffLineType::Addition => '+',
            DiffLineType::Deletion => '-',
            DiffLineType::Context => ' ',
        };
        let ghost before = out@;
        push_char(&mut out, marker);
        push_str(&mut out, line.content.as_str());
        push_char(&mut out, '\n');
        assert(lv.subrange(0, i + 1).drop_last() =~= lv.subrange(0, i as int));
        assert(lv.subrange(0, i + 1).last() == line@);
        assert(out@ =~= head + lines_text(lv.subrange(0, i + 1)));
        i = i + 1;
    }
    assert(lv.subrange(0, i as int) =~= lv);
    out
}

/// The conflict check is symmetric, and a side with no changes never
/// conflicts.
pub proof fn conflict_is_symmetric(primary: Seq<Seq<char>>, agent: Seq<Seq<char>>)
    ensures
        changes_overlap(primary, agent) == changes_overlap(agent, primary),
        !changes_overlap(Seq::<Seq<char>>::empty(), agent),
        !changes_overlap(primary, Seq::<Seq<char>>::empty()),
{
    if changes_overlap(primary, agent) {
        let (i, j) = choose|i: int, j: int|
            0 <= i < primary.len() && 0 <= j < agent.len() && primary[i] == agent[j];
        assert(0 <= j < agent.len() && 0 <= i < primary.len() && agent[j] == primary[i]);
    }
    if changes_overlap(agent, primary) {
        let (i, j) = choose|i: int, j: int|
            0 <= i < agent.len() && 0 <= j < primary.len() && agent[i] == primary[j];
        assert(0 <= j < primary.len() && 0 <= i < agent.len() && primary[j] == agent[i]);
    }
}

} // verus!
