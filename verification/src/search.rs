//! Workspace search with ripgrep: the arguments a query becomes, and the
//! `path:line:column:text` lines ripgrep prints turned into results.

use crate::text::{
    chars_of, copy_string, decimal, find_char, lemma_next_char_bounds, lines, next_char, owned,
    parse_unsigned, parse_unsigned_chars, slice_chars, split_lines, string_of, strings_view,
    u64_to_decimal,
};
use vstd::prelude::*;

verus! {

#[derive(Debug, Clone)]
pub struct SearchQuery {
    pub pattern: String,
    pub root: String,
    pub regex: bool,
    pub case_sensitive: bool,
    pub globs: Vec<String>,
    pub max_results: usize,
}

/// One matching line.
#[derive(Debug, Clone)]
pub struct SearchResult {
    pub path: String,
    pub line: usize,
    pub column: usize,
    pub text: String,
}

pub struct SearchResultView {
    pub path: Seq<char>,
    pub line: nat,
    pub column: nat,
    pub text: Seq<char>,
}

impl View for SearchResult {
    type V = SearchResultView;

    open spec fn view(&self) -> SearchResultView {
        SearchResultView {
            path: self.path@,
            line: self.line as nat,
            column: self.column as nat,
            text: self.text@,
        }
    }
}

pub open spec fn results_view(s: Seq<SearchResult>) -> Seq<SearchResultView> {
    s.map_values(|r: SearchResult| r@)
}

/// `--glob` followed by each glob.
pub open spec fn glob_args(globs: Seq<Seq<char>>) -> Seq<Seq<char>>
    decreases globs.len(),
{
    if globs.len() == 0 {
        seq![]
    } else {
        glob_args(globs.drop_last()) + seq!["--glob"@, globs.last()]
    }
}

/// The ripgrep arguments of a query.
pub open spec fn search_args(q: SearchQuery) -> Seq<Seq<char>> {
    seq![
        "--line-number"@,
        "--column"@,
        "--no-heading"@,
        "--color=never"@,
        if q.regex {
            "--regexp"@
        } else {
            "--fixed-strings"@
        },
        if q.case_sensitive {
            "--case-sensitive"@
        } else {
            "--ignore-case"@
        },
    ] + glob_args(strings_view(q.globs@)) + seq![
        "--max-count"@,
        decimal(q.max_results as int),
        q.pattern@,
        q.root@,
    ]
}

/// The result a line of output stands for: its first three `:` split it
/// into path, line number, column and text, and both numbers must parse.
pub open spec fn result_of_line(l: Seq<char>) -> Option<SearchResultView> {
    let i1 = next_char(l, ':', 0);
    let i2 = next_char(l, ':', i1 + 1);
    let i3 = next_char(l, ':', i2 + 1);
    if i1 < l.len() && i2 < l.len() && i3 < l.len() {
        match (
            parse_unsigned(l.subrange(i1 + 1, i2), usize::MAX as nat),
            parse_unsigned(l.subrange(i2 + 1, i3), usize::MAX as nat),
        ) {
            (Some(line), Some(column)) => Some(
                SearchResultView {
                    path: l.subrange(0, i1),
                    line,
                    column,
                    text: l.subrange(i3 + 1, l.len() as int),
                },
            ),
            _ => None,
        }
    } else {
        None
    }
}

/// The results of a sequence of output lines, in order; lines that stand
/// for no result are skipped.
pub open spec fn results_of_lines(ls: Seq<Seq<char>>) -> Seq<SearchResultView>
    decreases ls.len(),
{
    if ls.len() == 0 {
        seq![]
    } else {
        results_of_lines(ls.drop_last()) + match result_of_line(ls.last()) {
            Some(r) => seq![r],
            None => seq![],
        }
    }
}

fn push_arg(out: &mut Vec<String>, a: &str)
    ensures
        strings_view(final(out)@) == strings_view(old(out)@).push(a@),
{
    let ghost before = strings_view(out@);
    out.push(owned(a));
    assert(strings_view(out@) =~= before.push(a@));
}

fn result_of_line_exec(l: &[char]) -> (r: Option<SearchResult>)
    ensures
        match result_of_line(l@) {
            Some(v) => r matches Some(x) && x@ == v,
            None => r is None,
        },
{
    let i1 = find_char(l, ':', 0);
    if i1 >= l.len() {
        return None;
    }
    let i2 = find_char(l, ':', i1 + 1);
    if i2 >= l.len() {
        return None;
    }
    let i3 = find_char(l, ':', i2 + 1);
    if i3 >= l.len() {
        return None;
    }
    proof {
        lemma_next_char_bounds(l@, ':', 0);
        lemma_next_char_bounds(l@, ':', i1 + 1);
        lemma_next_char_bounds(l@, ':', i2 + 1);
    }
    let line_digits = slice_chars(l, i1 + 1, i2);
    let col_digits = slice_chars(l, i2 + 1, i3);
    let line = parse_unsigned_chars(line_digits.as_slice(), usize::MAX as u64);
    let column = parse_unsigned_chars(col_digits.as_slice(), usize::MAX as u64);
    match (line, column) {
        (Some(a), Some(b)) => {
            let path = slice_chars(l, 0, i1);
            let text = slice_chars(l, i3 + 1, l.len());
            Some(
                SearchResult {
                    path: string_of(path.as_slice()),
                    line: a as usize,
                    column: b as usize,
                    text: string_of(text.as_slice()),
                },
            )
        },
        _ => None,
    }
}

pub struct SearchEngine;

impl SearchEngine {
    /// The arguments ripgrep is run with for `query`: line numbers, columns,
    /// no headings and no colour; fixed strings unless the query is a
    /// regular expression; case-insensitive unless asked otherwise; each
    /// glob; the maximum count; then the pattern and the root.
    pub fn arguments(&self, query: &SearchQuery) -> (r: Vec<String>)
        ensures
            strings_view(r@) == search_args(*query),
    {
        let mut out: Vec<String> = Vec::new();
        push_arg(&mut out, "--line-number");
        push_arg(&mut out, "--column");
        push_arg(&mut out, "--no-heading");
        push_arg(&mut out, "--color=never");
        if query.regex {
            push_arg(&mut out, "--regexp");
        } else {
            push_arg(&mut out, "--fixed-strings");
        }
        if query.case_sensitive {
            push_arg(&mut out, "--case-sensitive");
        } else {
            push_arg(&mut out, "--ignore-case");
        }
        let ghost head = strings_view(out@);
        let ghost gs = strings_view(query.globs@);
        let mut i: usize = 0;
        assert(gs.subrange(0, 0) =~= Seq::<Seq<char>>::empty());
        assert(strings_view(out@) =~= head + glob_args(gs.subrange(0, 0)));
        while i < query.globs.len()
            invariant
                i <= query.globs@.len(),
                gs == strings_view(query.globs@),
                strings_view(out@) == head + glob_args(gs.subrange(0, i as int)),
            decreases query.globs.len() - i,
        {
            push_arg(&mut out, "--glob");
            let ghost mid = strings_view(out@);
            out.push(copy_string(&query.globs[i]));
            assert(strings_view(out@) =~= mid.push(gs[i as int]));
            assert(gs.subrange(0, i + 1).drop_last() =~= gs.subrange(0, i as int));
            assert(strings_view(out@) =~= head + glob_args(gs.subrange(0, i + 1)));
            i = i + 1;
        }
        assert(gs.subrange(0, i as int) =~= gs);
        push_arg(&mut out, "--max-count");
        let ghost before = strings_view(out@);
        out.push(u64_to_decimal(query.max_results as u64));
        assert(strings_view(out@) =~= before.push(decimal(query.max_results as int)));
        let ghost before2 = strings_view(out@);
        out.push(copy_string(&query.pattern));
        out.push(copy_string(&query.root));
        assert(strings_view(out@) =~= before2.push(query.pattern@).push(query.root@));
        assert(strings_view(out@) =~= search_args(*query));
        out
    }

    /// The results in ripgrep's output, in order; lines that do not read as
    /// `path:line:column:text` with numeric line and column are skipped.
    pub fn parse_results(&self, output: &str) -> (r: Vec<SearchResult>)
        ensures
            results_view(r@) == results_of_lines(lines(output@)),
    {
        let cs = chars_of(output);
        let ls = split_lines(cs.as_slice());
        let ghost lv = ls@.map_values(|l: Vec<char>| l@);
        let mut out: Vec<SearchResult> = Vec::new();
        let mut i: usize = 0;
        while i < ls.len()
            invariant
                i <= ls@.len(),
                lv == ls@.map_values(|l: Vec<char>| l@),
                lv == lines(output@),
                results_view(out@) == results_of_lines(lv.subrange(0, i as int)),
            decreases ls.len() - i,
        {
            assert(lv.subrange(0, i + 1).drop_last() =~= lv.subrange(0, i as int));
            assert(lv.subrange(0, i + 1).last() == ls@[i as int]@);
            let ghost prev = results_view(out@);
            match result_of_line_exec(ls[i].as_slice()) {
                Some(res) => {
                    let ghost rv = res@;
                    out.push(res);
                    assert(results_view(out@) =~= prev + seq![rv]);
                },
                None => {
                    assert(results_view(out@) =~= prev + Seq::<SearchResultView>::empty());
                },
            }
            i = i + 1;
        }
        assert(lv.subrange(0, i as int) =~= lv);
        out
    }
}

} // verus!
