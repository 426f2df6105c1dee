use ginger_code::git::{parse_porcelain_status, GitError};
use ginger_code::search::{SearchEngine, SearchQuery};

#[test]
fn porcelain_status_sorts_changes() {
    let out = "## main...origin/main\nM  staged.rs\n M unstaged.rs\nMM both.rs\n?? new.rs\nA  added.rs\n D gone.rs\n";
    let s = parse_porcelain_status("main".to_string(), out);
    assert_eq!(s.branch, "main");
    assert!(!s.clean);
    let staged: Vec<(&str, &str)> = s.staged.iter().map(|c| (c.path.as_str(), c.status.as_str())).collect();
    assert_eq!(staged, vec![("staged.rs", "M"), ("both.rs", "M"), ("added.rs", "A")]);
    let unstaged: Vec<(&str, &str)> = s.unstaged.iter().map(|c| (c.path.as_str(), c.status.as_str())).collect();
    assert_eq!(unstaged, vec![("unstaged.rs", "M"), ("both.rs", "M"), ("gone.rs", "D")]);
    assert_eq!(s.untracked, vec!["new.rs"]);
    assert!(s.staged.iter().all(|c| c.staged) && s.unstaged.iter().all(|c| !c.staged));
}

#[test]
fn clean_tree_has_no_changes() {
    let s = parse_porcelain_status("dev".to_string(), "## dev\n");
    assert!(s.clean);
    assert_eq!(GitError::NotARepo("/x".to_string()).to_text(), "not a git repository: /x");
    assert_eq!(GitError::Locked.to_text(), "repository locked");
}

#[test]
fn ripgrep_arguments_follow_the_query() {
    let q = SearchQuery {
        pattern: "fn main".to_string(),
        root: "/repo".to_string(),
        regex: false,
        case_sensitive: false,
        globs: vec!["*.rs".to_string(), "!target".to_string()],
        max_results: 50,
    };
    assert_eq!(
        SearchEngine.arguments(&q),
        vec![
            "--line-number", "--column", "--no-heading", "--color=never", "--fixed-strings",
            "--ignore-case", "--glob", "*.rs", "--glob", "!target", "--max-count", "50", "fn main",
            "/repo",
        ]
    );
    let r = SearchQuery { regex: true, case_sensitive: true, globs: vec![], ..q };
    let args = SearchEngine.arguments(&r);
    assert_eq!(args[4], "--regexp");
    assert_eq!(args[5], "--case-sensitive");
}

#[test]
fn ripgrep_output_becomes_results() {
    let out = "src/main.rs:3:5:fn main() { a::b }\nnot a match line\nsrc/lib.rs:x:1:bad\nREADME.md:10:1:\n";
    let rs = SearchEngine.parse_results(out);
    assert_eq!(rs.len(), 2);
    assert_eq!((rs[0].path.as_str(), rs[0].line, rs[0].column, rs[0].text.as_str()), ("src/main.rs", 3, 5, "fn main() { a::b }"));
    assert_eq!((rs[1].path.as_str(), rs[1].line, rs[1].column, rs[1].text.as_str()), ("README.md", 10, 1, ""));
}
