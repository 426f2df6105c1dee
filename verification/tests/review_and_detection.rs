use ginger_code::detection::{FileEvidence, ProjectEvidence, ProjectScanner};
use ginger_code::diff::{DiffLineType, HunkRef, ReviewError, ReviewService};
use ginger_code::language_servers::{exit_report, frame_message, keep_tail};

const DIFF: &str = "diff --git a/src/main.rs b/src/main.rs\nindex 1..2 100644\n--- a/src/main.rs\n+++ b/src/main.rs\n@@ -1,2 +1,3 @@\n fn main() {\n+    println!(\"hi\");\n }\ndiff --git a/README.md b/README.md\n@@ -4 +4 @@\n-old\n+new\n";

#[test]
fn unified_diffs_parse_into_hunks() {
    let files = ReviewService::new().parse_diff(DIFF);
    assert_eq!(files.len(), 2);
    assert_eq!(files[0].path, "src/main.rs");
    assert_eq!(files[0].status, "modified");
    let h = &files[0].hunks[0];
    assert_eq!((h.old_start, h.old_count, h.new_start, h.new_count), (1, 2, 1, 3));
    assert_eq!(h.lines.len(), 3);
    assert_eq!(h.lines[0].line_type, DiffLineType::Context);
    assert_eq!((h.lines[0].old_line, h.lines[0].new_line), (Some(1), Some(1)));
    assert_eq!(h.lines[1].line_type, DiffLineType::Addition);
    assert_eq!(h.lines[1].content, "    println!(\"hi\");");
    assert_eq!((h.lines[1].old_line, h.lines[1].new_line), (None, Some(2)));
    assert_eq!((h.lines[2].old_line, h.lines[2].new_line), (Some(2), Some(3)));
    let r = &files[1].hunks[0];
    assert_eq!((r.old_start, r.old_count, r.new_start, r.new_count), (4, 1, 4, 1));
    assert_eq!((r.lines[0].old_line, r.lines[1].new_line), (Some(4), Some(4)));
}

#[test]
fn partial_patches_keep_only_accepted_hunks() {
    let svc = ReviewService::new();
    let files = svc.parse_diff(DIFF);
    let accepted = vec![HunkRef { file: "src/main.rs".to_string(), hunk_index: 0 }, HunkRef { file: "src/main.rs".to_string(), hunk_index: 9 }];
    assert_eq!(
        svc.build_partial_patch(&files, &accepted),
        "diff --git a/src/main.rs b/src/main.rs\n@@ -1,2 +1,3 @@\n fn main() {\n+    println!(\"hi\");\n }\n"
    );
    assert_eq!(svc.build_partial_patch(&files, &[]), "");
    assert!(svc.check_conflict(&["a".to_string(), "b".to_string()], &["c".to_string(), "b".to_string()]));
    assert!(!svc.check_conflict(&["a".to_string()], &["c".to_string()]));
    assert_eq!(ReviewError::AgentNotFound(4).to_text(), "agent not found: 4");
    assert_eq!(ReviewError::Conflict("x".to_string()).to_text(), "conflict detected: x");
}

fn evidence() -> ProjectEvidence {
    ProjectEvidence {
        root: "/p".to_string(),
        package_json: FileEvidence::Content("{\"dependencies\": {\"react\": \"18\", \"typescript\": \"5\"}}".to_string()),
        tsconfig: true,
        pnpm_lock: true,
        yarn_lock: false,
        pyproject: FileEvidence::Absent,
        setup_py: false,
        cargo_toml: true,
        go_mod: false,
        root_entries: vec!["App.Web.csproj".to_string(), "notes.md".to_string()],
        dockerfile: false,
        docker_compose: true,
    }
}

#[test]
fn scans_report_capabilities_and_marker_files() {
    let info = ProjectScanner::new().scan(&evidence());
    assert_eq!(info.root, "/p");
    assert_eq!(
        info.capabilities,
        vec![
            "language.typescript", "language.rust", "language.csharp", "framework.react",
            "test.cargo", "container.docker", "package-manager.pnpm", "package-manager.cargo",
        ]
    );
    assert_eq!(info.detected_files, vec!["package.json", "tsconfig.json", "Cargo.toml", "App.Web.csproj", "Dockerfile"]);
}

#[test]
fn recommendations_start_with_the_essentials() {
    let recs = ProjectScanner::new().recommend(&["language.rust".to_string(), "framework.react".to_string(), "language.cobol".to_string()]);
    let ids: Vec<(&str, &str)> = recs.iter().map(|r| (r.package_id.as_str(), r.reason.as_str())).collect();
    assert_eq!(
        ids,
        vec![
            ("nvim-treesitter", "always"),
            ("telescope-nvim", "always"),
            ("rust-analyzer", "Rust project"),
            ("prettier", "framework.react project"),
        ]
    );
}

#[test]
fn frames_count_utf8_bytes() {
    assert_eq!(frame_message("{}"), "Content-Length: 2\r\n\r\n{}");
    assert_eq!(frame_message("世界"), "Content-Length: 6\r\n\r\n世界");
    let mut tail = vec![1u8; 4000];
    keep_tail(&mut tail, &[2u8; 200]);
    assert_eq!(tail.len(), 4096);
    assert_eq!(tail[0], 1);
    assert_eq!(tail[4095], 2);
    assert_eq!(exit_report("Stopped", "bye"), "Stopped\nbye");
}

#[test]
fn lines_are_numbered_from_the_hunk_start() {
    let d = "diff --git a/f.txt b/f.txt\n--- a/f.txt\n+++ b/f.txt\n@@ -1,2 +1,2 @@\n a\n-b\n+c\n";
    let r = ReviewService::new().parse_diff(d);
    assert_eq!(r.len(), 1);
    assert_eq!(r[0].path, "f.txt");
    assert_eq!(r[0].status, "modified");
    assert_eq!(r[0].hunks.len(), 1);
    let h = &r[0].hunks[0];
    assert_eq!(h.header, "@@ -1,2 +1,2 @@");
    assert_eq!((h.old_start, h.old_count, h.new_start, h.new_count), (1, 2, 1, 2));
    let got: Vec<(DiffLineType, &str, Option<u32>, Option<u32>)> =
        h.lines.iter().map(|l| (l.line_type, l.content.as_str(), l.old_line, l.new_line)).collect();
    assert_eq!(
        got,
        vec![
            (DiffLineType::Context, "a", Some(1), Some(1)),
            (DiffLineType::Deletion, "b", Some(2), None),
            (DiffLineType::Addition, "c", None, Some(2)),
        ]
    );
}

#[test]
fn checked_parse_refuses_line_numbers_past_the_limit() {
    let svc = ReviewService::new();
    let ok = "diff --git a/f b/f\n@@ -4294967295,1 +1 @@\n-x\n";
    assert_eq!(svc.parse_diff_checked(ok).unwrap()[0].hunks[0].lines[0].old_line, Some(4294967295));
    let over = "diff --git a/f b/f\n@@ -4294967295,2 +1 @@\n-x\n-y\n";
    assert!(svc.parse_diff_checked(over).is_none());
    assert_eq!(svc.parse_diff_checked("").map(|f| f.len()), Some(0));
}

#[test]
fn a_full_partial_patch_splits_and_parses_back() {
    let svc = ReviewService::new();
    let files = svc.parse_diff(DIFF);
    let all: Vec<HunkRef> = files
        .iter()
        .flat_map(|f| (0..f.hunks.len()).map(move |i| HunkRef { file: f.path.clone(), hunk_index: i }))
        .collect();
    let patch = svc.build_partial_patch(&files, &all);
    let lines: Vec<&str> = patch.lines().collect();
    assert_eq!(
        lines,
        vec![
            "diff --git a/src/main.rs b/src/main.rs",
            "@@ -1,2 +1,3 @@",
            " fn main() {",
            "+    println!(\"hi\");",
            " }",
            "diff --git a/README.md b/README.md",
            "@@ -4 +4 @@",
            "-old",
            "+new",
        ]
    );
    let again = svc.parse_diff(&patch);
    assert_eq!(again.len(), files.len());
    for (a, b) in again.iter().zip(files.iter()) {
        assert_eq!(a.path, b.path);
        assert_eq!(a.hunks.len(), b.hunks.len());
        for (x, y) in a.hunks.iter().zip(b.hunks.iter()) {
            assert_eq!(x.header, y.header);
            assert_eq!((x.old_start, x.old_count, x.new_start, x.new_count), (y.old_start, y.old_count, y.new_start, y.new_count));
            let xl: Vec<_> = x.lines.iter().map(|l| (l.line_type, l.content.clone(), l.old_line, l.new_line)).collect();
            let yl: Vec<_> = y.lines.iter().map(|l| (l.line_type, l.content.clone(), l.old_line, l.new_line)).collect();
            assert_eq!(xl, yl);
        }
    }
}

fn all_hunks(files: &[ginger_code::diff::DiffFile]) -> Vec<HunkRef> {
    files
        .iter()
        .flat_map(|f| (0..f.hunks.len()).map(move |i| HunkRef { file: f.path.clone(), hunk_index: i }))
        .collect()
}

#[test]
fn a_full_partial_patch_of_a_crlf_diff_parses_back() {
    let svc = ReviewService::new();
    let files = svc.parse_diff("diff --git a/x b/x\r\n@@ -1 +1 @@\r\n-a\r\n+b\r\n");
    assert_eq!(files.len(), 1);
    assert_eq!(files[0].hunks[0].lines[0].content, "a");
    let patch = svc.build_partial_patch(&files, &all_hunks(&files));
    assert_eq!(patch, "diff --git a/x b/x\n@@ -1 +1 @@\n-a\n+b\n");
    let again = svc.parse_diff(&patch);
    assert_eq!(again.len(), 1);
    assert_eq!(again[0].path, "x");
    assert_eq!(again[0].hunks[0].lines[1].content, "b");
}

#[test]
fn a_path_ending_in_a_carriage_return_survives_the_patch() {
    let svc = ReviewService::new();
    let files = svc.parse_diff("diff --git a/x\r b/x\n@@ -1 +1 @@\n-a\n+b\n");
    assert_eq!(files[0].path, "x\r");
    let patch = svc.build_partial_patch(&files, &all_hunks(&files));
    let again = svc.parse_diff(&patch);
    assert_eq!(again.len(), 1);
    assert_eq!(again[0].path, "x\r");
    assert_eq!(again[0].hunks[0].header, "@@ -1 +1 @@");
    assert_eq!(again[0].hunks[0].lines.len(), 2);
}
