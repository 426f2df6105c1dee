use std::io::Write;
use ginger_code::atomic::AtomicWriter;
use ginger_code::path::PathValidator;
use ginger_code::paths::{components, file_name_of, join_path, starts_with_path};

#[test]
fn rejects_absolute() {
    let sandbox = tempfile::tempdir().unwrap();
    let root = sandbox.path().to_str().unwrap();
    assert!(PathValidator::safe_join(root, "/etc/passwd").is_none());
}

#[test]
fn join_puts_one_separator() {
    assert_eq!(join_path("/a", "b"), "/a/b");
    assert_eq!(join_path("/a/", "b"), "/a/b");
    assert_eq!(join_path("", "b"), "b");
    assert_eq!(join_path("/a", "/etc"), "/etc");
    assert_eq!(join_path("a", ""), "a/");
}

#[test]
fn components_skip_empty_and_current() {
    let c: Vec<String> = components("/a//b/./c/").into_iter().map(|v| v.into_iter().collect()).collect();
    assert_eq!(c, vec!["/", "a", "b", "c"]);
    let d: Vec<String> = components("./x/..").into_iter().map(|v| v.into_iter().collect()).collect();
    assert_eq!(d, vec![".", "x", ".."]);
}

#[test]
fn prefix_is_by_components() {
    assert!(starts_with_path("/srv/project/src", "/srv/project"));
    assert!(starts_with_path("/srv/project/", "/srv/project"));
    assert!(!starts_with_path("/srv/projector", "/srv/project"));
    assert!(!starts_with_path("srv/project", "/srv/project"));
}

#[test]
fn file_names_follow_path_rules() {
    assert_eq!(file_name_of("/a/b.txt"), Some("b.txt".to_string()));
    assert_eq!(file_name_of("/a/b/"), Some("b".to_string()));
    assert_eq!(file_name_of("/a/.."), None);
    assert_eq!(file_name_of("/"), None);
    assert_eq!(file_name_of("."), None);
}

#[test]
fn safe_join_accepts_existing_inside_path() {
    let sandbox = tempfile::tempdir().unwrap();
    let root = sandbox.path().to_str().unwrap().to_string();
    let file = tempfile::NamedTempFile::new_in(&root).unwrap();
    let name = file.path().file_name().unwrap().to_str().unwrap().to_string();
    let inner = format!("{}/{}", root, name);
    assert_eq!(PathValidator::safe_join(&root, &name), Some(inner));
    assert!(PathValidator::safe_join(&root, "../outside").is_none());
}

#[test]
fn temporary_files_are_named_beside_the_target() {
    assert_eq!(AtomicWriter::temp_file_name(Some("config.toml"), 42), ".config.toml.tmp-42");
    assert_eq!(AtomicWriter::temp_file_name(None, 7), ".tmp.tmp-7");
}

fn exact_dir(parent: &std::path::Path, name: &str) -> tempfile::TempDir {
    tempfile::Builder::new().prefix(name).rand_bytes(0).tempdir_in(parent).unwrap()
}

fn exact_file(parent: &std::path::Path, name: &str, content: &str) -> tempfile::NamedTempFile {
    let mut f = tempfile::Builder::new().prefix(name).rand_bytes(0).tempfile_in(parent).unwrap();
    f.write_all(content.as_bytes()).unwrap();
    f
}

#[test]
fn rejects_traversal() {
    let sandbox = tempfile::tempdir().unwrap();
    let root = exact_dir(sandbox.path(), "project");
    let _outside = exact_file(sandbox.path(), "outside", "outside");
    assert!(PathValidator::safe_join(root.path().to_str().unwrap(), "../outside").is_none());
}

#[test]
fn accepts_inside_path() {
    let sandbox = tempfile::tempdir().unwrap();
    let root = sandbox.path();
    let src = exact_dir(root, "src");
    let _main = exact_file(src.path(), "main.rs", "fn main() {}");
    assert!(PathValidator::safe_join(root.to_str().unwrap(), "src/main.rs").is_some());
}

#[test]
fn canonical_paths_are_absolute() {
    let c = PathValidator::canonicalize(".").unwrap();
    assert_eq!(c[0], b'/');
    assert_ne!(c, b".".to_vec());
    assert_eq!(PathValidator::canonicalize("/definitely/not/here/at/all"), None);
}

#[test]
fn within_canonical_compares_components() {
    let root = Some(b"/r".to_vec());
    assert!(PathValidator::within_canonical(&root, &Some(b"/r".to_vec())));
    assert!(PathValidator::within_canonical(&root, &Some(b"/r/a".to_vec())));
    assert!(!PathValidator::within_canonical(&root, &Some(b"/rx/a".to_vec())));
    assert!(!PathValidator::within_canonical(&root, &None));
    assert!(!PathValidator::within_canonical(&None, &Some(b"/r/a".to_vec())));
}

#[test]
fn within_canonical_takes_bytes_that_are_not_utf8() {
    let root = Some(b"/r\xff".to_vec());
    assert!(PathValidator::within_canonical(&root, &Some(b"/r\xff/a".to_vec())));
    assert!(!PathValidator::within_canonical(&root, &Some(b"/r\xfe/a".to_vec())));
    assert!(!PathValidator::within_canonical(&root, &Some(b"/r\xff\xfe/a".to_vec())));
}

#[test]
fn join_if_within_returns_the_joined_path_inside_the_root() {
    let root = Some(b"/r".to_vec());
    assert_eq!(
        PathValidator::join_if_within("/r/a".to_string(), &root, &Some(b"/r/a".to_vec())),
        Some("/r/a".to_string())
    );
    assert_eq!(PathValidator::join_if_within("/r/../x".to_string(), &root, &Some(b"/x".to_vec())), None);
    assert_eq!(PathValidator::join_if_within("/r/a".to_string(), &root, &None), None);
    assert_eq!(PathValidator::join_if_within("/r/a".to_string(), &None, &Some(b"/r/a".to_vec())), None);
}
