use ginger_code::integrity::{
    build_manifest, FileObservation, IntegrityChecker, IntegrityEntry, IntegrityManifest,
    IntegrityStatus,
};
use ginger_code::packaging::{AppVersion, PackagingError, PackagingService, UpdateCandidate};

const ABC_SHA256: &str = "ba7816bf8f01cfea414140de5dae2223b00361a396177a9cb410ff61f20015ad";

#[test]
fn manifests_are_sorted_by_path() {
    let m = build_manifest(
        "1",
        vec![
            ("runtime/nvim".to_string(), "aa".to_string()),
            ("core/init.lua".to_string(), "bb".to_string()),
            ("catalog.json".to_string(), "cc".to_string()),
        ],
    );
    let paths: Vec<&str> = m.entries.iter().map(|e| e.path.as_str()).collect();
    assert_eq!(paths, vec!["catalog.json", "core/init.lua", "runtime/nvim"]);
    assert_eq!(m.entries[0].sha256, "cc");
    assert_eq!(m.version, "1");
}

#[test]
fn files_are_checked_against_their_digests() {
    let manifest = IntegrityManifest {
        version: "1".to_string(),
        entries: vec![
            IntegrityEntry { path: "a".to_string(), sha256: ABC_SHA256.to_string() },
            IntegrityEntry { path: "b".to_string(), sha256: ABC_SHA256.to_string() },
            IntegrityEntry { path: "c".to_string(), sha256: ABC_SHA256.to_string() },
            IntegrityEntry { path: "d".to_string(), sha256: ABC_SHA256.to_string() },
        ],
    };
    let seen = vec![
        FileObservation::Contents(b"abc".to_vec()),
        FileObservation::Contents(b"abd".to_vec()),
        FileObservation::Missing,
        FileObservation::Unreadable,
    ];
    let r = IntegrityChecker.verify(&manifest, &seen);
    assert_eq!(
        r,
        vec![
            ("a".to_string(), IntegrityStatus::Intact),
            ("b".to_string(), IntegrityStatus::Corrupt),
            ("c".to_string(), IntegrityStatus::Missing),
            ("d".to_string(), IntegrityStatus::Corrupt),
        ]
    );
    assert_eq!(IntegrityChecker::status_of_digest("00ff", &[0, 255]), IntegrityStatus::Intact);
    assert_eq!(IntegrityChecker::status_of_digest("00FF", &[0, 255]), IntegrityStatus::Corrupt);
}

fn candidate(sha: &str, signature: &str) -> UpdateCandidate {
    UpdateCandidate {
        version: "0.2.0".to_string(),
        download_url: "https://example.invalid/ginger.tar".to_string(),
        sha256: sha.to_string(),
        signature: signature.to_string(),
    }
}

#[test]
fn updates_pass_only_with_digest_and_signature() {
    let svc = PackagingService::new("/data".to_string());
    let ok = svc.validate_update(candidate(ABC_SHA256, "sig"), Ok(b"abc".to_vec())).unwrap();
    assert!(ok.hash_valid && ok.signature_valid && ok.overall_passed);
    let unsigned = svc.validate_update(candidate(ABC_SHA256, ""), Ok(b"abc".to_vec())).unwrap();
    assert!(unsigned.hash_valid && !unsigned.signature_valid && !unsigned.overall_passed);
    let tampered = svc.validate_update(candidate(ABC_SHA256, "sig"), Ok(b"abd".to_vec())).unwrap();
    assert!(!tampered.hash_valid && !tampered.overall_passed);
    let unreadable = svc.validate_update(candidate(ABC_SHA256, "sig"), Err("gone".to_string()));
    assert!(matches!(unreadable, Err(PackagingError::ValidationFailed(m)) if m == "hash: gone"));
    assert_eq!(PackagingError::SigningFailed("k".to_string()).to_text(), "signing failed: k");
}

#[test]
fn packaging_reports_versions_and_directories() {
    let mut svc = PackagingService::new("/data".to_string());
    assert!(svc.version().is_none());
    svc.set_version(AppVersion {
        app_version: "0.1.0".to_string(),
        runtime_version: "0.1.0".to_string(),
        neovim_version: "0.10".to_string(),
        catalog_version: "baseline-1".to_string(),
        build_date: "2024-01-01".to_string(),
    });
    assert_eq!(svc.version().unwrap().neovim_version, "0.10");
    assert_eq!(svc.app_support_dir(), "/data/app-support");
    assert_eq!(svc.runtime_dir(), "/data/runtime");
}
