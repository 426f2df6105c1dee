use ginger_code::package::{init_curated_catalog, PackageError, PackageKind, PackageManager};
use ginger_code::package_plan::{InstallPlanItem, PackagePlanner};
use ginger_code::recommend::{RecommendationEngine, RecommendationState};

fn curated() -> PackageManager {
    let mut pm = PackageManager::new("/cache".to_string());
    init_curated_catalog(&mut pm);
    pm
}

#[test]
fn curated_catalog_has_eight_entries() {
    let pm = curated();
    let all = pm.list_catalog();
    assert_eq!(all.len(), 8);
    assert_eq!(all[0].id, "nvim-treesitter");
    assert_eq!(all[7].id, "gopls");
    let prettier = pm.get_entry("prettier").unwrap();
    assert_eq!(prettier.kind, PackageKind::Formatter);
    assert_eq!(prettier.recommendation_rules, vec!["framework.react", "framework.nextjs"]);
    assert!(pm.get_entry("emacs").is_none());
}

#[test]
fn registering_an_id_again_replaces_it() {
    let mut pm = curated();
    let mut e = pm.get_entry("eslint").unwrap();
    e.version = "9.0.0".to_string();
    pm.register_curated(e);
    assert_eq!(pm.list_catalog().len(), 8);
    assert_eq!(pm.get_entry("eslint").unwrap().version, "9.0.0");
}

#[test]
fn search_is_case_insensitive_on_name_and_description() {
    let pm = curated();
    let ids: Vec<String> = pm.search("LSP").into_iter().map(|e| e.id).collect();
    assert_eq!(ids, vec!["lua-language-server", "rust-analyzer", "pyright", "gopls"]);
    let fuzzy: Vec<String> = pm.search("FUZZY").into_iter().map(|e| e.id).collect();
    assert_eq!(fuzzy, vec!["telescope-nvim"]);
    assert!(pm.search("nothing-like-this").is_empty());
}

#[test]
fn installs_go_to_the_shared_cache() {
    let pm = curated();
    let (entry, dir) = pm.install_target("gopls").unwrap();
    assert_eq!(entry.id, "gopls");
    assert_eq!(dir, "/cache/gopls/latest");
    assert!(matches!(pm.install_target("nope"), Err(PackageError::NotFound(s)) if s == "nope"));
    let done = PackageManager::finish_install(entry.clone(), dir.clone(), Ok(()), "t0".to_string()).unwrap();
    assert_eq!((done.catalog_id.as_str(), done.version.as_str(), done.path.as_str(), done.installed_at.as_str()), ("gopls", "latest", "/cache/gopls/latest", "t0"));
    let failed = PackageManager::finish_install(entry.clone(), dir.clone(), Err("denied".to_string()), "t0".to_string());
    assert!(matches!(failed, Err(PackageError::InstallFailed(m)) if m == "denied"));
    let stamped = PackageManager::complete_install(entry, dir, Ok(())).unwrap();
    assert!(stamped.installed_at.ends_with("+00:00"));
    assert_eq!(PackageError::NotFound("x".to_string()).to_text(), "package not found: x");
}

#[test]
fn plans_keep_items_in_order() {
    let item = InstallPlanItem {
        package_id: "eslint".to_string(),
        version: "latest".to_string(),
        source: "npm:eslint".to_string(),
        command: "npm install eslint".to_string(),
        environment_changes: vec![],
    };
    let plan = PackagePlanner.plan(vec![item], true);
    assert_eq!(plan.items.len(), 1);
    assert!(plan.custom_commands_explicit);
}

#[test]
fn only_known_packages_become_candidates() {
    let caps = vec!["typescript".to_string(), "cobol".to_string(), "rust".to_string(), "react".to_string()];
    let known = vec!["typescript-language-server".to_string(), "rust-analyzer".to_string()];
    let installed = vec!["rust-analyzer".to_string()];
    let c = RecommendationEngine.candidates(&caps, &known, &installed);
    assert_eq!(c.len(), 3);
    assert_eq!((c[0].capability_index, c[0].package_id.as_str(), c[0].state), (0, "typescript-language-server", RecommendationState::New));
    assert_eq!((c[1].capability_index, c[1].package_id.as_str(), c[1].state), (2, "rust-analyzer", RecommendationState::Installed));
    assert_eq!(c[2].capability_index, 3);
    let none = RecommendationEngine.candidates(&["cobol".to_string()], &known, &[]);
    assert!(none.is_empty());
}

#[test]
fn only_known_packages_recommended() {
    let caps = vec!["typescript".to_string()];
    let known = vec!["typescript-language-server".to_string()];
    let recs = RecommendationEngine.candidates(&caps, &known, &[]);
    assert_eq!(recs.len(), 1);
    assert_eq!(recs[0].package_id, "typescript-language-server");
}

#[test]
fn unknown_capability_skipped() {
    let caps = vec!["cobol".to_string()];
    let known = vec!["typescript-language-server".to_string()];
    let recs = RecommendationEngine.candidates(&caps, &known, &[]);
    assert!(recs.is_empty());
}
