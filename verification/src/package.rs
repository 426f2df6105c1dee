//! The package manager: a catalog of curated and custom packages (Neovim
//! plugins, language servers, formatters, linters, debuggers, command-line
//! tools), search over it, and installs into a shared cache where each
//! package version lives once.

use crate::paths::{join_path, path_join};
use crate::text::{
    concat, copy_string, copy_strings, first_match, has_substring, lemma_first_match_before,
    lemma_first_match_found, lemma_first_match_is, lowercase, owned, owned_all, str_contains, str_eq, strings_view, strs_view,
    to_lowercase,
};
use crate::timestamps::now_rfc3339;
use vstd::prelude::*;

verus! {

#[derive(Debug, Clone)]
pub enum PackageError {
    Inner(String),
    NotFound(String),
    InstallFailed(String),
}

/// The message of an error, as `Display` writes it.
pub open spec fn package_error_text(e: PackageError) -> Seq<char> {
    match e {
        PackageError::Inner(s) => "package error: "@ + s@,
        PackageError::NotFound(s) => "package not found: "@ + s@,
        PackageError::InstallFailed(s) => "install failed: "@ + s@,
    }
}

impl PackageError {
    /// The error's message.
    pub fn to_text(&self) -> (r: String)
        ensures
            r@ == package_error_text(*self),
    {
        match self {
            PackageError::Inner(s) => concat("package error: ", s.as_str()),
            PackageError::NotFound(s) => concat("package not found: ", s.as_str()),
            PackageError::InstallFailed(s) => concat("install failed: ", s.as_str()),
        }
    }
}

/// Who owns a package's metadata and install rules.
#[derive(Debug, Clone, Copy, PartialEq, Eq, Structural)]
pub enum OwnershipLane {
    Curated,
    Custom,
}

#[derive(Debug, Clone, Copy, PartialEq, Eq, Structural)]
pub enum PackageKind {
    NeovimPlugin,
    LspServer,
    Formatter,
    Linter,
    Debugger,
    CliTool,
}

/// A package of the catalog.
#[derive(Debug, Clone)]
pub struct CatalogEntry {
    pub id: String,
    pub name: String,
    pub description: String,
    pub kind: PackageKind,
    pub source: String,
    pub version: String,
    pub ownership: OwnershipLane,
    pub install_mechanism: String,
    pub runtime_compatibility: Vec<String>,
    pub detection_rules: Vec<String>,
    pub recommendation_rules: Vec<String>,
}

/// A package installed in the shared cache.
#[derive(Debug, Clone)]
pub struct InstalledPackage {
    pub catalog_id: String,
    pub version: String,
    pub installed_at: String,
    pub path: String,
}

/// The packages pinned by one workspace.
#[derive(Debug, Clone)]
pub struct PackageManifest {
    pub workspace_id: i64,
    pub runtime_version: String,
    pub packages: Vec<InstalledPackage>,
    pub manifest_hash: String,
    pub lock_hash: String,
}

pub struct CatalogEntryView {
    pub id: Seq<char>,
    pub name: Seq<char>,
    pub description: Seq<char>,
    pub kind: PackageKind,
    pub source: Seq<char>,
    pub version: Seq<char>,
    pub ownership: OwnershipLane,
    pub install_mechanism: Seq<char>,
    pub runtime_compatibility: Seq<Seq<char>>,
    pub detection_rules: Seq<Seq<char>>,
    pub recommendation_rules: Seq<Seq<char>>,
}

impl View for CatalogEntry {
    type V = CatalogEntryView;

    open spec fn view(&self) -> CatalogEntryView {
        CatalogEntryView {
            id: self.id@,
            name: self.name@,
            description: self.description@,
            kind: self.kind,
            source: self.source@,
            version: self.version@,
            ownership: self.ownership,
            install_mechanism: self.install_mechanism@,
            runtime_compatibility: strings_view(self.runtime_compatibility@),
            detection_rules: strings_view(self.detection_rules@),
            recommendation_rules: strings_view(self.recommendation_rules@),
        }
    }
}

impl CatalogEntry {
    fn duplicate(&self) -> (r: Self)
        ensures
            r@ == self@,
    {
        CatalogEntry {
            id: copy_string(&self.id),
            name: copy_string(&self.name),
            description: copy_string(&self.description),
            kind: self.kind,
            source: copy_string(&self.source),
            version: copy_string(&self.version),
            ownership: self.ownership,
            install_mechanism: copy_string(&self.install_mechanism),
            runtime_compatibility: copy_strings(&self.runtime_compatibility),
            detection_rules: copy_strings(&self.detection_rules),
            recommendation_rules: copy_strings(&self.recommendation_rules),
        }
    }
}

pub open spec fn entries_view(s: Seq<CatalogEntry>) -> Seq<CatalogEntryView> {
    s.map_values(|e: CatalogEntry| e@)
}

pub open spec fn entry_ids(s: Seq<CatalogEntryView>) -> Seq<Seq<char>> {
    s.map_values(|e: CatalogEntryView| e.id)
}

/// The catalog after registering `e`: it replaces the entry with its id, or
/// comes last when there is none.
pub open spec fn registered(s: Seq<CatalogEntryView>, e: CatalogEntryView) -> Seq<CatalogEntryView> {
    let k = first_match(entry_ids(s), e.id);
    if k < s.len() {
        s.update(k, e)
    } else {
        s.push(e)
    }
}

/// The entry with id `id`, if any.
pub open spec fn lookup(s: Seq<CatalogEntryView>, id: Seq<char>) -> Option<CatalogEntryView> {
    let k = first_match(entry_ids(s), id);
    if k < s.len() {
        Some(s[k])
    } else {
        None
    }
}

/// An entry matches a lowercased query when its lowercased name or
/// description, or its id, contains it.
pub open spec fn matches_query(e: CatalogEntryView, q: Seq<char>) -> bool {
    has_substring(lowercase(e.name), q) || has_substring(lowercase(e.description), q)
        || has_substring(e.id, q)
}

pub open spec fn search_results(s: Seq<CatalogEntryView>, query: Seq<char>) -> Seq<CatalogEntryView> {
    s.filter(|e: CatalogEntryView| matches_query(e, lowercase(query)))
}

/// The cache directory of a package version.
pub open spec fn package_dir(cache: Seq<char>, e: CatalogEntryView) -> Seq<char> {
    path_join(path_join(cache, e.id), e.version)
}

/// The catalog after registering each of `es` in turn.
pub open spec fn registered_all(s: Seq<CatalogEntryView>, es: Seq<CatalogEntryView>) -> Seq<
    CatalogEntryView,
>
    decreases es.len(),
{
    if es.len() == 0 {
        s
    } else {
        registered(registered_all(s, es.drop_last()), es.last())
    }
}

/// The package manager.
pub struct PackageManager {
    catalog: Vec<CatalogEntry>,
    cache_dir: String,
}

impl PackageManager {
    #[verifier::type_invariant]
    spec fn distinct_ids(self) -> bool {
        forall|a: int, b: int|
            0 <= a < b < self.catalog@.len() ==> #[trigger] self.catalog@[a].id@
                != #[trigger] self.catalog@[b].id@
    }

    /// The catalog, in the order entries were first registered.
    pub closed spec fn entries(self) -> Seq<CatalogEntryView> {
        entries_view(self.catalog@)
    }

    pub closed spec fn cache(self) -> Seq<char> {
        self.cache_dir@
    }

    /// An empty catalog installing into `cache_dir`.
    pub fn new(cache_dir: String) -> (r: Self)
        ensures
            r.entries() == Seq::<CatalogEntryView>::empty(),
            r.cache() == cache_dir@,
    {
        let r = PackageManager { catalog: Vec::new(), cache_dir };
        assert(r.entries() =~= Seq::<CatalogEntryView>::empty());
        r
    }

    fn position(&self, id: &str) -> (r: usize)
        ensures
            r as int == first_match(entry_ids(self.entries()), id@),
            r <= self.entries().len(),
    {
        let ghost keys = entry_ids(self.entries());
        let mut i: usize = 0;
        while i < self.catalog.len() && !str_eq(self.catalog[i].id.as_str(), id)
            invariant
                i <= self.catalog@.len(),
                keys == entry_ids(self.entries()),
                forall|j: int| 0 <= j < i ==> keys[j] != id@,
            decreases self.catalog.len() - i,
        {
            assert(keys[i as int] == self.catalog@[i as int].id@);
            i = i + 1;
        }
        if i < self.catalog.len() {
            assert(keys[i as int] == self.catalog@[i as int].id@);
        }
        proof {
            lemma_first_match_is(keys, id@, i as int);
        }
        i
    }

    /// Adds `entry` to the catalog, replacing the entry with the same id.
    pub fn register_curated(&mut self, entry: CatalogEntry)
        ensures
            final(self).entries() == registered(old(self).entries(), entry@),
            final(self).cache() == old(self).cache(),
    {
        proof {
            use_type_invariant(&*self);
        }
        let k = self.position(entry.id.as_str());
        let ghost before = self.entries();
        let ghost ev = entry@;
        let ghost keys = entry_ids(before);
        proof {
            lemma_first_match_found(keys, ev.id);
        }
        let mut taken = PackageManager { catalog: Vec::new(), cache_dir: String::new() };
        std::mem::swap(&mut taken, self);
        let PackageManager { mut catalog, cache_dir } = taken;
        let ghost old_catalog = catalog@;
        if k < catalog.len() {
            catalog.set(k, entry);
            proof {
                assert forall|a: int, b: int| 0 <= a < b < catalog@.len() implies #[trigger] catalog@[a].id@
                    != #[trigger] catalog@[b].id@ by {
                    assert(keys[a] == old_catalog[a].id@);
                    assert(keys[b] == old_catalog[b].id@);
                }
            }
        } else {
            catalog.push(entry);
            proof {
                assert forall|a: int, b: int| 0 <= a < b < catalog@.len() implies #[trigger] catalog@[a].id@
                    != #[trigger] catalog@[b].id@ by {
                    if b == catalog@.len() - 1 {
                        assert(keys[a] == old_catalog[a].id@);
                        assert(keys.contains(keys[a]));
                    }
                }
            }
        }
        *self = PackageManager { catalog, cache_dir };
        proof {
            if k < before.len() {
                assert(self.entries() =~= before.update(k as int, ev));
            } else {
                assert(self.entries() =~= before.push(ev));
            }
        }
    }

    /// The whole catalog.
    pub fn list_catalog(&self) -> (r: Vec<CatalogEntry>)
        ensures
            entries_view(r@) == self.entries(),
    {
        let mut out: Vec<CatalogEntry> = Vec::new();
        let mut i: usize = 0;
        while i < self.catalog.len()
            invariant
                i <= self.catalog@.len(),
                entries_view(out@) == self.entries().subrange(0, i as int),
            decreases self.catalog.len() - i,
        {
            let ghost prev = entries_view(out@);
            let e = self.catalog[i].duplicate();
            let ghost ev = e@;
            out.push(e);
            assert(entries_view(out@) =~= prev.push(ev));
            assert(self.entries().subrange(0, i + 1) =~= self.entries().subrange(0, i as int).push(ev));
            i = i + 1;
        }
        assert(self.entries().subrange(0, i as int) =~= self.entries());
        out
    }

    /// The entry with id `id`, if any.
    pub fn get_entry(&self, id: &str) -> (r: Option<CatalogEntry>)
        ensures
            match r {
                Some(e) => lookup(self.entries(), id@) == Some(e@),
                None => lookup(self.entries(), id@) is None,
            },
    {
        let k = self.position(id);
        if k < self.catalog.len() {
            Some(self.catalog[k].duplicate())
        } else {
            None
        }
    }

    /// The entries whose lowercased name or description, or whose id,
    /// contains the lowercased query, in catalog order.
    pub fn search(&self, query: &str) -> (r: Vec<CatalogEntry>)
        ensures
            entries_view(r@) == search_results(self.entries(), query@),
    {
        let q = to_lowercase(query);
        let ghost pred = |e: CatalogEntryView| matches_query(e, lowercase(query@));
        let ghost es = self.entries();
        let mut out: Vec<CatalogEntry> = Vec::new();
        let mut i: usize = 0;
        assert(es.subrange(0, 0) =~= Seq::<CatalogEntryView>::empty());
        while i < self.catalog.len()
            invariant
                i <= self.catalog@.len(),
                es == self.entries(),
                q@ == lowercase(query@),
                pred == (|e: CatalogEntryView| matches_query(e, lowercase(query@))),
                entries_view(out@) == es.subrange(0, i as int).filter(pred),
            decreases self.catalog.len() - i,
        {
            let e = &self.catalog[i];
            let ghost ev = e@;
            assert(es[i as int] == ev);
            proof {
                assert(es.subrange(0, i + 1) =~= es.subrange(0, i as int).push(ev));
                es.subrange(0, i as int).lemma_filter_push(ev, pred);
            }
            let name = to_lowercase(e.name.as_str());
            let desc = to_lowercase(e.description.as_str());
            if str_contains(name.as_str(), q.as_str()) || str_contains(desc.as_str(), q.as_str())
                || str_contains(e.id.as_str(), q.as_str()) {
                let ghost prev = entries_view(out@);
                let d = e.duplicate();
                out.push(d);
                assert(entries_view(out@) =~= prev.push(ev));
            }
            i = i + 1;
        }
        assert(es.subrange(0, i as int) =~= es);
        out
    }

    /// The entry `catalog_id` and its directory in the shared cache, where
    /// each version of a package lives once; `NotFound` when the catalog has
    /// no such entry.
    pub fn install_target(&self, catalog_id: &str) -> (r: Result<(CatalogEntry, String), PackageError>)
        ensures
            match lookup(self.entries(), catalog_id@) {
                Some(e) => r matches Ok(p) && p.0@ == e && p.1@ == package_dir(self.cache(), e),
                None => r matches Err(PackageError::NotFound(s)) && s@ == catalog_id@,
            },
    {
        match self.get_entry(catalog_id) {
            Some(entry) => {
                let d = join_path(self.cache_dir.as_str(), entry.id.as_str());
                let dir = join_path(d.as_str(), entry.version.as_str());
                Ok((entry, dir))
            },
            None => Err(PackageError::NotFound(owned(catalog_id))),
        }
    }

    /// The installed package for `entry` in `dir`, stamped `installed_at`,
    /// once its directory is in place; `InstallFailed` with the reason when
    /// the directory could not be made.
    pub fn finish_install(
        entry: CatalogEntry,
        dir: String,
        prepared: Result<(), String>,
        installed_at: String,
    ) -> (r: Result<InstalledPackage, PackageError>)
        ensures
            match prepared {
                Ok(_) => r matches Ok(p) && p.catalog_id@ == entry.id@ && p.version@
                    == entry.version@ && p.installed_at@ == installed_at@ && p.path@ == dir@,
                Err(e) => r matches Err(PackageError::InstallFailed(m)) && m@ == e@,
            },
    {
        match prepared {
            Ok(_) => Ok(
                InstalledPackage {
                    catalog_id: entry.id,
                    version: entry.version,
                    installed_at,
                    path: dir,
                },
            ),
            Err(e) => Err(PackageError::InstallFailed(e)),
        }
    }

    /// As `finish_install`, stamped with the current time (empty when the
    /// clock cannot be rendered).
    pub fn complete_install(entry: CatalogEntry, dir: String, prepared: Result<(), String>) -> (r:
        Result<InstalledPackage, PackageError>)
        ensures
            match prepared {
                Ok(_) => r matches Ok(p) && p.catalog_id@ == entry.id@ && p.version@
                    == entry.version@ && p.path@ == dir@,
                Err(e) => r matches Err(PackageError::InstallFailed(m)) && m@ == e@,
            },
    {
        let at = match now_rfc3339() {
            Some(t) => t,
            None => String::new(),
        };
        Self::finish_install(entry, dir, prepared, at)
    }

    /// The shared cache directory.
    pub fn cache_dir(&self) -> (r: &String)
        ensures
            r@ == self.cache(),
    {
        &self.cache_dir
    }
}


/// The curated catalog shipped with the editor, in registration order.
pub open spec fn curated_catalog() -> Seq<CatalogEntryView> {
    seq![
        CatalogEntryView {
            id: "nvim-treesitter"@,
            name: "nvim-treesitter"@,
            description: "Syntax highlighting and parsing"@,
            kind: PackageKind::NeovimPlugin,
            source: "https://github.com/nvim-treesitter/nvim-treesitter"@,
            version: "latest"@,
            ownership: OwnershipLane::Curated,
            install_mechanism: "git"@,
            runtime_compatibility: seq!["neovim>=0.9"@],
            detection_rules: seq![],
            recommendation_rules: seq!["always"@],
        },
        CatalogEntryView {
            id: "telescope-nvim"@,
            name: "telescope.nvim"@,
            description: "Fuzzy finder"@,
            kind: PackageKind::NeovimPlugin,
            source: "https://github.com/nvim-telescope/telescope.nvim"@,
            version: "latest"@,
            ownership: OwnershipLane::Curated,
            install_mechanism: "git"@,
            runtime_compatibility: seq!["neovim>=0.9"@],
            detection_rules: seq![],
            recommendation_rules: seq!["always"@],
        },
        CatalogEntryView {
            id: "lua-language-server"@,
            name: "lua-language-server"@,
            description: "LSP for Lua"@,
            kind: PackageKind::LspServer,
            source: "https://github.com/LuaLS/lua-language-server"@,
            version: "latest"@,
            ownership: OwnershipLane::Curated,
            install_mechanism: "github-release"@,
            runtime_compatibility: seq!["neovim>=0.9"@],
            detection_rules: seq!["file:*.lua"@],
            recommendation_rules: seq!["file:*.lua"@],
        },
        CatalogEntryView {
            id: "prettier"@,
            name: "prettier"@,
            description: "Code formatter"@,
            kind: PackageKind::Formatter,
            source: "npm:prettier"@,
            version: "latest"@,
            ownership: OwnershipLane::Curated,
            install_mechanism: "npm"@,
            runtime_compatibility: seq![],
            detection_rules: seq!["file:package.json"@],
            recommendation_rules: seq!["framework.react"@, "framework.nextjs"@],
        },
        CatalogEntryView {
            id: "eslint"@,
            name: "eslint"@,
            description: "Linter for JS/TS"@,
            kind: PackageKind::Linter,
            source: "npm:eslint"@,
            version: "latest"@,
            ownership: OwnershipLane::Curated,
            install_mechanism: "npm"@,
            runtime_compatibility: seq![],
            detection_rules: seq!["file:package.json"@],
            recommendation_rules: seq!["language.typescript"@, "language.javascript"@],
        },
        CatalogEntryView {
            id: "rust-analyzer"@,
            name: "rust-analyzer"@,
            description: "LSP for Rust"@,
            kind: PackageKind::LspServer,
            source: "https://github.com/rust-lang/rust-analyzer"@,
            version: "latest"@,
            ownership: OwnershipLane::Curated,
            install_mechanism: "github-release"@,
            runtime_compatibility: seq![],
            detection_rules: seq!["file:Cargo.toml"@],
            recommendation_rules: seq!["language.rust"@],
        },
        CatalogEntryView {
            id: "pyright"@,
            name: "pyright"@,
            description: "LSP for Python"@,
            kind: PackageKind::LspServer,
            source: "npm:pyright"@,
            version: "latest"@,
            ownership: OwnershipLane::Curated,
            install_mechanism: "npm"@,
            runtime_compatibility: seq![],
            detection_rules: seq!["file:pyproject.toml"@, "file:setup.py"@],
            recommendation_rules: seq!["language.python"@],
        },
        CatalogEntryView {
            id: "gopls"@,
            name: "gopls"@,
            description: "LSP for Go"@,
            kind: PackageKind::LspServer,
            source: "golang.org/x/tools/gopls"@,
            version: "latest"@,
            ownership: OwnershipLane::Curated,
            install_mechanism: "go-install"@,
            runtime_compatibility: seq![],
            detection_rules: seq!["file:go.mod"@],
            recommendation_rules: seq!["language.go"@],
        },
    ]
}

fn curated(
    id: &str,
    name: &str,
    description: &str,
    kind: PackageKind,
    source: &str,
    install_mechanism: &str,
    runtime_compatibility: &[&str],
    detection_rules: &[&str],
    recommendation_rules: &[&str],
) -> (r: CatalogEntry)
    ensures
        r@ == (CatalogEntryView {
            id: id@,
            name: name@,
            description: description@,
            kind,
            source: source@,
            version: "latest"@,
            ownership: OwnershipLane::Curated,
            install_mechanism: install_mechanism@,
            runtime_compatibility: strs_view(runtime_compatibility@),
            detection_rules: strs_view(detection_rules@),
            recommendation_rules: strs_view(recommendation_rules@),
        }),
{
    CatalogEntry {
        id: owned(id),
        name: owned(name),
        description: owned(description),
        kind,
        source: owned(source),
        version: owned("latest"),
        ownership: OwnershipLane::Curated,
        install_mechanism: owned(install_mechanism),
        runtime_compatibility: owned_all(runtime_compatibility),
        detection_rules: owned_all(detection_rules),
        recommendation_rules: owned_all(recommendation_rules),
    }
}

/// The entries of the curated catalog.
fn curated_entries() -> (r: Vec<CatalogEntry>)
    ensures
        entries_view(r@) == curated_catalog(),
{
    let e0 = curated(
        "nvim-treesitter",
        "nvim-treesitter",
        "Syntax highlighting and parsing",
        PackageKind::NeovimPlugin,
        "https://github.com/nvim-treesitter/nvim-treesitter",
        "git",
        &["neovim>=0.9"],
        &[],
        &["always"],
    );
    let e1 = curated(
        "telescope-nvim",
        "telescope.nvim",
        "Fuzzy finder",
        PackageKind::NeovimPlugin,
        "https://github.com/nvim-telescope/telescope.nvim",
        "git",
        &["neovim>=0.9"],
        &[],
        &["always"],
    );
    let e2 = curated(
        "lua-language-server",
        "lua-language-server",
        "LSP for Lua",
        PackageKind::LspServer,
        "https://github.com/LuaLS/lua-language-server",
        "github-release",
        &["neovim>=0.9"],
        &["file:*.lua"],
        &["file:*.lua"],
    );
    let e3 = curated(
        "prettier",
        "prettier",
        "Code formatter",
        PackageKind::Formatter,
        "npm:prettier",
        "npm",
        &[],
        &["file:package.json"],
        &["framework.react", "framework.nextjs"],
    );
    let e4 = curated(
        "eslint",
        "eslint",
        "Linter for JS/TS",
        PackageKind::Linter,
        "npm:eslint",
        "npm",
        &[],
        &["file:package.json"],
        &["language.typescript", "language.javascript"],
    );
    let e5 = curated(
        "rust-analyzer",
        "rust-analyzer",
        "LSP for Rust",
        PackageKind::LspServer,
        "https://github.com/rust-lang/rust-analyzer",
        "github-release",
        &[],
        &["file:Cargo.toml"],
        &["language.rust"],
    );
    let e6 = curated(
        "pyright",
        "pyright",
        "LSP for Python",
        PackageKind::LspServer,
        "npm:pyright",
        "npm",
        &[],
        &["file:pyproject.toml", "file:setup.py"],
        &["language.python"],
    );
    let e7 = curated(
        "gopls",
        "gopls",
        "LSP for Go",
        PackageKind::LspServer,
        "golang.org/x/tools/gopls",
        "go-install",
        &[],
        &["file:go.mod"],
        &["language.go"],
    );
    assert(e0@.runtime_compatibility =~= seq!["neovim>=0.9"@]);
    assert(e0@.detection_rules =~= seq![]);
    assert(e0@.recommendation_rules =~= seq!["always"@]);
    assert(e1@.runtime_compatibility =~= seq!["neovim>=0.9"@]);
    assert(e1@.detection_rules =~= seq![]);
    assert(e1@.recommendation_rules =~= seq!["always"@]);
    assert(e2@.runtime_compatibility =~= seq!["neovim>=0.9"@]);
    assert(e2@.detection_rules =~= seq!["file:*.lua"@]);
    assert(e2@.recommendation_rules =~= seq!["file:*.lua"@]);
    assert(e3@.runtime_compatibility =~= seq![]);
    assert(e3@.detection_rules =~= seq!["file:package.json"@]);
    assert(e3@.recommendation_rules =~= seq!["framework.react"@, "framework.nextjs"@]);
    assert(e4@.runtime_compatibility =~= seq![]);
    assert(e4@.detection_rules =~= seq!["file:package.json"@]);
    assert(e4@.recommendation_rules =~= seq!["language.typescript"@, "language.javascript"@]);
    assert(e5@.runtime_compatibility =~= seq![]);
    assert(e5@.detection_rules =~= seq!["file:Cargo.toml"@]);
    assert(e5@.recommendation_rules =~= seq!["language.rust"@]);
    assert(e6@.runtime_compatibility =~= seq![]);
    assert(e6@.detection_rules =~= seq!["file:pyproject.toml"@, "file:setup.py"@]);
    assert(e6@.recommendation_rules =~= seq!["language.python"@]);
    assert(e7@.runtime_compatibility =~= seq![]);
    assert(e7@.detection_rules =~= seq!["file:go.mod"@]);
    assert(e7@.recommendation_rules =~= seq!["language.go"@]);
    let r = vec![e0, e1, e2, e3, e4, e5, e6, e7];
    assert(entries_view(r@) =~= curated_catalog());
    r
}

/// Registers the curated catalog, entry by entry, in `pm`.
pub fn init_curated_catalog(pm: &mut PackageManager)
    ensures
        final(pm).entries() == registered_all(old(pm).entries(), curated_catalog()),
        final(pm).cache() == old(pm).cache(),
{
    let entries = curated_entries();
    let ghost es = entries_view(entries@);
    let ghost start = pm.entries();
    let mut rest = entries;
    let mut i: usize = 0;
    assert(es.subrange(0, 0) =~= Seq::<CatalogEntryView>::empty());
    while rest.len() > 0
        invariant
            i + rest@.len() == es.len(),
            es == curated_catalog(),
            entries_view(rest@) == es.subrange(i as int, es.len() as int),
            pm.entries() == registered_all(start, es.subrange(0, i as int)),
            pm.cache() == old(pm).cache(),
        decreases rest.len(),
    {
        let ghost rv = entries_view(rest@);
        let e = rest.remove(0);
        assert(e@ == rv[0]);
        assert(e@ == es[i as int]);
        assert(entries_view(rest@) =~= rv.drop_first());
        assert(es.subrange(0, i + 1).drop_last() =~= es.subrange(0, i as int));
        pm.register_curated(e);
        i = i + 1;
    }
    assert(es.subrange(0, i as int) =~= es);
}


/// Looking up a package right after registering it gives back what was
/// registered, whether it replaced an entry or was added.
pub proof fn register_then_lookup(s: Seq<CatalogEntryView>, e: CatalogEntryView)
    ensures
        lookup(registered(s, e), e.id) == Some(e),
{
    let keys = entry_ids(s);
    let k = first_match(keys, e.id);
    lemma_first_match_found(keys, e.id);
    let t = registered(s, e);
    let tkeys = entry_ids(t);
    if k < s.len() {
        assert forall|j: int| 0 <= j < k implies tkeys[j] != e.id by {
            lemma_first_match_before(keys, e.id, j);
            assert(tkeys[j] == keys[j]);
        }
        lemma_first_match_is(tkeys, e.id, k);
    } else {
        assert forall|j: int| 0 <= j < s.len() implies tkeys[j] != e.id by {
            assert(tkeys[j] == keys[j]);
            if keys[j] == e.id {
                assert(keys.contains(e.id));
            }
        }
        lemma_first_match_is(tkeys, e.id, s.len() as int);
    }
}


/// `search` finds an entry of the catalog exactly when the query, compared
/// in lowercase, occurs in the entry's lowercased name, in its lowercased
/// description or in its id; nothing outside the catalog is found.
pub proof fn search_matches_name_description_or_id(
    s: Seq<CatalogEntryView>,
    query: Seq<char>,
    e: CatalogEntryView,
)
    ensures
        search_results(s, query).contains(e) <==> s.contains(e) && (has_substring(
            lowercase(e.name),
            lowercase(query),
        ) || has_substring(lowercase(e.description), lowercase(query)) || has_substring(
            e.id,
            lowercase(query),
        )),
{
    let pred = |x: CatalogEntryView| matches_query(x, lowercase(query));
    let f = s.filter(pred);
    if f.contains(e) {
        s.lemma_filter_contains_rev(pred, e);
        let k = choose|k: int| 0 <= k < f.len() && f[k] == e;
        s.lemma_filter_pred(pred, k);
    }
    if s.contains(e) && matches_query(e, lowercase(query)) {
        let i = choose|i: int| 0 <= i < s.len() && s[i] == e;
        s.lemma_filter_contains(pred, i);
    }
}


/// Where each entry of `s.filter(p)` stands in `s`: increasing positions.
proof fn lemma_filter_positions(s: Seq<CatalogEntryView>, p: spec_fn(CatalogEntryView) -> bool) -> (idx: Seq<int>)
    ensures
        idx.len() == s.filter(p).len(),
        forall|k: int| 0 <= k < idx.len() ==> 0 <= #[trigger] idx[k] < s.len() && s[idx[k]] == s.filter(p)[k],
        forall|a: int, b: int| 0 <= a < b < idx.len() ==> #[trigger] idx[a] < #[trigger] idx[b],
    decreases s.len(),
{
    if s.len() == 0 {
        seq![]
    } else {
        let init = s.drop_last();
        let prev = lemma_filter_positions(init, p);
        assert(init.push(s.last()) =~= s);
        init.lemma_filter_push(s.last(), p);
        assert forall|k: int| 0 <= k < prev.len() implies s[prev[k]] == init[prev[k]] by {}
        if p(s.last()) {
            let idx = prev.push(s.len() - 1);
            assert forall|k: int| 0 <= k < idx.len() implies 0 <= #[trigger] idx[k] < s.len() && s[idx[k]]
                == s.filter(p)[k] by {
                if k < prev.len() {
                    assert(idx[k] == prev[k]);
                }
            }
            assert forall|a: int, b: int| 0 <= a < b < idx.len() implies #[trigger] idx[a] < #[trigger] idx[b] by {
                assert(idx[a] == prev[a]);
                if b < prev.len() {
                    assert(idx[b] == prev[b]);
                }
            }
            idx
        } else {
            prev
        }
    }
}

/// `search` keeps the catalog's order: each result is the catalog entry at
/// some position, and later results stand at later positions.
pub proof fn search_keeps_catalog_order(s: Seq<CatalogEntryView>, query: Seq<char>)
    ensures
        exists|idx: Seq<int>|
            #![trigger idx.len()]
            idx.len() == search_results(s, query).len() && (forall|k: int|
                0 <= k < idx.len() ==> 0 <= #[trigger] idx[k] < s.len() && s[idx[k]] == search_results(
                    s,
                    query,
                )[k]) && (forall|a: int, b: int| 0 <= a < b < idx.len() ==> #[trigger] idx[a] < #[trigger] idx[b]),
{
    let pred = |e: CatalogEntryView| matches_query(e, lowercase(query));
    let idx = lemma_filter_positions(s, pred);
    assert(idx.len() == search_results(s, query).len());
}

} // verus!
