//! Project detection and recommendations: deterministic artifacts
//! (`package.json`, `Cargo.toml`, `pyproject.toml`, ...) reveal project
//! capabilities, and capabilities map to curated packages. Detection never
//! fails: what cannot be read contributes nothing.

use vstd::prelude::*;
use crate::text::{
    chars_of, copy_string, has_substring, matches_at, occurs_at, owned, push_str, str_contains,
    strings_view,
};

verus! {

/// Errors of project detection.
#[derive(Debug, Clone)]
pub enum DetectionError {
    Inner(String),
}

impl DetectionError {
    /// The error's message: `detection error: ` and its detail.
    pub fn to_text(&self) -> (r: String)
        ensures
            r@ == "detection error: "@ + match *self {
                DetectionError::Inner(s) => s@,
            },
    {
        match self {
            DetectionError::Inner(s) => crate::text::concat("detection error: ", s.as_str()),
        }
    }
}

/// A capability of a project.
#[derive(Debug, Clone, Copy, PartialEq, Eq, Hash, Structural)]
pub enum Capability {
    LanguageTypeScript,
    LanguageJavaScript,
    LanguagePython,
    LanguageRust,
    LanguageGo,
    LanguageCSharp,
    FrameworkReact,
    FrameworkNextjs,
    FrameworkSvelte,
    FrameworkFastapi,
    FrameworkExpress,
    StyleTailwind,
    TestVitest,
    TestPlaywright,
    TestPytest,
    TestCargo,
    DatabasePrisma,
    DatabaseSqlalchemy,
    ContainerDocker,
    DotnetAspNet,
    PackageManagerPnpm,
    PackageManagerNpm,
    PackageManagerYarn,
    PackageManagerPip,
    PackageManagerCargo,
    PackageManagerGo,
}

/// The stable name of a capability.
pub open spec fn capability_text(c: Capability) -> Seq<char> {
    match c {
        Capability::LanguageTypeScript => "language.typescript"@,
        Capability::LanguageJavaScript => "language.javascript"@,
        Capability::LanguagePython => "language.python"@,
        Capability::LanguageRust => "language.rust"@,
        Capability::LanguageGo => "language.go"@,
        Capability::LanguageCSharp => "language.csharp"@,
        Capability::FrameworkReact => "framework.react"@,
        Capability::FrameworkNextjs => "framework.nextjs"@,
        Capability::FrameworkSvelte => "framework.svelte"@,
        Capability::FrameworkFastapi => "framework.fastapi"@,
        Capability::FrameworkExpress => "framework.express"@,
        Capability::StyleTailwind => "style.tailwind"@,
        Capability::TestVitest => "test.vitest"@,
        Capability::TestPlaywright => "test.playwright"@,
        Capability::TestPytest => "test.pytest"@,
        Capability::TestCargo => "test.cargo"@,
        Capability::DatabasePrisma => "database.prisma"@,
        Capability::DatabaseSqlalchemy => "database.sqlalchemy"@,
        Capability::ContainerDocker => "container.docker"@,
        Capability::DotnetAspNet => "dotnet.aspnet"@,
        Capability::PackageManagerPnpm => "package-manager.pnpm"@,
        Capability::PackageManagerNpm => "package-manager.npm"@,
        Capability::PackageManagerYarn => "package-manager.yarn"@,
        Capability::PackageManagerPip => "package-manager.pip"@,
        Capability::PackageManagerCargo => "package-manager.cargo"@,
        Capability::PackageManagerGo => "package-manager.go"@,
    }
}

/// All capabilities, in declaration order.
pub open spec fn all_capabilities() -> Seq<Capability> {
    seq![
        Capability::LanguageTypeScript,
        Capability::LanguageJavaScript,
        Capability::LanguagePython,
        Capability::LanguageRust,
        Capability::LanguageGo,
        Capability::LanguageCSharp,
        Capability::FrameworkReact,
        Capability::FrameworkNextjs,
        Capability::FrameworkSvelte,
        Capability::FrameworkFastapi,
        Capability::FrameworkExpress,
        Capability::StyleTailwind,
        Capability::TestVitest,
        Capability::TestPlaywright,
        Capability::TestPytest,
        Capability::TestCargo,
        Capability::DatabasePrisma,
        Capability::DatabaseSqlalchemy,
        Capability::ContainerDocker,
        Capability::DotnetAspNet,
        Capability::PackageManagerPnpm,
        Capability::PackageManagerNpm,
        Capability::PackageManagerYarn,
        Capability::PackageManagerPip,
        Capability::PackageManagerCargo,
        Capability::PackageManagerGo
    ]
}

impl Capability {
    /// The stable name of this capability.
    pub fn as_str(&self) -> (r: &'static str)
        ensures
            r@ == capability_text(*self),
    {
        match self {
            Capability::LanguageTypeScript => "language.typescript",
            Capability::LanguageJavaScript => "language.javascript",
            Capability::LanguagePython => "language.python",
            Capability::LanguageRust => "language.rust",
            Capability::LanguageGo => "language.go",
            Capability::LanguageCSharp => "language.csharp",
            Capability::FrameworkReact => "framework.react",
            Capability::FrameworkNextjs => "framework.nextjs",
            Capability::FrameworkSvelte => "framework.svelte",
            Capability::FrameworkFastapi => "framework.fastapi",
            Capability::FrameworkExpress => "framework.express",
            Capability::StyleTailwind => "style.tailwind",
            Capability::TestVitest => "test.vitest",
            Capability::TestPlaywright => "test.playwright",
            Capability::TestPytest => "test.pytest",
            Capability::TestCargo => "test.cargo",
            Capability::DatabasePrisma => "database.prisma",
            Capability::DatabaseSqlalchemy => "database.sqlalchemy",
            Capability::ContainerDocker => "container.docker",
            Capability::DotnetAspNet => "dotnet.aspnet",
            Capability::PackageManagerPnpm => "package-manager.pnpm",
            Capability::PackageManagerNpm => "package-manager.npm",
            Capability::PackageManagerYarn => "package-manager.yarn",
            Capability::PackageManagerPip => "package-manager.pip",
            Capability::PackageManagerCargo => "package-manager.cargo",
            Capability::PackageManagerGo => "package-manager.go",
        }
    }
}

/// What a scan found about one file.
#[derive(Debug, Clone)]
pub enum FileEvidence {
    /// The file does not exist.
    Absent,
    /// The file exists but could not be read.
    Unreadable,
    /// The file exists with this content.
    Content(String),
}

/// What a scan observed in a project root: which marker files exist, the
/// contents of `package.json` and `pyproject.toml`, and the names of the
/// root directory's entries.
#[derive(Debug, Clone)]
pub struct ProjectEvidence {
    pub root: String,
    pub package_json: FileEvidence,
    pub tsconfig: bool,
    pub pnpm_lock: bool,
    pub yarn_lock: bool,
    pub pyproject: FileEvidence,
    pub setup_py: bool,
    pub cargo_toml: bool,
    pub go_mod: bool,
    pub root_entries: Vec<String>,
    pub dockerfile: bool,
    pub docker_compose: bool,
}

/// Detected capabilities and marker files of a project.
#[derive(Debug, Clone)]
pub struct ProjectInfo {
    pub root: String,
    pub capabilities: Vec<String>,
    pub detected_files: Vec<String>,
}

/// A recommended package and why.
#[derive(Debug, Clone)]
pub struct Recommendation {
    pub package_id: String,
    pub reason: String,
}

pub struct RecommendationView {
    pub package_id: Seq<char>,
    pub reason: Seq<char>,
}

impl View for Recommendation {
    type V = RecommendationView;

    open spec fn view(&self) -> RecommendationView {
        RecommendationView { package_id: self.package_id@, reason: self.reason@ }
    }
}

pub open spec fn recommendations_view(s: Seq<Recommendation>) -> Seq<RecommendationView> {
    s.map_values(|r: Recommendation| r@)
}

pub open spec fn file_exists(f: FileEvidence) -> bool {
    !(f is Absent)
}

/// The content of a readable file.
pub open spec fn file_content(f: FileEvidence) -> Option<Seq<char>> {
    match f {
        FileEvidence::Content(s) => Some(s@),
        _ => None,
    }
}

/// `p` is a suffix of `s`.
pub open spec fn has_suffix(s: Seq<char>, p: Seq<char>) -> bool {
    p.len() <= s.len() && s.subrange(s.len() - p.len(), s.len() as int) == p
}

/// `content` is readable and mentions `n`.
pub open spec fn mentions(content: Option<Seq<char>>, n: Seq<char>) -> bool {
    content matches Some(t) && has_substring(t, n)
}

pub open spec fn is_csproj(name: Seq<char>) -> bool {
    has_suffix(name, ".csproj"@)
}

pub open spec fn is_web_csproj(name: Seq<char>) -> bool {
    is_csproj(name) && (has_substring(name, "aspnet"@) || has_substring(name, "web"@))
}

/// Whether the evidence shows capability `c`.
pub open spec fn has_capability(ev: ProjectEvidence, c: Capability) -> bool {
    let pkg = file_content(ev.package_json);
    let py = file_content(ev.pyproject);
    let entries = strings_view(ev.root_entries@);
    match c {
        Capability::LanguageTypeScript => (pkg is Some && mentions(pkg, "\"typescript\""@))
            || ev.tsconfig,
        Capability::LanguageJavaScript => pkg is Some && !mentions(pkg, "\"typescript\""@)
            && !ev.tsconfig,
        Capability::LanguagePython => file_exists(ev.pyproject) || ev.setup_py,
        Capability::LanguageRust => ev.cargo_toml,
        Capability::LanguageGo => ev.go_mod,
        Capability::LanguageCSharp => exists|i: int| 0 <= i < entries.len() && is_csproj(entries[i]),
        Capability::FrameworkReact => mentions(pkg, "\"react\""@),
        Capability::FrameworkNextjs => mentions(pkg, "\"next\""@),
        Capability::FrameworkSvelte => mentions(pkg, "\"svelte\""@),
        Capability::FrameworkFastapi => mentions(py, "fastapi"@),
        Capability::FrameworkExpress => mentions(pkg, "\"express\""@),
        Capability::StyleTailwind => mentions(pkg, "\"tailwindcss\""@),
        Capability::TestVitest => mentions(pkg, "\"vitest\""@),
        Capability::TestPlaywright => mentions(pkg, "\"@playwright/test\""@),
        Capability::TestPytest => mentions(py, "pytest"@),
        Capability::TestCargo => ev.cargo_toml,
        Capability::DatabasePrisma => mentions(pkg, "\"prisma\""@),
        Capability::DatabaseSqlalchemy => mentions(py, "sqlalchemy"@),
        Capability::ContainerDocker => ev.dockerfile || ev.docker_compose,
        Capability::DotnetAspNet => exists|i: int| 0 <= i < entries.len() && is_web_csproj(entries[i]),
        Capability::PackageManagerPnpm => pkg is Some && ev.pnpm_lock,
        Capability::PackageManagerNpm => pkg is Some && !ev.pnpm_lock && !ev.yarn_lock,
        Capability::PackageManagerYarn => pkg is Some && !ev.pnpm_lock && ev.yarn_lock,
        Capability::PackageManagerPip => file_exists(ev.pyproject) || ev.setup_py,
        Capability::PackageManagerCargo => ev.cargo_toml,
        Capability::PackageManagerGo => ev.go_mod,
    }
}

/// The names of the detected capabilities, in declaration order.
pub open spec fn detected_capabilities(ev: ProjectEvidence) -> Seq<Seq<char>> {
    all_capabilities().filter(|c: Capability| has_capability(ev, c)).map_values(
        |c: Capability| capability_text(c),
    )
}

pub open spec fn one_if(b: bool, s: Seq<char>) -> Seq<Seq<char>> {
    if b {
        seq![s]
    } else {
        seq![]
    }
}

/// The marker files found, in scan order; a Docker setup is reported as
/// `Dockerfile`.
pub open spec fn detected_files(ev: ProjectEvidence) -> Seq<Seq<char>> {
    one_if(file_exists(ev.package_json), "package.json"@) + one_if(ev.tsconfig, "tsconfig.json"@)
        + one_if(file_exists(ev.pyproject), "pyproject.toml"@) + one_if(ev.setup_py, "setup.py"@)
        + one_if(ev.cargo_toml, "Cargo.toml"@) + one_if(ev.go_mod, "go.mod"@) + strings_view(
        ev.root_entries@,
    ).filter(|n: Seq<char>| is_csproj(n)) + one_if(ev.dockerfile || ev.docker_compose, "Dockerfile"@)
}

/// The recommendations a capability name leads to.
pub open spec fn recommendations_for(cap: Seq<char>) -> Seq<RecommendationView> {
    if cap == "language.typescript"@ || cap == "language.javascript"@ {
        seq![RecommendationView { package_id: "eslint"@, reason: cap + " project"@ }]
    } else if cap == "framework.react"@ || cap == "framework.nextjs"@ {
        seq![RecommendationView { package_id: "prettier"@, reason: cap + " project"@ }]
    } else if cap == "language.rust"@ {
        seq![RecommendationView { package_id: "rust-analyzer"@, reason: "Rust project"@ }]
    } else if cap == "language.python"@ {
        seq![RecommendationView { package_id: "pyright"@, reason: "Python project"@ }]
    } else if cap == "language.go"@ {
        seq![RecommendationView { package_id: "gopls"@, reason: "Go project"@ }]
    } else if cap == "language.lua"@ {
        seq![RecommendationView { package_id: "lua-language-server"@, reason: "Lua files detected"@ }]
    } else {
        seq![]
    }
}

pub open spec fn recommendations_for_all(caps: Seq<Seq<char>>) -> Seq<RecommendationView>
    decreases caps.len(),
{
    if caps.len() == 0 {
        seq![]
    } else {
        recommendations_for_all(caps.drop_last()) + recommendations_for(caps.last())
    }
}

/// The recommendations for a list of capabilities: Tree-sitter and
/// Telescope always, then the recommendations of each capability in order.
pub open spec fn recommendations(caps: Seq<Seq<char>>) -> Seq<RecommendationView> {
    seq![
        RecommendationView { package_id: "nvim-treesitter"@, reason: "always"@ },
        RecommendationView { package_id: "telescope-nvim"@, reason: "always"@ },
    ] + recommendations_for_all(caps)
}

/// Facts derived once from the evidence.
struct ScanFacts {
    pkg_read: bool,
    ts: bool,
    react: bool,
    next: bool,
    svelte: bool,
    tailwind: bool,
    vitest: bool,
    playwright: bool,
    prisma: bool,
    express: bool,
    fastapi: bool,
    pytest: bool,
    sqlalchemy: bool,
    csproj: bool,
    web_csproj: bool,
}

fn file_mentions(f: &FileEvidence, n: &str) -> (r: bool)
    ensures
        r == mentions(file_content(*f), n@),
{
    match f {
        FileEvidence::Content(s) => str_contains(s.as_str(), n),
        _ => false,
    }
}

fn ends_with(s: &str, p: &str) -> (r: bool)
    ensures
        r == has_suffix(s@, p@),
{
    let sc = chars_of(s);
    let pc = chars_of(p);
    if pc.len() > sc.len() {
        return false;
    }
    let r = matches_at(sc.as_slice(), pc.as_slice(), sc.len() - pc.len());
    r
}

/// `f` records what the evidence `ev` shows.
spec fn facts_hold(ev: ProjectEvidence, f: ScanFacts) -> bool {
    &&& f.pkg_read == (file_content(ev.package_json) is Some)
    &&& f.ts == mentions(file_content(ev.package_json), "\"typescript\""@)
    &&& f.react == mentions(file_content(ev.package_json), "\"react\""@)
    &&& f.next == mentions(file_content(ev.package_json), "\"next\""@)
    &&& f.svelte == mentions(file_content(ev.package_json), "\"svelte\""@)
    &&& f.tailwind == mentions(file_content(ev.package_json), "\"tailwindcss\""@)
    &&& f.vitest == mentions(file_content(ev.package_json), "\"vitest\""@)
    &&& f.playwright == mentions(file_content(ev.package_json), "\"@playwright/test\""@)
    &&& f.prisma == mentions(file_content(ev.package_json), "\"prisma\""@)
    &&& f.express == mentions(file_content(ev.package_json), "\"express\""@)
    &&& f.fastapi == mentions(file_content(ev.pyproject), "fastapi"@)
    &&& f.pytest == mentions(file_content(ev.pyproject), "pytest"@)
    &&& f.sqlalchemy == mentions(file_content(ev.pyproject), "sqlalchemy"@)
    &&& f.csproj == (exists|i: int|
                0 <= i < strings_view(ev.root_entries@).len() && is_csproj(
                    strings_view(ev.root_entries@)[i],
                ))
    &&& f.web_csproj == (exists|i: int|
                0 <= i < strings_view(ev.root_entries@).len() && is_web_csproj(
                    strings_view(ev.root_entries@)[i],
                ))
}

fn has_capability_exec(ev: &ProjectEvidence, f: &ScanFacts, c: Capability) -> (r: bool)
    requires
        facts_hold(*ev, *f),
    ensures
        r == has_capability(*ev, c),
{
    let py_exists = match ev.pyproject {
        FileEvidence::Absent => false,
        _ => true,
    };
    match c {
        Capability::LanguageTypeScript => (f.pkg_read && f.ts) || ev.tsconfig,
        Capability::LanguageJavaScript => f.pkg_read && !f.ts && !ev.tsconfig,
        Capability::LanguagePython => py_exists || ev.setup_py,
        Capability::LanguageRust => ev.cargo_toml,
        Capability::LanguageGo => ev.go_mod,
        Capability::LanguageCSharp => f.csproj,
        Capability::FrameworkReact => f.react,
        Capability::FrameworkNextjs => f.next,
        Capability::FrameworkSvelte => f.svelte,
        Capability::FrameworkFastapi => f.fastapi,
        Capability::FrameworkExpress => f.express,
        Capability::StyleTailwind => f.tailwind,
        Capability::TestVitest => f.vitest,
        Capability::TestPlaywright => f.playwright,
        Capability::TestPytest => f.pytest,
        Capability::TestCargo => ev.cargo_toml,
        Capability::DatabasePrisma => f.prisma,
        Capability::DatabaseSqlalchemy => f.sqlalchemy,
        Capability::ContainerDocker => ev.dockerfile || ev.docker_compose,
        Capability::DotnetAspNet => f.web_csproj,
        Capability::PackageManagerPnpm => f.pkg_read && ev.pnpm_lock,
        Capability::PackageManagerNpm => f.pkg_read && !ev.pnpm_lock && !ev.yarn_lock,
        Capability::PackageManagerYarn => f.pkg_read && !ev.pnpm_lock && ev.yarn_lock,
        Capability::PackageManagerPip => py_exists || ev.setup_py,
        Capability::PackageManagerCargo => ev.cargo_toml,
        Capability::PackageManagerGo => ev.go_mod,
    }
}

fn all_capabilities_exec() -> (r: Vec<Capability>)
    ensures
        r@ == all_capabilities(),
{
    let r = vec![
        Capability::LanguageTypeScript,
        Capability::LanguageJavaScript,
        Capability::LanguagePython,
        Capability::LanguageRust,
        Capability::LanguageGo,
        Capability::LanguageCSharp,
        Capability::FrameworkReact,
        Capability::FrameworkNextjs,
        Capability::FrameworkSvelte,
        Capability::FrameworkFastapi,
        Capability::FrameworkExpress,
        Capability::StyleTailwind,
        Capability::TestVitest,
        Capability::TestPlaywright,
        Capability::TestPytest,
        Capability::TestCargo,
        Capability::DatabasePrisma,
        Capability::DatabaseSqlalchemy,
        Capability::ContainerDocker,
        Capability::DotnetAspNet,
        Capability::PackageManagerPnpm,
        Capability::PackageManagerNpm,
        Capability::PackageManagerYarn,
        Capability::PackageManagerPip,
        Capability::PackageManagerCargo,
        Capability::PackageManagerGo
    ];
    assert(r@ =~= all_capabilities());
    r
}

/// The `.csproj` entries of the root, and whether one names a web project.
fn csproj_entries(entries: &Vec<String>) -> (r: (Vec<String>, bool, bool))
    ensures
        strings_view(r.0@) == strings_view(entries@).filter(|n: Seq<char>| is_csproj(n)),
        r.1 == (exists|i: int|
            0 <= i < strings_view(entries@).len() && is_csproj(strings_view(entries@)[i])),
        r.2 == (exists|i: int|
            0 <= i < strings_view(entries@).len() && is_web_csproj(strings_view(entries@)[i])),
{
    let ghost ev = strings_view(entries@);
    let ghost pred = |n: Seq<char>| is_csproj(n);
    let mut out: Vec<String> = Vec::new();
    let mut any = false;
    let mut web = false;
    let mut i: usize = 0;
    assert(ev.subrange(0, 0) =~= Seq::<Seq<char>>::empty());
    while i < entries.len()
        invariant
            i <= entries@.len(),
            ev == strings_view(entries@),
            pred == (|n: Seq<char>| is_csproj(n)),
            strings_view(out@) == ev.subrange(0, i as int).filter(pred),
            any == (exists|j: int| 0 <= j < i && is_csproj(ev[j])),
            web == (exists|j: int| 0 <= j < i && is_web_csproj(ev[j])),
        decreases entries.len() - i,
    {
        let name = &entries[i];
        assert(ev[i as int] == name@);
        proof {
            assert(ev.subrange(0, i + 1) =~= ev.subrange(0, i as int).push(name@));
            ev.subrange(0, i as int).lemma_filter_push(name@, pred);
        }
        if ends_with(name.as_str(), ".csproj") {
            let ghost before = strings_view(out@);
            out.push(copy_string(name));
            assert(strings_view(out@) =~= before.push(name@));
            any = true;
            if str_contains(name.as_str(), "aspnet") || str_contains(name.as_str(), "web") {
                web = true;
            }
        }
        i = i + 1;
    }
    assert(ev.subrange(0, i as int) =~= ev);
    (out, any, web)
}

/// The names of the capabilities the evidence shows, in declaration order.
fn capability_names(ev: &ProjectEvidence, facts: &ScanFacts) -> (r: Vec<String>)
    requires
        facts_hold(*ev, *facts),
    ensures
        strings_view(r@) == detected_capabilities(*ev),
{
    let all = all_capabilities_exec();
    let ghost pred = |c: Capability| has_capability(*ev, c);
    let ghost text = |c: Capability| capability_text(c);
    let mut capabilities: Vec<String> = Vec::new();
    let mut i: usize = 0;
    assert(all@.subrange(0, 0) =~= Seq::<Capability>::empty());
    while i < all.len()
        invariant
            i <= all@.len(),
            all@ == all_capabilities(),
            pred == (|c: Capability| has_capability(*ev, c)),
            text == (|c: Capability| capability_text(c)),
            facts_hold(*ev, *facts),
            strings_view(capabilities@) == all@.subrange(0, i as int).filter(pred).map_values(
                text,
            ),
        decreases all.len() - i,
    {
        let c = all[i];
        proof {
            assert(all@.subrange(0, i + 1) =~= all@.subrange(0, i as int).push(c));
            all@.subrange(0, i as int).lemma_filter_push(c, pred);
        }
        let ghost before = strings_view(capabilities@);
        if has_capability_exec(ev, facts, c) {
            capabilities.push(owned(c.as_str()));
            assert(strings_view(capabilities@) =~= before.push(capability_text(c)));
            assert(all@.subrange(0, i as int).filter(pred).push(c).map_values(text)
                =~= all@.subrange(0, i as int).filter(pred).map_values(text).push(text(c)));
        }
        i = i + 1;
    }
    assert(all@.subrange(0, i as int) =~= all@);
    capabilities
}

/// The marker files the evidence shows, given the `.csproj` entries of the
/// root.
#[verifier::rlimit(40)]
fn marker_files(ev: &ProjectEvidence, csprojs: &Vec<String>) -> (r: Vec<String>)
    requires
        strings_view(csprojs@) == strings_view(ev.root_entries@).filter(|n: Seq<char>| is_csproj(n)),
    ensures
        strings_view(r@) == detected_files(*ev),
{
    let mut files: Vec<String> = Vec::new();
    let ghost f0 = strings_view(files@);
    if !matches!(ev.package_json, FileEvidence::Absent) {
        files.push(owned("package.json"));
    }
    let ghost f1 = strings_view(files@);
    assert(f1 =~= f0 + one_if(file_exists(ev.package_json), "package.json"@));
    if ev.tsconfig {
        files.push(owned("tsconfig.json"));
    }
    let ghost f2 = strings_view(files@);
    assert(f2 =~= f1 + one_if(ev.tsconfig, "tsconfig.json"@));
    if !matches!(ev.pyproject, FileEvidence::Absent) {
        files.push(owned("pyproject.toml"));
    }
    let ghost f3 = strings_view(files@);
    assert(f3 =~= f2 + one_if(file_exists(ev.pyproject), "pyproject.toml"@));
    if ev.setup_py {
        files.push(owned("setup.py"));
    }
    let ghost f4 = strings_view(files@);
    assert(f4 =~= f3 + one_if(ev.setup_py, "setup.py"@));
    if ev.cargo_toml {
        files.push(owned("Cargo.toml"));
    }
    let ghost f5 = strings_view(files@);
    assert(f5 =~= f4 + one_if(ev.cargo_toml, "Cargo.toml"@));
    if ev.go_mod {
        files.push(owned("go.mod"));
    }
    let ghost f6 = strings_view(files@);
    assert(f6 =~= f5 + one_if(ev.go_mod, "go.mod"@));
    let mut k: usize = 0;
    while k < csprojs.len()
        invariant
            k <= csprojs@.len(),
            strings_view(files@) == f6 + strings_view(csprojs@).subrange(0, k as int),
        decreases csprojs.len() - k,
    {
        let ghost before = strings_view(files@);
        let name = copy_string(&csprojs[k]);
        assert(strings_view(csprojs@)[k as int] == name@);
        files.push(name);
        assert(strings_view(files@) =~= before.push(name@));
        assert(strings_view(files@) =~= f6 + strings_view(csprojs@).subrange(0, k + 1));
        k = k + 1;
    }
    assert(strings_view(csprojs@).subrange(0, k as int) =~= strings_view(csprojs@));
    let ghost f7 = strings_view(files@);
    if ev.dockerfile || ev.docker_compose {
        files.push(owned("Dockerfile"));
    }
    assert(f0 =~= Seq::<Seq<char>>::empty());
    assert(strings_view(files@) =~= f7 + one_if(ev.dockerfile || ev.docker_compose, "Dockerfile"@));
    assert(strings_view(files@) =~= detected_files(*ev));
    files
}

pub struct ProjectScanner;

impl ProjectScanner {
    pub fn new() -> (r: Self) {
        ProjectScanner
    }

    /// The capabilities and marker files shown by the evidence gathered in
    /// a project root.
    pub fn scan(&self, ev: &ProjectEvidence) -> (r: ProjectInfo)
        ensures
            r.root@ == ev.root@,
            strings_view(r.capabilities@) == detected_capabilities(*ev),
            strings_view(r.detected_files@) == detected_files(*ev),
    {
        let (csprojs, csproj, web_csproj) = csproj_entries(&ev.root_entries);
        let facts = ScanFacts {
            pkg_read: match ev.package_json {
                FileEvidence::Content(_) => true,
                _ => false,
            },
            ts: file_mentions(&ev.package_json, "\"typescript\""),
            react: file_mentions(&ev.package_json, "\"react\""),
            next: file_mentions(&ev.package_json, "\"next\""),
            svelte: file_mentions(&ev.package_json, "\"svelte\""),
            tailwind: file_mentions(&ev.package_json, "\"tailwindcss\""),
            vitest: file_mentions(&ev.package_json, "\"vitest\""),
            playwright: file_mentions(&ev.package_json, "\"@playwright/test\""),
            prisma: file_mentions(&ev.package_json, "\"prisma\""),
            express: file_mentions(&ev.package_json, "\"express\""),
            fastapi: file_mentions(&ev.pyproject, "fastapi"),
            pytest: file_mentions(&ev.pyproject, "pytest"),
            sqlalchemy: file_mentions(&ev.pyproject, "sqlalchemy"),
            csproj,
            web_csproj,
        };
        let capabilities = capability_names(ev, &facts);
        let files = marker_files(ev, &csprojs);
        ProjectInfo { root: copy_string(&ev.root), capabilities, detected_files: files }
    }

    /// The recommended packages for the capabilities `caps`: Tree-sitter
    /// and Telescope always come first, then, capability by capability,
    /// ESLint for TypeScript or JavaScript, Prettier for React or Next.js,
    /// and the language server of Rust, Python, Go or Lua.
    pub fn recommend(&self, caps: &[String]) -> (r: Vec<Recommendation>)
        ensures
            recommendations_view(r@) == recommendations(strings_view(caps@)),
    {
        let ghost cv = strings_view(caps@);
        let mut recs: Vec<Recommendation> = Vec::new();
        let mut i: usize = 0;
        assert(cv.subrange(0, 0) =~= Seq::<Seq<char>>::empty());
        while i < caps.len()
            invariant
                i <= caps@.len(),
                cv == strings_view(caps@),
                recommendations_view(recs@) == recommendations_for_all(cv.subrange(0, i as int)),
            decreases caps.len() - i,
        {
            let cap = &caps[i];
            assert(cv[i as int] == cap@);
            assert(cv.subrange(0, i + 1).drop_last() =~= cv.subrange(0, i as int));
            let ghost before = recommendations_view(recs@);
            let more = recommendations_for_exec(cap.as_str());
            let mut j: usize = 0;
            while j < more.len()
                invariant
                    j <= more@.len(),
                    recommendations_view(recs@) == before + recommendations_view(more@).subrange(
                        0,
                        j as int,
                    ),
                decreases more.len() - j,
            {
                let r = Recommendation {
                    package_id: copy_string(&more[j].package_id),
                    reason: copy_string(&more[j].reason),
                };
                assert(recommendations_view(more@)[j as int] == r@);
                let ghost rv = r@;
                let ghost cur = recommendations_view(recs@);
                recs.push(r);
                assert(recommendations_view(recs@) =~= cur.push(rv));
                assert(recommendations_view(recs@) =~= before + recommendations_view(
                    more@,
                ).subrange(0, j + 1));
                j = j + 1;
            }
            assert(recommendations_view(more@).subrange(0, j as int) =~= recommendations_view(
                more@,
            ));
            i = i + 1;
        }
        assert(cv.subrange(0, i as int) =~= cv);
        let ghost tail = recommendations_view(recs@);
        recs.insert(
            0,
            Recommendation { package_id: owned("nvim-treesitter"), reason: owned("always") },
        );
        recs.insert(
            1,
            Recommendation { package_id: owned("telescope-nvim"), reason: owned("always") },
        );
        assert(recommendations_view(recs@) =~= recommendations(cv));
        recs
    }
}

fn rec(package_id: &str, reason: String) -> (r: Vec<Recommendation>)
    ensures
        recommendations_view(r@) == seq![RecommendationView { package_id: package_id@, reason: reason@ }],
{
    let mut v: Vec<Recommendation> = Vec::new();
    v.push(Recommendation { package_id: owned(package_id), reason });
    assert(recommendations_view(v@) =~= seq![
        RecommendationView { package_id: package_id@, reason: v@[0].reason@ },
    ]);
    v
}

fn recommendations_for_exec(cap: &str) -> (r: Vec<Recommendation>)
    ensures
        recommendations_view(r@) == recommendations_for(cap@),
{
    let c = owned(cap);
    if c == owned("language.typescript") || c == owned("language.javascript") {
        let mut reason = owned(cap);
        push_str(&mut reason, " project");
        rec("eslint", reason)
    } else if c == owned("framework.react") || c == owned("framework.nextjs") {
        let mut reason = owned(cap);
        push_str(&mut reason, " project");
        rec("prettier", reason)
    } else if c == owned("language.rust") {
        rec("rust-analyzer", owned("Rust project"))
    } else if c == owned("language.python") {
        rec("pyright", owned("Python project"))
    } else if c == owned("language.go") {
        rec("gopls", owned("Go project"))
    } else if c == owned("language.lua") {
        rec("lua-language-server", owned("Lua files detected"))
    } else {
        let v: Vec<Recommendation> = Vec::new();
        assert(recommendations_view(v@) =~= Seq::<RecommendationView>::empty());
        v
    }
}

/// Tree-sitter and Telescope are always recommended first, whatever the
/// capabilities.
pub proof fn always_recommended_first(caps: Seq<Seq<char>>)
    ensures
        recommendations(caps).len() >= 2,
        recommendations(caps)[0].package_id == "nvim-treesitter"@,
        recommendations(caps)[1].package_id == "telescope-nvim"@,
{
}

/// A Cargo manifest always reveals Rust, its package manager and its test
/// runner.
pub proof fn cargo_reveals_rust(ev: ProjectEvidence)
    requires
        ev.cargo_toml,
    ensures
        has_capability(ev, Capability::LanguageRust),
        has_capability(ev, Capability::PackageManagerCargo),
        has_capability(ev, Capability::TestCargo),
{
}

/// A readable `package.json` yields exactly one JavaScript package manager.
pub proof fn one_node_package_manager(ev: ProjectEvidence)
    requires
        file_content(ev.package_json) is Some,
    ensures
        (has_capability(ev, Capability::PackageManagerPnpm) as int) + (has_capability(
            ev,
            Capability::PackageManagerYarn,
        ) as int) + (has_capability(ev, Capability::PackageManagerNpm) as int) == 1,
{
}


/// The capability whose stable name is `t`, if any.
pub open spec fn capability_named(t: Seq<char>) -> Option<Capability> {
    if t == "language.typescript"@ {
        Some(Capability::LanguageTypeScript)
    } else if t == "language.javascript"@ {
        Some(Capability::LanguageJavaScript)
    } else if t == "language.python"@ {
        Some(Capability::LanguagePython)
    } else if t == "language.rust"@ {
        Some(Capability::LanguageRust)
    } else if t == "language.go"@ {
        Some(Capability::LanguageGo)
    } else if t == "language.csharp"@ {
        Some(Capability::LanguageCSharp)
    } else if t == "framework.react"@ {
        Some(Capability::FrameworkReact)
    } else if t == "framework.nextjs"@ {
        Some(Capability::FrameworkNextjs)
    } else if t == "framework.svelte"@ {
        Some(Capability::FrameworkSvelte)
    } else if t == "framework.fastapi"@ {
        Some(Capability::FrameworkFastapi)
    } else if t == "framework.express"@ {
        Some(Capability::FrameworkExpress)
    } else if t == "style.tailwind"@ {
        Some(Capability::StyleTailwind)
    } else if t == "test.vitest"@ {
        Some(Capability::TestVitest)
    } else if t == "test.playwright"@ {
        Some(Capability::TestPlaywright)
    } else if t == "test.pytest"@ {
        Some(Capability::TestPytest)
    } else if t == "test.cargo"@ {
        Some(Capability::TestCargo)
    } else if t == "database.prisma"@ {
        Some(Capability::DatabasePrisma)
    } else if t == "database.sqlalchemy"@ {
        Some(Capability::DatabaseSqlalchemy)
    } else if t == "container.docker"@ {
        Some(Capability::ContainerDocker)
    } else if t == "dotnet.aspnet"@ {
        Some(Capability::DotnetAspNet)
    } else if t == "package-manager.pnpm"@ {
        Some(Capability::PackageManagerPnpm)
    } else if t == "package-manager.npm"@ {
        Some(Capability::PackageManagerNpm)
    } else if t == "package-manager.yarn"@ {
        Some(Capability::PackageManagerYarn)
    } else if t == "package-manager.pip"@ {
        Some(Capability::PackageManagerPip)
    } else if t == "package-manager.cargo"@ {
        Some(Capability::PackageManagerCargo)
    } else if t == "package-manager.go"@ {
        Some(Capability::PackageManagerGo)
    } else {
        None
    }
}

/// Each capability is the one its stable name stands for.
#[verifier::rlimit(50)]
proof fn lemma_name_identifies(c: Capability)
    ensures
        capability_named(capability_text(c)) == Some(c),
{
    match c {
        Capability::LanguageTypeScript => {
            reveal_strlit("language.typescript");
        },
        Capability::LanguageJavaScript => {
            reveal_strlit("language.javascript");
            reveal_strlit("language.typescript");
            assert("language.javascript"@[9] != "language.typescript"@[9]);
        },
        Capability::LanguagePython => {
            reveal_strlit("language.python");
            reveal_strlit("language.typescript");
            assert("language.python"@.len() != "language.typescript"@.len());
            reveal_strlit("language.javascript");
            assert("language.python"@.len() != "language.javascript"@.len());
        },
        Capability::LanguageRust => {
            reveal_strlit("language.rust");
            reveal_strlit("language.typescript");
            assert("language.rust"@.len() != "language.typescript"@.len());
            reveal_strlit("language.javascript");
            assert("language.rust"@.len() != "language.javascript"@.len());
            reveal_strlit("language.python");
            assert("language.rust"@.len() != "language.python"@.len());
        },
        Capability::LanguageGo => {
            reveal_strlit("language.go");
            reveal_strlit("language.typescript");
            assert("language.go"@.len() != "language.typescript"@.len());
            reveal_strlit("language.javascript");
            assert("language.go"@.len() != "language.javascript"@.len());
            reveal_strlit("language.python");
            assert("language.go"@.len() != "language.python"@.len());
            reveal_strlit("language.rust");
            assert("language.go"@.len() != "language.rust"@.len());
        },
        Capability::LanguageCSharp => {
            reveal_strlit("language.csharp");
            reveal_strlit("language.typescript");
            assert("language.csharp"@.len() != "language.typescript"@.len());
            reveal_strlit("language.javascript");
            assert("language.csharp"@.len() != "language.javascript"@.len());
            reveal_strlit("language.python");
            assert("language.csharp"@[9] != "language.python"@[9]);
            reveal_strlit("language.rust");
            assert("language.csharp"@.len() != "language.rust"@.len());
            reveal_strlit("language.go");
            assert("language.csharp"@.len() != "language.go"@.len());
        },
        Capability::FrameworkReact => {
            reveal_strlit("framework.react");
            reveal_strlit("language.typescript");
            assert("framework.react"@.len() != "language.typescript"@.len());
            reveal_strlit("language.javascript");
            assert("framework.react"@.len() != "language.javascript"@.len());
            reveal_strlit("language.python");
            assert("framework.react"@[0] != "language.python"@[0]);
            reveal_strlit("language.rust");
            assert("framework.react"@.len() != "language.rust"@.len());
            reveal_strlit("language.go");
            assert("framework.react"@.len() != "language.go"@.len());
            reveal_strlit("language.csharp");
            assert("framework.react"@[0] != "language.csharp"@[0]);
        },
        Capability::FrameworkNextjs => {
            reveal_strlit("framework.nextjs");
            reveal_strlit("language.typescript");
            assert("framework.nextjs"@.len() != "language.typescript"@.len());
            reveal_strlit("language.javascript");
            assert("framework.nextjs"@.len() != "language.javascript"@.len());
            reveal_strlit("language.python");
            assert("framework.nextjs"@.len() != "language.python"@.len());
            reveal_strlit("language.rust");
            assert("framework.nextjs"@.len() != "language.rust"@.len());
            reveal_strlit("language.go");
            assert("framework.nextjs"@.len() != "language.go"@.len());
            reveal_strlit("language.csharp");
            assert("framework.nextjs"@.len() != "language.csharp"@.len());
            reveal_strlit("framework.react");
            assert("framework.nextjs"@.len() != "framework.react"@.len());
        },
        Capability::FrameworkSvelte => {
            reveal_strlit("framework.svelte");
            reveal_strlit("language.typescript");
            assert("framework.svelte"@.len() != "language.typescript"@.len());
            reveal_strlit("language.javascript");
            assert("framework.svelte"@.len() != "language.javascript"@.len());
            reveal_strlit("language.python");
            assert("framework.svelte"@.len() != "language.python"@.len());
            reveal_strlit("language.rust");
            assert("framework.svelte"@.len() != "language.rust"@.len());
            reveal_strlit("language.go");
            assert("framework.svelte"@.len() != "language.go"@.len());
            reveal_strlit("language.csharp");
            assert("framework.svelte"@.len() != "language.csharp"@.len());
            reveal_strlit("framework.react");
            assert("framework.svelte"@.len() != "framework.react"@.len());
            reveal_strlit("framework.nextjs");
            assert("framework.svelte"@[10] != "framework.nextjs"@[10]);
        },
        Capability::FrameworkFastapi => {
            reveal_strlit("framework.fastapi");
            reveal_strlit("language.typescript");
            assert("framework.fastapi"@.len() != "language.typescript"@.len());
            reveal_strlit("language.javascript");
            assert("framework.fastapi"@.len() != "language.javascript"@.len());
            reveal_strlit("language.python");
            assert("framework.fastapi"@.len() != "language.python"@.len());
            reveal_strlit("language.rust");
            assert("framework.fastapi"@.len() != "language.rust"@.len());
            reveal_strlit("language.go");
            assert("framework.fastapi"@.len() != "language.go"@.len());
            reveal_strlit("language.csharp");
            assert("framework.fastapi"@.len() != "language.csharp"@.len());
            reveal_strlit("framework.react");
            assert("framework.fastapi"@.len() != "framework.react"@.len());
            reveal_strlit("framework.nextjs");
            assert("framework.fastapi"@.len() != "framework.nextjs"@.len());
            reveal_strlit("framework.svelte");
            assert("framework.fastapi"@.len() != "framework.svelte"@.len());
        },
        Capability::FrameworkExpress => {
            reveal_strlit("framework.express");
            reveal_strlit("language.typescript");
            assert("framework.express"@.len() != "language.typescript"@.len());
            reveal_strlit("language.javascript");
            assert("framework.express"@.len() != "language.javascript"@.len());
            reveal_strlit("language.python");
            assert("framework.express"@.len() != "language.python"@.len());
            reveal_strlit("language.rust");
            assert("framework.express"@.len() != "language.rust"@.len());
            reveal_strlit("language.go");
            assert("framework.express"@.len() != "language.go"@.len());
            reveal_strlit("language.csharp");
            assert("framework.express"@.len() != "language.csharp"@.len());
            reveal_strlit("framework.react");
            assert("framework.express"@.len() != "framework.react"@.len());
            reveal_strlit("framework.nextjs");
            assert("framework.express"@.len() != "framework.nextjs"@.len());
            reveal_strlit("framework.svelte");
            assert("framework.express"@.len() != "framework.svelte"@.len());
            reveal_strlit("framework.fastapi");
            assert("framework.express"@[10] != "framework.fastapi"@[10]);
        },
        Capability::StyleTailwind => {
            reveal_strlit("style.tailwind");
            reveal_strlit("language.typescript");
            assert("style.tailwind"@.len() != "language.typescript"@.len());
            reveal_strlit("language.javascript");
            assert("style.tailwind"@.len() != "language.javascript"@.len());
            reveal_strlit("language.python");
            assert("style.tailwind"@.len() != "language.python"@.len());
            reveal_strlit("language.rust");
            assert("style.tailwind"@.len() != "language.rust"@.len());
            reveal_strlit("language.go");
            assert("style.tailwind"@.len() != "language.go"@.len());
            reveal_strlit("language.csharp");
            assert("style.tailwind"@.len() != "language.csharp"@.len());
            reveal_strlit("framework.react");
            assert("style.tailwind"@.len() != "framework.react"@.len());
            reveal_strlit("framework.nextjs");
            assert("style.tailwind"@.len() != "framework.nextjs"@.len());
            reveal_strlit("framework.svelte");
            assert("style.tailwind"@.len() != "framework.svelte"@.len());
            reveal_strlit("framework.fastapi");
            assert("style.tailwind"@.len() != "framework.fastapi"@.len());
            reveal_strlit("framework.express");
            assert("style.tailwind"@.len() != "framework.express"@.len());
        },
        Capability::TestVitest => {
            reveal_strlit("test.vitest");
            reveal_strlit("language.typescript");
            assert("test.vitest"@.len() != "language.typescript"@.len());
            reveal_strlit("language.javascript");
            assert("test.vitest"@.len() != "language.javascript"@.len());
            reveal_strlit("language.python");
            assert("test.vitest"@.len() != "language.python"@.len());
            reveal_strlit("language.rust");
            assert("test.vitest"@.len() != "language.rust"@.len());
            reveal_strlit("language.go");
            assert("test.vitest"@[0] != "language.go"@[0]);
            reveal_strlit("language.csharp");
            assert("test.vitest"@.len() != "language.csharp"@.len());
            reveal_strlit("framework.react");
            assert("test.vitest"@.len() != "framework.react"@.len());
            reveal_strlit("framework.nextjs");
            assert("test.vitest"@.len() != "framework.nextjs"@.len());
            reveal_strlit("framework.svelte");
            assert("test.vitest"@.len() != "framework.svelte"@.len());
            reveal_strlit("framework.fastapi");
            assert("test.vitest"@.len() != "framework.fastapi"@.len());
            reveal_strlit("framework.express");
            assert("test.vitest"@.len() != "framework.express"@.len());
            reveal_strlit("style.tailwind");
            assert("test.vitest"@.len() != "style.tailwind"@.len());
        },
        Capability::TestPlaywright => {
            reveal_strlit("test.playwright");
            reveal_strlit("language.typescript");
            assert("test.playwright"@.len() != "language.typescript"@.len());
            reveal_strlit("language.javascript");
            assert("test.playwright"@.len() != "language.javascript"@.len());
            reveal_strlit("language.python");
            assert("test.playwright"@[0] != "language.python"@[0]);
            reveal_strlit("language.rust");
            assert("test.playwright"@.len() != "language.rust"@.len());
            reveal_strlit("language.go");
            assert("test.playwright"@.len() != "language.go"@.len());
            reveal_strlit("language.csharp");
            assert("test.playwright"@[0] != "language.csharp"@[0]);
            reveal_strlit("framework.react");
            assert("test.playwright"@[0] != "framework.react"@[0]);
            reveal_strlit("framework.nextjs");
            assert("test.playwright"@.len() != "framework.nextjs"@.len());
            reveal_strlit("framework.svelte");
            assert("test.playwright"@.len() != "framework.svelte"@.len());
            reveal_strlit("framework.fastapi");
            assert("test.playwright"@.len() != "framework.fastapi"@.len());
            reveal_strlit("framework.express");
            assert("test.playwright"@.len() != "framework.express"@.len());
            reveal_strlit("style.tailwind");
            assert("test.playwright"@.len() != "style.tailwind"@.len());
            reveal_strlit("test.vitest");
            assert("test.playwright"@.len() != "test.vitest"@.len());
        },
        Capability::TestPytest => {
            reveal_strlit("test.pytest");
            reveal_strlit("language.typescript");
            assert("test.pytest"@.len() != "language.typescript"@.len());
            reveal_strlit("language.javascript");
            assert("test.pytest"@.len() != "language.javascript"@.len());
            reveal_strlit("language.python");
            assert("test.pytest"@.len() != "language.python"@.len());
            reveal_strlit("language.rust");
            assert("test.pytest"@.len() != "language.rust"@.len());
            reveal_strlit("language.go");
            assert("test.pytest"@[0] != "language.go"@[0]);
            reveal_strlit("language.csharp");
            assert("test.pytest"@.len() != "language.csharp"@.len());
            reveal_strlit("framework.react");
            assert("test.pytest"@.len() != "framework.react"@.len());
            reveal_strlit("framework.nextjs");
            assert("test.pytest"@.len() != "framework.nextjs"@.len());
            reveal_strlit("framework.svelte");
            assert("test.pytest"@.len() != "framework.svelte"@.len());
            reveal_strlit("framework.fastapi");
            assert("test.pytest"@.len() != "framework.fastapi"@.len());
            reveal_strlit("framework.express");
            assert("test.pytest"@.len() != "framework.express"@.len());
            reveal_strlit("style.tailwind");
            assert("test.pytest"@.len() != "style.tailwind"@.len());
            reveal_strlit("test.vitest");
            assert("test.pytest"@[5] != "test.vitest"@[5]);
            reveal_strlit("test.playwright");
            assert("test.pytest"@.len() != "test.playwright"@.len());
        },
        Capability::TestCargo => {
            reveal_strlit("test.cargo");
            reveal_strlit("language.typescript");
            assert("test.cargo"@.len() != "language.typescript"@.len());
            reveal_strlit("language.javascript");
            assert("test.cargo"@.len() != "language.javascript"@.len());
            reveal_strlit("language.python");
            assert("test.cargo"@.len() != "language.python"@.len());
            reveal_strlit("language.rust");
            assert("test.cargo"@.len() != "language.rust"@.len());
            reveal_strlit("language.go");
            assert("test.cargo"@.len() != "language.go"@.len());
            reveal_strlit("language.csharp");
            assert("test.cargo"@.len() != "language.csharp"@.len());
            reveal_strlit("framework.react");
            assert("test.cargo"@.len() != "framework.react"@.len());
            reveal_strlit("framework.nextjs");
            assert("test.cargo"@.len() != "framework.nextjs"@.len());
            reveal_strlit("framework.svelte");
            assert("test.cargo"@.len() != "framework.svelte"@.len());
            reveal_strlit("framework.fastapi");
            assert("test.cargo"@.len() != "framework.fastapi"@.len());
            reveal_strlit("framework.express");
            assert("test.cargo"@.len() != "framework.express"@.len());
            reveal_strlit("style.tailwind");
            assert("test.cargo"@.len() != "style.tailwind"@.len());
            reveal_strlit("test.vitest");
            assert("test.cargo"@.len() != "test.vitest"@.len());
            reveal_strlit("test.playwright");
            assert("test.cargo"@.len() != "test.playwright"@.len());
            reveal_strlit("test.pytest");
            assert("test.cargo"@.len() != "test.pytest"@.len());
        },
        Capability::DatabasePrisma => {
            reveal_strlit("database.prisma");
            reveal_strlit("language.typescript");
            assert("database.prisma"@.len() != "language.typescript"@.len());
            reveal_strlit("language.javascript");
            assert("database.prisma"@.len() != "language.javascript"@.len());
            reveal_strlit("language.python");
            assert("database.prisma"@[0] != "language.python"@[0]);
            reveal_strlit("language.rust");
            assert("database.prisma"@.len() != "language.rust"@.len());
            reveal_strlit("language.go");
            assert("database.prisma"@.len() != "language.go"@.len());
            reveal_strlit("language.csharp");
            assert("database.prisma"@[0] != "language.csharp"@[0]);
            reveal_strlit("framework.react");
            assert("database.prisma"@[0] != "framework.react"@[0]);
            reveal_strlit("framework.nextjs");
            assert("database.prisma"@.len() != "framework.nextjs"@.len());
            reveal_strlit("framework.svelte");
            assert("database.prisma"@.len() != "framework.svelte"@.len());
            reveal_strlit("framework.fastapi");
            assert("database.prisma"@.len() != "framework.fastapi"@.len());
            reveal_strlit("framework.express");
            assert("database.prisma"@.len() != "framework.express"@.len());
            reveal_strlit("style.tailwind");
            assert("database.prisma"@.len() != "style.tailwind"@.len());
            reveal_strlit("test.vitest");
            assert("database.prisma"@.len() != "test.vitest"@.len());
            reveal_strlit("test.playwright");
            assert("database.prisma"@[0] != "test.playwright"@[0]);
            reveal_strlit("test.pytest");
            assert("database.prisma"@.len() != "test.pytest"@.len());
            reveal_strlit("test.cargo");
            assert("database.prisma"@.len() != "test.cargo"@.len());
        },
        Capability::DatabaseSqlalchemy => {
            reveal_strlit("database.sqlalchemy");
            reveal_strlit("language.typescript");
            assert("database.sqlalchemy"@[0] != "language.typescript"@[0]);
            reveal_strlit("language.javascript");
            assert("database.sqlalchemy"@[0] != "language.javascript"@[0]);
            reveal_strlit("language.python");
            assert("database.sqlalchemy"@.len() != "language.python"@.len());
            reveal_strlit("language.rust");
            assert("database.sqlalchemy"@.len() != "language.rust"@.len());
            reveal_strlit("language.go");
            assert("database.sqlalchemy"@.len() != "language.go"@.len());
            reveal_strlit("language.csharp");
            assert("database.sqlalchemy"@.len() != "language.csharp"@.len());
            reveal_strlit("framework.react");
            assert("database.sqlalchemy"@.len() != "framework.react"@.len());
            reveal_strlit("framework.nextjs");
            assert("database.sqlalchemy"@.len() != "framework.nextjs"@.len());
            reveal_strlit("framework.svelte");
            assert("database.sqlalchemy"@.len() != "framework.svelte"@.len());
            reveal_strlit("framework.fastapi");
            assert("database.sqlalchemy"@.len() != "framework.fastapi"@.len());
            reveal_strlit("framework.express");
            assert("database.sqlalchemy"@.len() != "framework.express"@.len());
            reveal_strlit("style.tailwind");
            assert("database.sqlalchemy"@.len() != "style.tailwind"@.len());
            reveal_strlit("test.vitest");
            assert("database.sqlalchemy"@.len() != "test.vitest"@.len());
            reveal_strlit("test.playwright");
            assert("database.sqlalchemy"@.len() != "test.playwright"@.len());
            reveal_strlit("test.pytest");
            assert("database.sqlalchemy"@.len() != "test.pytest"@.len());
            reveal_strlit("test.cargo");
            assert("database.sqlalchemy"@.len() != "test.cargo"@.len());
            reveal_strlit("database.prisma");
            assert("database.sqlalchemy"@.len() != "database.prisma"@.len());
        },
        Capability::ContainerDocker => {
            reveal_strlit("container.docker");
            reveal_strlit("language.typescript");
            assert("container.docker"@.len() != "language.typescript"@.len());
            reveal_strlit("language.javascript");
            assert("container.docker"@.len() != "language.javascript"@.len());
            reveal_strlit("language.python");
            assert("container.docker"@.len() != "language.python"@.len());
            reveal_strlit("language.rust");
            assert("container.docker"@.len() != "language.rust"@.len());
            reveal_strlit("language.go");
            assert("container.docker"@.len() != "language.go"@.len());
            reveal_strlit("language.csharp");
            assert("container.docker"@.len() != "language.csharp"@.len());
            reveal_strlit("framework.react");
            assert("container.docker"@.len() != "framework.react"@.len());
            reveal_strlit("framework.nextjs");
            assert("container.docker"@[0] != "framework.nextjs"@[0]);
            reveal_strlit("framework.svelte");
            assert("container.docker"@[0] != "framework.svelte"@[0]);
            reveal_strlit("framework.fastapi");
            assert("container.docker"@.len() != "framework.fastapi"@.len());
            reveal_strlit("framework.express");
            assert("container.docker"@.len() != "framework.express"@.len());
            reveal_strlit("style.tailwind");
            assert("container.docker"@.len() != "style.tailwind"@.len());
            reveal_strlit("test.vitest");
            assert("container.docker"@.len() != "test.vitest"@.len());
            reveal_strlit("test.playwright");
            assert("container.docker"@.len() != "test.playwright"@.len());
            reveal_strlit("test.pytest");
            assert("container.docker"@.len() != "test.pytest"@.len());
            reveal_strlit("test.cargo");
            assert("container.docker"@.len() != "test.cargo"@.len());
            reveal_strlit("database.prisma");
            assert("container.docker"@.len() != "database.prisma"@.len());
            reveal_strlit("database.sqlalchemy");
            assert("container.docker"@.len() != "database.sqlalchemy"@.len());
        },
        Capability::DotnetAspNet => {
            reveal_strlit("dotnet.aspnet");
            reveal_strlit("language.typescript");
            assert("dotnet.aspnet"@.len() != "language.typescript"@.len());
            reveal_strlit("language.javascript");
            assert("dotnet.aspnet"@.len() != "language.javascript"@.len());
            reveal_strlit("language.python");
            assert("dotnet.aspnet"@.len() != "language.python"@.len());
            reveal_strlit("language.rust");
            assert("dotnet.aspnet"@[0] != "language.rust"@[0]);
            reveal_strlit("language.go");
            assert("dotnet.aspnet"@.len() != "language.go"@.len());
            reveal_strlit("language.csharp");
            assert("dotnet.aspnet"@.len() != "language.csharp"@.len());
            reveal_strlit("framework.react");
            assert("dotnet.aspnet"@.len() != "framework.react"@.len());
            reveal_strlit("framework.nextjs");
            assert("dotnet.aspnet"@.len() != "framework.nextjs"@.len());
            reveal_strlit("framework.svelte");
            assert("dotnet.aspnet"@.len() != "framework.svelte"@.len());
            reveal_strlit("framework.fastapi");
            assert("dotnet.aspnet"@.len() != "framework.fastapi"@.len());
            reveal_strlit("framework.express");
            assert("dotnet.aspnet"@.len() != "framework.express"@.len());
            reveal_strlit("style.tailwind");
            assert("dotnet.aspnet"@.len() != "style.tailwind"@.len());
            reveal_strlit("test.vitest");
            assert("dotnet.aspnet"@.len() != "test.vitest"@.len());
            reveal_strlit("test.playwright");
            assert("dotnet.aspnet"@.len() != "test.playwright"@.len());
            reveal_strlit("test.pytest");
            assert("dotnet.aspnet"@.len() != "test.pytest"@.len());
            reveal_strlit("test.cargo");
            assert("dotnet.aspnet"@.len() != "test.cargo"@.len());
            reveal_strlit("database.prisma");
            assert("dotnet.aspnet"@.len() != "database.prisma"@.len());
            reveal_strlit("database.sqlalchemy");
            assert("dotnet.aspnet"@.len() != "database.sqlalchemy"@.len());
            reveal_strlit("container.docker");
            assert("dotnet.aspnet"@.len() != "container.docker"@.len());
        },
        Capability::PackageManagerPnpm => {
            reveal_strlit("package-manager.pnpm");
            reveal_strlit("language.typescript");
            assert("package-manager.pnpm"@.len() != "language.typescript"@.len());
            reveal_strlit("language.javascript");
            assert("package-manager.pnpm"@.len() != "language.javascript"@.len());
            reveal_strlit("language.python");
            assert("package-manager.pnpm"@.len() != "language.python"@.len());
            reveal_strlit("language.rust");
            assert("package-manager.pnpm"@.len() != "language.rust"@.len());
            reveal_strlit("language.go");
            assert("package-manager.pnpm"@.len() != "language.go"@.len());
            reveal_strlit("language.csharp");
            assert("package-manager.pnpm"@.len() != "language.csharp"@.len());
            reveal_strlit("framework.react");
            assert("package-manager.pnpm"@.len() != "framework.react"@.len());
            reveal_strlit("framework.nextjs");
            assert("package-manager.pnpm"@.len() != "framework.nextjs"@.len());
            reveal_strlit("framework.svelte");
            assert("package-manager.pnpm"@.len() != "framework.svelte"@.len());
            reveal_strlit("framework.fastapi");
            assert("package-manager.pnpm"@.len() != "framework.fastapi"@.len());
            reveal_strlit("framework.express");
            assert("package-manager.pnpm"@.len() != "framework.express"@.len());
            reveal_strlit("style.tailwind");
            assert("package-manager.pnpm"@.len() != "style.tailwind"@.len());
            reveal_strlit("test.vitest");
            assert("package-manager.pnpm"@.len() != "test.vitest"@.len());
            reveal_strlit("test.playwright");
            assert("package-manager.pnpm"@.len() != "test.playwright"@.len());
            reveal_strlit("test.pytest");
            assert("package-manager.pnpm"@.len() != "test.pytest"@.len());
            reveal_strlit("test.cargo");
            assert("package-manager.pnpm"@.len() != "test.cargo"@.len());
            reveal_strlit("database.prisma");
            assert("package-manager.pnpm"@.len() != "database.prisma"@.len());
            reveal_strlit("database.sqlalchemy");
            assert("package-manager.pnpm"@.len() != "database.sqlalchemy"@.len());
            reveal_strlit("container.docker");
            assert("package-manager.pnpm"@.len() != "container.docker"@.len());
            reveal_strlit("dotnet.aspnet");
            assert("package-manager.pnpm"@.len() != "dotnet.aspnet"@.len());
        },
        Capability::PackageManagerNpm => {
            reveal_strlit("package-manager.npm");
            reveal_strlit("language.typescript");
            assert("package-manager.npm"@[0] != "language.typescript"@[0]);
            reveal_strlit("language.javascript");
            assert("package-manager.npm"@[0] != "language.javascript"@[0]);
            reveal_strlit("language.python");
            assert("package-manager.npm"@.len() != "language.python"@.len());
            reveal_strlit("language.rust");
            assert("package-manager.npm"@.len() != "language.rust"@.len());
            reveal_strlit("language.go");
            assert("package-manager.npm"@.len() != "language.go"@.len());
            reveal_strlit("language.csharp");
            assert("package-manager.npm"@.len() != "language.csharp"@.len());
            reveal_strlit("framework.react");
            assert("package-manager.npm"@.len() != "framework.react"@.len());
            reveal_strlit("framework.nextjs");
            assert("package-manager.npm"@.len() != "framework.nextjs"@.len());
            reveal_strlit("framework.svelte");
            assert("package-manager.npm"@.len() != "framework.svelte"@.len());
            reveal_strlit("framework.fastapi");
            assert("package-manager.npm"@.len() != "framework.fastapi"@.len());
            reveal_strlit("framework.express");
            assert("package-manager.npm"@.len() != "framework.express"@.len());
            reveal_strlit("style.tailwind");
            assert("package-manager.npm"@.len() != "style.tailwind"@.len());
            reveal_strlit("test.vitest");
            assert("package-manager.npm"@.len() != "test.vitest"@.len());
            reveal_strlit("test.playwright");
            assert("package-manager.npm"@.len() != "test.playwright"@.len());
            reveal_strlit("test.pytest");
            assert("package-manager.npm"@.len() != "test.pytest"@.len());
            reveal_strlit("test.cargo");
            assert("package-manager.npm"@.len() != "test.cargo"@.len());
            reveal_strlit("database.prisma");
            assert("package-manager.npm"@.len() != "database.prisma"@.len());
            reveal_strlit("database.sqlalchemy");
            assert("package-manager.npm"@[0] != "database.sqlalchemy"@[0]);
            reveal_strlit("container.docker");
            assert("package-manager.npm"@.len() != "container.docker"@.len());
            reveal_strlit("dotnet.aspnet");
            assert("package-manager.npm"@.len() != "dotnet.aspnet"@.len());
            reveal_strlit("package-manager.pnpm");
            assert("package-manager.npm"@.len() != "package-manager.pnpm"@.len());
        },
        Capability::PackageManagerYarn => {
            reveal_strlit("package-manager.yarn");
            reveal_strlit("language.typescript");
            assert("package-manager.yarn"@.len() != "language.typescript"@.len());
            reveal_strlit("language.javascript");
            assert("package-manager.yarn"@.len() != "language.javascript"@.len());
            reveal_strlit("language.python");
            assert("package-manager.yarn"@.len() != "language.python"@.len());
            reveal_strlit("language.rust");
            assert("package-manager.yarn"@.len() != "language.rust"@.len());
            reveal_strlit("language.go");
            assert("package-manager.yarn"@.len() != "language.go"@.len());
            reveal_strlit("language.csharp");
            assert("package-manager.yarn"@.len() != "language.csharp"@.len());
            reveal_strlit("framework.react");
            assert("package-manager.yarn"@.len() != "framework.react"@.len());
            reveal_strlit("framework.nextjs");
            assert("package-manager.yarn"@.len() != "framework.nextjs"@.len());
            reveal_strlit("framework.svelte");
            assert("package-manager.yarn"@.len() != "framework.svelte"@.len());
            reveal_strlit("framework.fastapi");
            assert("package-manager.yarn"@.len() != "framework.fastapi"@.len());
            reveal_strlit("framework.express");
            assert("package-manager.yarn"@.len() != "framework.express"@.len());
            reveal_strlit("style.tailwind");
            assert("package-manager.yarn"@.len() != "style.tailwind"@.len());
            reveal_strlit("test.vitest");
            assert("package-manager.yarn"@.len() != "test.vitest"@.len());
            reveal_strlit("test.playwright");
            assert("package-manager.yarn"@.len() != "test.playwright"@.len());
            reveal_strlit("test.pytest");
            assert("package-manager.yarn"@.len() != "test.pytest"@.len());
            reveal_strlit("test.cargo");
            assert("package-manager.yarn"@.len() != "test.cargo"@.len());
            reveal_strlit("database.prisma");
            assert("package-manager.yarn"@.len() != "database.prisma"@.len());
            reveal_strlit("database.sqlalchemy");
            assert("package-manager.yarn"@.len() != "database.sqlalchemy"@.len());
            reveal_strlit("container.docker");
            assert("package-manager.yarn"@.len() != "container.docker"@.len());
            reveal_strlit("dotnet.aspnet");
            assert("package-manager.yarn"@.len() != "dotnet.aspnet"@.len());
            reveal_strlit("package-manager.pnpm");
            assert("package-manager.yarn"@[16] != "package-manager.pnpm"@[16]);
            reveal_strlit("package-manager.npm");
            assert("package-manager.yarn"@.len() != "package-manager.npm"@.len());
        },
        Capability::PackageManagerPip => {
            reveal_strlit("package-manager.pip");
            reveal_strlit("language.typescript");
            assert("package-manager.pip"@[0] != "language.typescript"@[0]);
            reveal_strlit("language.javascript");
            assert("package-manager.pip"@[0] != "language.javascript"@[0]);
            reveal_strlit("language.python");
            assert("package-manager.pip"@.len() != "language.python"@.len());
            reveal_strlit("language.rust");
            assert("package-manager.pip"@.len() != "language.rust"@.len());
            reveal_strlit("language.go");
            assert("package-manager.pip"@.len() != "language.go"@.len());
            reveal_strlit("language.csharp");
            assert("package-manager.pip"@.len() != "language.csharp"@.len());
            reveal_strlit("framework.react");
            assert("package-manager.pip"@.len() != "framework.react"@.len());
            reveal_strlit("framework.nextjs");
            assert("package-manager.pip"@.len() != "framework.nextjs"@.len());
            reveal_strlit("framework.svelte");
            assert("package-manager.pip"@.len() != "framework.svelte"@.len());
            reveal_strlit("framework.fastapi");
            assert("package-manager.pip"@.len() != "framework.fastapi"@.len());
            reveal_strlit("framework.express");
            assert("package-manager.pip"@.len() != "framework.express"@.len());
            reveal_strlit("style.tailwind");
            assert("package-manager.pip"@.len() != "style.tailwind"@.len());
            reveal_strlit("test.vitest");
            assert("package-manager.pip"@.len() != "test.vitest"@.len());
            reveal_strlit("test.playwright");
            assert("package-manager.pip"@.len() != "test.playwright"@.len());
            reveal_strlit("test.pytest");
            assert("package-manager.pip"@.len() != "test.pytest"@.len());
            reveal_strlit("test.cargo");
            assert("package-manager.pip"@.len() != "test.cargo"@.len());
            reveal_strlit("database.prisma");
            assert("package-manager.pip"@.len() != "database.prisma"@.len());
            reveal_strlit("database.sqlalchemy");
            assert("package-manager.pip"@[0] != "database.sqlalchemy"@[0]);
            reveal_strlit("container.docker");
            assert("package-manager.pip"@.len() != "container.docker"@.len());
            reveal_strlit("dotnet.aspnet");
            assert("package-manager.pip"@.len() != "dotnet.aspnet"@.len());
            reveal_strlit("package-manager.pnpm");
            assert("package-manager.pip"@.len() != "package-manager.pnpm"@.len());
            reveal_strlit("package-manager.npm");
            assert("package-manager.pip"@[16] != "package-manager.npm"@[16]);
            reveal_strlit("package-manager.yarn");
            assert("package-manager.pip"@.len() != "package-manager.yarn"@.len());
        },
        Capability::PackageManagerCargo => {
            reveal_strlit("package-manager.cargo");
            reveal_strlit("language.typescript");
            assert("package-manager.cargo"@.len() != "language.typescript"@.len());
            reveal_strlit("language.javascript");
            assert("package-manager.cargo"@.len() != "language.javascript"@.len());
            reveal_strlit("language.python");
            assert("package-manager.cargo"@.len() != "language.python"@.len());
            reveal_strlit("language.rust");
            assert("package-manager.cargo"@.len() != "language.rust"@.len());
            reveal_strlit("language.go");
            assert("package-manager.cargo"@.len() != "language.go"@.len());
            reveal_strlit("language.csharp");
            assert("package-manager.cargo"@.len() != "language.csharp"@.len());
            reveal_strlit("framework.react");
            assert("package-manager.cargo"@.len() != "framework.react"@.len());
            reveal_strlit("framework.nextjs");
            assert("package-manager.cargo"@.len() != "framework.nextjs"@.len());
            reveal_strlit("framework.svelte");
            assert("package-manager.cargo"@.len() != "framework.svelte"@.len());
            reveal_strlit("framework.fastapi");
            assert("package-manager.cargo"@.len() != "framework.fastapi"@.len());
            reveal_strlit("framework.express");
            assert("package-manager.cargo"@.len() != "framework.express"@.len());
            reveal_strlit("style.tailwind");
            assert("package-manager.cargo"@.len() != "style.tailwind"@.len());
            reveal_strlit("test.vitest");
            assert("package-manager.cargo"@.len() != "test.vitest"@.len());
            reveal_strlit("test.playwright");
            assert("package-manager.cargo"@.len() != "test.playwright"@.len());
            reveal_strlit("test.pytest");
            assert("package-manager.cargo"@.len() != "test.pytest"@.len());
            reveal_strlit("test.cargo");
            assert("package-manager.cargo"@.len() != "test.cargo"@.len());
            reveal_strlit("database.prisma");
            assert("package-manager.cargo"@.len() != "database.prisma"@.len());
            reveal_strlit("database.sqlalchemy");
            assert("package-manager.cargo"@.len() != "database.sqlalchemy"@.len());
            reveal_strlit("container.docker");
            assert("package-manager.cargo"@.len() != "container.docker"@.len());
            reveal_strlit("dotnet.aspnet");
            assert("package-manager.cargo"@.len() != "dotnet.aspnet"@.len());
            reveal_strlit("package-manager.pnpm");
            assert("package-manager.cargo"@.len() != "package-manager.pnpm"@.len());
            reveal_strlit("package-manager.npm");
            assert("package-manager.cargo"@.len() != "package-manager.npm"@.len());
            reveal_strlit("package-manager.yarn");
            assert("package-manager.cargo"@.len() != "package-manager.yarn"@.len());
            reveal_strlit("package-manager.pip");
            assert("package-manager.cargo"@.len() != "package-manager.pip"@.len());
        },
        Capability::PackageManagerGo => {
            reveal_strlit("package-manager.go");
            reveal_strlit("language.typescript");
            assert("package-manager.go"@.len() != "language.typescript"@.len());
            reveal_strlit("language.javascript");
            assert("package-manager.go"@.len() != "language.javascript"@.len());
            reveal_strlit("language.python");
            assert("package-manager.go"@.len() != "language.python"@.len());
            reveal_strlit("language.rust");
            assert("package-manager.go"@.len() != "language.rust"@.len());
            reveal_strlit("language.go");
            assert("package-manager.go"@.len() != "language.go"@.len());
            reveal_strlit("language.csharp");
            assert("package-manager.go"@.len() != "language.csharp"@.len());
            reveal_strlit("framework.react");
            assert("package-manager.go"@.len() != "framework.react"@.len());
            reveal_strlit("framework.nextjs");
            assert("package-manager.go"@.len() != "framework.nextjs"@.len());
            reveal_strlit("framework.svelte");
            assert("package-manager.go"@.len() != "framework.svelte"@.len());
            reveal_strlit("framework.fastapi");
            assert("package-manager.go"@.len() != "framework.fastapi"@.len());
            reveal_strlit("framework.express");
            assert("package-manager.go"@.len() != "framework.express"@.len());
            reveal_strlit("style.tailwind");
            assert("package-manager.go"@.len() != "style.tailwind"@.len());
            reveal_strlit("test.vitest");
            assert("package-manager.go"@.len() != "test.vitest"@.len());
            reveal_strlit("test.playwright");
            assert("package-manager.go"@.len() != "test.playwright"@.len());
            reveal_strlit("test.pytest");
            assert("package-manager.go"@.len() != "test.pytest"@.len());
            reveal_strlit("test.cargo");
            assert("package-manager.go"@.len() != "test.cargo"@.len());
            reveal_strlit("database.prisma");
            assert("package-manager.go"@.len() != "database.prisma"@.len());
            reveal_strlit("database.sqlalchemy");
            assert("package-manager.go"@.len() != "database.sqlalchemy"@.len());
            reveal_strlit("container.docker");
            assert("package-manager.go"@.len() != "container.docker"@.len());
            reveal_strlit("dotnet.aspnet");
            assert("package-manager.go"@.len() != "dotnet.aspnet"@.len());
            reveal_strlit("package-manager.pnpm");
            assert("package-manager.go"@.len() != "package-manager.pnpm"@.len());
            reveal_strlit("package-manager.npm");
            assert("package-manager.go"@.len() != "package-manager.npm"@.len());
            reveal_strlit("package-manager.yarn");
            assert("package-manager.go"@.len() != "package-manager.yarn"@.len());
            reveal_strlit("package-manager.pip");
            assert("package-manager.go"@.len() != "package-manager.pip"@.len());
            reveal_strlit("package-manager.cargo");
            assert("package-manager.go"@.len() != "package-manager.cargo"@.len());
        },
    }
}

/// Distinct capabilities have distinct stable names, so a name identifies
/// its capability.
pub proof fn capability_names_are_distinct(a: Capability, b: Capability)
    ensures
        capability_text(a) == capability_text(b) ==> a == b,
{
    lemma_name_identifies(a);
    lemma_name_identifies(b);
}


/// A capability's name is among the detected capabilities exactly when the
/// evidence shows it.
proof fn lemma_detected_iff(ev: ProjectEvidence, c: Capability)
    ensures
        detected_capabilities(ev).contains(capability_text(c)) <==> has_capability(ev, c),
{
    let all = all_capabilities();
    let pred = |x: Capability| has_capability(ev, x);
    let f = all.filter(pred);
    let d = detected_capabilities(ev);
    assert(d == f.map_values(|x: Capability| capability_text(x)));
    if has_capability(ev, c) {
        match c {
        Capability::LanguageTypeScript => {
            assert(all[0] == c);
        },
        Capability::LanguageJavaScript => {
            assert(all[1] == c);
        },
        Capability::LanguagePython => {
            assert(all[2] == c);
        },
        Capability::LanguageRust => {
            assert(all[3] == c);
        },
        Capability::LanguageGo => {
            assert(all[4] == c);
        },
        Capability::LanguageCSharp => {
            assert(all[5] == c);
        },
        Capability::FrameworkReact => {
            assert(all[6] == c);
        },
        Capability::FrameworkNextjs => {
            assert(all[7] == c);
        },
        Capability::FrameworkSvelte => {
            assert(all[8] == c);
        },
        Capability::FrameworkFastapi => {
            assert(all[9] == c);
        },
        Capability::FrameworkExpress => {
            assert(all[10] == c);
        },
        Capability::StyleTailwind => {
            assert(all[11] == c);
        },
        Capability::TestVitest => {
            assert(all[12] == c);
        },
        Capability::TestPlaywright => {
            assert(all[13] == c);
        },
        Capability::TestPytest => {
            assert(all[14] == c);
        },
        Capability::TestCargo => {
            assert(all[15] == c);
        },
        Capability::DatabasePrisma => {
            assert(all[16] == c);
        },
        Capability::DatabaseSqlalchemy => {
            assert(all[17] == c);
        },
        Capability::ContainerDocker => {
            assert(all[18] == c);
        },
        Capability::DotnetAspNet => {
            assert(all[19] == c);
        },
        Capability::PackageManagerPnpm => {
            assert(all[20] == c);
        },
        Capability::PackageManagerNpm => {
            assert(all[21] == c);
        },
        Capability::PackageManagerYarn => {
            assert(all[22] == c);
        },
        Capability::PackageManagerPip => {
            assert(all[23] == c);
        },
        Capability::PackageManagerCargo => {
            assert(all[24] == c);
        },
        Capability::PackageManagerGo => {
            assert(all[25] == c);
        },
        }
        let i = choose|i: int| 0 <= i < all.len() && all[i] == c;
        all.lemma_filter_contains(pred, i);
        let k = choose|k: int| 0 <= k < f.len() && f[k] == c;
        assert(d[k] == capability_text(c));
    }
    if d.contains(capability_text(c)) {
        let k = choose|k: int| 0 <= k < d.len() && d[k] == capability_text(c);
        assert(d[k] == capability_text(f[k]));
        capability_names_are_distinct(f[k], c);
        all.lemma_filter_pred(pred, k);
    }
}

/// What `scan` reports, capability by capability, in terms of the evidence:
/// TypeScript for a `package.json` naming `"typescript"` or a
/// `tsconfig.json`; JavaScript for a readable `package.json` without
/// either; Python and pip for a `pyproject.toml` or a `setup.py`; Rust, its
/// tests and Cargo for a `Cargo.toml`; Go and its module tool for a
/// `go.mod`; C# for a `.csproj` at the root and ASP.NET for one whose name
/// holds `aspnet` or `web`; Docker for a `Dockerfile` or a compose file;
/// each framework, style, test and database tool when its manifest names
/// it; pnpm, yarn or npm for a readable `package.json` by its lock file.
pub proof fn scan_reports_evidence(ev: ProjectEvidence)
    ensures
        detected_capabilities(ev).contains("language.typescript"@) <==> ((file_content(ev.package_json) is Some && mentions(file_content(ev.package_json), "\"typescript\""@)) || ev.tsconfig),
        detected_capabilities(ev).contains("language.javascript"@) <==> (file_content(ev.package_json) is Some && !mentions(file_content(ev.package_json), "\"typescript\""@) && !ev.tsconfig),
        detected_capabilities(ev).contains("language.python"@) <==> (!(ev.pyproject is Absent) || ev.setup_py),
        detected_capabilities(ev).contains("language.rust"@) <==> (ev.cargo_toml),
        detected_capabilities(ev).contains("language.go"@) <==> (ev.go_mod),
        detected_capabilities(ev).contains("language.csharp"@) <==> (exists|i: int| 0 <= i < strings_view(ev.root_entries@).len() && has_suffix(#[trigger] strings_view(ev.root_entries@)[i], ".csproj"@)),
        detected_capabilities(ev).contains("framework.react"@) <==> (mentions(file_content(ev.package_json), "\"react\""@)),
        detected_capabilities(ev).contains("framework.nextjs"@) <==> (mentions(file_content(ev.package_json), "\"next\""@)),
        detected_capabilities(ev).contains("framework.svelte"@) <==> (mentions(file_content(ev.package_json), "\"svelte\""@)),
        detected_capabilities(ev).contains("framework.fastapi"@) <==> (mentions(file_content(ev.pyproject), "fastapi"@)),
        detected_capabilities(ev).contains("framework.express"@) <==> (mentions(file_content(ev.package_json), "\"express\""@)),
        detected_capabilities(ev).contains("style.tailwind"@) <==> (mentions(file_content(ev.package_json), "\"tailwindcss\""@)),
        detected_capabilities(ev).contains("test.vitest"@) <==> (mentions(file_content(ev.package_json), "\"vitest\""@)),
        detected_capabilities(ev).contains("test.playwright"@) <==> (mentions(file_content(ev.package_json), "\"@playwright/test\""@)),
        detected_capabilities(ev).contains("test.pytest"@) <==> (mentions(file_content(ev.pyproject), "pytest"@)),
        detected_capabilities(ev).contains("test.cargo"@) <==> (ev.cargo_toml),
        detected_capabilities(ev).contains("database.prisma"@) <==> (mentions(file_content(ev.package_json), "\"prisma\""@)),
        detected_capabilities(ev).contains("database.sqlalchemy"@) <==> (mentions(file_content(ev.pyproject), "sqlalchemy"@)),
        detected_capabilities(ev).contains("container.docker"@) <==> (ev.dockerfile || ev.docker_compose),
        detected_capabilities(ev).contains("dotnet.aspnet"@) <==> (exists|i: int| 0 <= i < strings_view(ev.root_entries@).len() && has_suffix(#[trigger] strings_view(ev.root_entries@)[i], ".csproj"@) && (has_substring(strings_view(ev.root_entries@)[i], "aspnet"@) || has_substring(strings_view(ev.root_entries@)[i], "web"@))),
        detected_capabilities(ev).contains("package-manager.pnpm"@) <==> (file_content(ev.package_json) is Some && ev.pnpm_lock),
        detected_capabilities(ev).contains("package-manager.npm"@) <==> (file_content(ev.package_json) is Some && !ev.pnpm_lock && !ev.yarn_lock),
        detected_capabilities(ev).contains("package-manager.yarn"@) <==> (file_content(ev.package_json) is Some && !ev.pnpm_lock && ev.yarn_lock),
        detected_capabilities(ev).contains("package-manager.pip"@) <==> (!(ev.pyproject is Absent) || ev.setup_py),
        detected_capabilities(ev).contains("package-manager.cargo"@) <==> (ev.cargo_toml),
        detected_capabilities(ev).contains("package-manager.go"@) <==> (ev.go_mod),
{
    lemma_detected_iff(ev, Capability::LanguageTypeScript);
    lemma_detected_iff(ev, Capability::LanguageJavaScript);
    lemma_detected_iff(ev, Capability::LanguagePython);
    lemma_detected_iff(ev, Capability::LanguageRust);
    lemma_detected_iff(ev, Capability::LanguageGo);
    lemma_detected_iff(ev, Capability::LanguageCSharp);
    lemma_detected_iff(ev, Capability::FrameworkReact);
    lemma_detected_iff(ev, Capability::FrameworkNextjs);
    lemma_detected_iff(ev, Capability::FrameworkSvelte);
    lemma_detected_iff(ev, Capability::FrameworkFastapi);
    lemma_detected_iff(ev, Capability::FrameworkExpress);
    lemma_detected_iff(ev, Capability::StyleTailwind);
    lemma_detected_iff(ev, Capability::TestVitest);
    lemma_detected_iff(ev, Capability::TestPlaywright);
    lemma_detected_iff(ev, Capability::TestPytest);
    lemma_detected_iff(ev, Capability::TestCargo);
    lemma_detected_iff(ev, Capability::DatabasePrisma);
    lemma_detected_iff(ev, Capability::DatabaseSqlalchemy);
    lemma_detected_iff(ev, Capability::ContainerDocker);
    lemma_detected_iff(ev, Capability::DotnetAspNet);
    lemma_detected_iff(ev, Capability::PackageManagerPnpm);
    lemma_detected_iff(ev, Capability::PackageManagerNpm);
    lemma_detected_iff(ev, Capability::PackageManagerYarn);
    lemma_detected_iff(ev, Capability::PackageManagerPip);
    lemma_detected_iff(ev, Capability::PackageManagerCargo);
    lemma_detected_iff(ev, Capability::PackageManagerGo);
}


/// Every marker file the evidence holds is reported by `scan`:
/// `package.json`, `tsconfig.json`, `pyproject.toml`, `setup.py`,
/// `Cargo.toml`, `go.mod`, each `.csproj` at the root, and `Dockerfile` for
/// a Dockerfile or a compose file.
pub proof fn scan_reports_marker_files(ev: ProjectEvidence)
    ensures
        !(ev.package_json is Absent) ==> detected_files(ev).contains("package.json"@),
        ev.tsconfig ==> detected_files(ev).contains("tsconfig.json"@),
        !(ev.pyproject is Absent) ==> detected_files(ev).contains("pyproject.toml"@),
        ev.setup_py ==> detected_files(ev).contains("setup.py"@),
        ev.cargo_toml ==> detected_files(ev).contains("Cargo.toml"@),
        ev.go_mod ==> detected_files(ev).contains("go.mod"@),
        ev.dockerfile || ev.docker_compose ==> detected_files(ev).contains("Dockerfile"@),
        forall|i: int|
            0 <= i < ev.root_entries@.len() && has_suffix(#[trigger] ev.root_entries@[i]@, ".csproj"@)
                ==> detected_files(ev).contains(ev.root_entries@[i]@),
{
    let a = one_if(file_exists(ev.package_json), "package.json"@);
    let b = one_if(ev.tsconfig, "tsconfig.json"@);
    let c = one_if(file_exists(ev.pyproject), "pyproject.toml"@);
    let d = one_if(ev.setup_py, "setup.py"@);
    let e = one_if(ev.cargo_toml, "Cargo.toml"@);
    let g = one_if(ev.go_mod, "go.mod"@);
    let entries = strings_view(ev.root_entries@);
    let cs = entries.filter(|n: Seq<char>| is_csproj(n));
    let k = one_if(ev.dockerfile || ev.docker_compose, "Dockerfile"@);
    let all = a + b + c + d + e + g + cs + k;
    assert(detected_files(ev) == all);
    let o1 = a.len() as int;
    let o2 = o1 + b.len();
    let o3 = o2 + c.len();
    let o4 = o3 + d.len();
    let o5 = o4 + e.len();
    let o6 = o5 + g.len();
    let o7 = o6 + cs.len();
    if file_exists(ev.package_json) {
        assert(all[0] == "package.json"@);
    }
    if ev.tsconfig {
        assert(all[o1] == "tsconfig.json"@);
    }
    if file_exists(ev.pyproject) {
        assert(all[o2] == "pyproject.toml"@);
    }
    if ev.setup_py {
        assert(all[o3] == "setup.py"@);
    }
    if ev.cargo_toml {
        assert(all[o4] == "Cargo.toml"@);
    }
    if ev.go_mod {
        assert(all[o5] == "go.mod"@);
    }
    if ev.dockerfile || ev.docker_compose {
        assert(all[o7] == "Dockerfile"@);
    }
    assert forall|i: int|
        0 <= i < ev.root_entries@.len() && has_suffix(#[trigger] ev.root_entries@[i]@, ".csproj"@)
            implies all.contains(ev.root_entries@[i]@) by {
        assert(entries[i] == ev.root_entries@[i]@);
        entries.lemma_filter_contains(|n: Seq<char>| is_csproj(n), i);
        let j = choose|j: int| 0 <= j < cs.len() && cs[j] == entries[i];
        assert(all[o6 + j] == cs[j]);
    }
}

} // verus!
