//! Verification commands suggested from the conventions of a project:
//! `package.json`, Cargo, Go, .NET, Python, Makefile and justfile. The user
//! approves or edits them before they run.

use crate::text::owned;
use vstd::prelude::*;

verus! {

/// Which marker files exist in a project root. The .NET markers are the
/// entries literally named `*.sln` and `*.csproj`.
#[derive(Debug, Clone, Copy)]
pub struct CommandMarkers {
    pub package_json: bool,
    pub cargo_toml: bool,
    pub go_mod: bool,
    pub star_sln: bool,
    pub star_csproj: bool,
    pub pyproject_toml: bool,
    pub requirements_txt: bool,
    pub makefile: bool,
    pub justfile: bool,
}

/// A suggested command, its source and its confidence in percent.
#[derive(Debug, Clone)]
pub struct CommandSuggestion {
    pub command: String,
    pub source: String,
    pub confidence_percent: u32,
}

pub struct CommandSuggestionView {
    pub command: Seq<char>,
    pub source: Seq<char>,
    pub confidence_percent: u32,
}

impl View for CommandSuggestion {
    type V = CommandSuggestionView;

    open spec fn view(&self) -> CommandSuggestionView {
        CommandSuggestionView {
            command: self.command@,
            source: self.source@,
            confidence_percent: self.confidence_percent,
        }
    }
}

pub open spec fn suggestions_view(s: Seq<CommandSuggestion>) -> Seq<CommandSuggestionView> {
    s.map_values(|c: CommandSuggestion| c@)
}

pub open spec fn suggestion(command: Seq<char>, source: Seq<char>, confidence_percent: u32) -> Seq<
    CommandSuggestionView,
> {
    seq![CommandSuggestionView { command, source, confidence_percent }]
}

pub open spec fn when(b: bool, s: Seq<CommandSuggestionView>) -> Seq<CommandSuggestionView> {
    if b {
        s
    } else {
        seq![]
    }
}

/// The suggestions for a project with the markers `m`, in this order: npm
/// test and build, cargo test and build, go test, dotnet test, pytest, make
/// test, just test.
pub open spec fn suggestions_for(m: CommandMarkers) -> Seq<CommandSuggestionView> {
    when(
        m.package_json,
        suggestion("npm test"@, "package.json"@, 90) + suggestion(
            "npm run build"@,
            "package.json"@,
            80,
        ),
    ) + when(
        m.cargo_toml,
        suggestion("cargo test"@, "Cargo.toml"@, 95) + suggestion("cargo build"@, "Cargo.toml"@, 85),
    ) + when(m.go_mod, suggestion("go test ./..."@, "go.mod"@, 90)) + when(
        m.star_sln || m.star_csproj,
        suggestion("dotnet test"@, ".NET"@, 85),
    ) + when(m.pyproject_toml || m.requirements_txt, suggestion("pytest"@, "Python"@, 70)) + when(
        m.makefile,
        suggestion("make test"@, "Makefile"@, 60),
    ) + when(m.justfile, suggestion("just test"@, "justfile"@, 60))
}

fn push_suggestion(out: &mut Vec<CommandSuggestion>, command: &str, source: &str, confidence_percent: u32)
    ensures
        suggestions_view(final(out)@) == suggestions_view(old(out)@) + suggestion(
            command@,
            source@,
            confidence_percent,
        ),
{
    let ghost before = suggestions_view(out@);
    let c = CommandSuggestion { command: owned(command), source: owned(source), confidence_percent };
    let ghost cv = c@;
    out.push(c);
    assert(suggestions_view(out@) =~= before + seq![cv]);
}

pub struct CommandDetector;

impl CommandDetector {
    /// The verification commands suggested for a project with the markers
    /// `m`.
    pub fn detect(&self, m: &CommandMarkers) -> (r: Vec<CommandSuggestion>)
        ensures
            suggestions_view(r@) == suggestions_for(*m),
    {
        let mut out: Vec<CommandSuggestion> = Vec::new();
        let ghost s0 = suggestions_view(out@);
        assert(s0 =~= Seq::<CommandSuggestionView>::empty());
        if m.package_json {
            push_suggestion(&mut out, "npm test", "package.json", 90);
            push_suggestion(&mut out, "npm run build", "package.json", 80);
        }
        let ghost s1 = suggestions_view(out@);
        assert(s1 =~= when(
            m.package_json,
            suggestion("npm test"@, "package.json"@, 90) + suggestion(
                "npm run build"@,
                "package.json"@,
                80,
            ),
        ));
        if m.cargo_toml {
            push_suggestion(&mut out, "cargo test", "Cargo.toml", 95);
            push_suggestion(&mut out, "cargo build", "Cargo.toml", 85);
        }
        let ghost s2 = suggestions_view(out@);
        assert(s2 =~= s1 + when(
            m.cargo_toml,
            suggestion("cargo test"@, "Cargo.toml"@, 95) + suggestion("cargo build"@, "Cargo.toml"@, 85),
        ));
        if m.go_mod {
            push_suggestion(&mut out, "go test ./...", "go.mod", 90);
        }
        let ghost s3 = suggestions_view(out@);
        assert(s3 =~= s2 + when(m.go_mod, suggestion("go test ./..."@, "go.mod"@, 90)));
        if m.star_sln || m.star_csproj {
            push_suggestion(&mut out, "dotnet test", ".NET", 85);
        }
        let ghost s4 = suggestions_view(out@);
        assert(s4 =~= s3 + when(m.star_sln || m.star_csproj, suggestion("dotnet test"@, ".NET"@, 85)));
        if m.pyproject_toml || m.requirements_txt {
            push_suggestion(&mut out, "pytest", "Python", 70);
        }
        let ghost s5 = suggestions_view(out@);
        assert(s5 =~= s4 + when(
            m.pyproject_toml || m.requirements_txt,
            suggestion("pytest"@, "Python"@, 70),
        ));
        if m.makefile {
            push_suggestion(&mut out, "make test", "Makefile", 60);
        }
        let ghost s6 = suggestions_view(out@);
        assert(s6 =~= s5 + when(m.makefile, suggestion("make test"@, "Makefile"@, 60)));
        if m.justfile {
            push_suggestion(&mut out, "just test", "justfile", 60);
        }
        assert(suggestions_view(out@) =~= s6 + when(m.justfile, suggestion("just test"@, "justfile"@, 60)));
        out
    }
}

} // verus!
