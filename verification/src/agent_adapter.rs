//! Agent adapter discovery: known terminal agents are described by
//! descriptors (three built in, plus user-defined custom agents). Detection
//! resolves each descriptor's command candidates in order; a missing agent
//! is not an error.

use vstd::prelude::*;
use crate::text::{
    copy_string, copy_strings, first_match, first_word, first_word_kebab, kebab_case,
    lemma_first_match_is, owned, spaced_words, split_char, split_on, string_of, strings_view,
    to_kebab_case, to_spaced_words, chars_of,
};
use crate::paths::{join_path, path_join};

verus! {

/// The default mode of an agent.
#[derive(Debug, Clone, Copy, PartialEq, Eq, Structural)]
pub enum AgentMode {
    Coding,
    Review,
}

/// Where an agent works.
#[derive(Debug, Clone, Copy, PartialEq, Eq, Structural)]
pub enum AgentIsolation {
    Worktree,
    /// No isolation: the agent works in the primary tree.
    Unisolated,
}

/// A known terminal agent.
#[derive(Debug, Clone)]
pub struct AgentDescriptor {
    pub id: String,
    pub name: String,
    pub command_candidates: Vec<String>,
    pub args: Vec<String>,
    pub worktree_support: bool,
    pub read_only: bool,
    pub default_mode: AgentMode,
    pub default_isolation: AgentIsolation,
}

/// Whether an agent was found, and where.
#[derive(Debug, Clone)]
pub struct AgentDetection {
    pub descriptor_id: String,
    pub name: String,
    pub found: bool,
    pub path: Option<String>,
    pub version: Option<String>,
}

/// A user-defined agent.
#[derive(Debug, Clone)]
pub struct CustomAgentDef {
    pub id: String,
    pub name: String,
    pub command: String,
    pub default_mode: AgentMode,
    pub default_isolation: AgentIsolation,
    pub args: Vec<String>,
    pub env: Vec<(String, String)>,
    pub workdir_policy: String,
}

pub struct AgentDescriptorView {
    pub id: Seq<char>,
    pub name: Seq<char>,
    pub command_candidates: Seq<Seq<char>>,
    pub args: Seq<Seq<char>>,
    pub worktree_support: bool,
    pub read_only: bool,
    pub default_mode: AgentMode,
    pub default_isolation: AgentIsolation,
}

impl View for AgentDescriptor {
    type V = AgentDescriptorView;

    open spec fn view(&self) -> AgentDescriptorView {
        AgentDescriptorView {
            id: self.id@,
            name: self.name@,
            command_candidates: strings_view(self.command_candidates@),
            args: strings_view(self.args@),
            worktree_support: self.worktree_support,
            read_only: self.read_only,
            default_mode: self.default_mode,
            default_isolation: self.default_isolation,
        }
    }
}

impl AgentDescriptor {
    fn duplicate(&self) -> (r: Self)
        ensures
            r@ == self@,
    {
        AgentDescriptor {
            id: copy_string(&self.id),
            name: copy_string(&self.name),
            command_candidates: copy_strings(&self.command_candidates),
            args: copy_strings(&self.args),
            worktree_support: self.worktree_support,
            read_only: self.read_only,
            default_mode: self.default_mode,
            default_isolation: self.default_isolation,
        }
    }
}

pub open spec fn descriptors_view(s: Seq<AgentDescriptor>) -> Seq<AgentDescriptorView> {
    s.map_values(|d: AgentDescriptor| d@)
}

pub struct CustomAgentView {
    pub id: Seq<char>,
    pub name: Seq<char>,
    pub command: Seq<char>,
    pub default_mode: AgentMode,
    pub default_isolation: AgentIsolation,
    pub args: Seq<Seq<char>>,
    pub env: Seq<(Seq<char>, Seq<char>)>,
    pub workdir_policy: Seq<char>,
}

impl View for CustomAgentDef {
    type V = CustomAgentView;

    open spec fn view(&self) -> CustomAgentView {
        CustomAgentView {
            id: self.id@,
            name: self.name@,
            command: self.command@,
            default_mode: self.default_mode,
            default_isolation: self.default_isolation,
            args: strings_view(self.args@),
            env: self.env@.map_values(|p: (String, String)| (p.0@, p.1@)),
            workdir_policy: self.workdir_policy@,
        }
    }
}

pub open spec fn customs_view(s: Seq<CustomAgentDef>) -> Seq<CustomAgentView> {
    s.map_values(|d: CustomAgentDef| d@)
}

pub open spec fn custom_ids(s: Seq<CustomAgentView>) -> Seq<Seq<char>> {
    s.map_values(|d: CustomAgentView| d.id)
}

pub struct AgentDetectionView {
    pub descriptor_id: Seq<char>,
    pub name: Seq<char>,
    pub found: bool,
    pub path: Option<Seq<char>>,
    pub version: Option<Seq<char>>,
}

impl View for AgentDetection {
    type V = AgentDetectionView;

    open spec fn view(&self) -> AgentDetectionView {
        AgentDetectionView {
            descriptor_id: self.descriptor_id@,
            name: self.name@,
            found: self.found,
            path: match self.path {
                Some(p) => Some(p@),
                None => None,
            },
            version: match self.version {
                Some(v) => Some(v@),
                None => None,
            },
        }
    }
}

pub open spec fn detections_view(s: Seq<AgentDetection>) -> Seq<AgentDetectionView> {
    s.map_values(|d: AgentDetection| d@)
}

/// A built-in coding agent working in a worktree.
pub open spec fn builtin_agent(id: Seq<char>, name: Seq<char>, commands: Seq<Seq<char>>)
    -> AgentDescriptorView
{
    AgentDescriptorView {
        id,
        name,
        command_candidates: commands,
        args: seq![],
        worktree_support: true,
        read_only: false,
        default_mode: AgentMode::Coding,
        default_isolation: AgentIsolation::Worktree,
    }
}

/// The built-in agents, in order. The first is identified by the
/// kebab-case form of its camel-case product name, shown with that name's
/// words spaced, and launched by the kebab-case form of the name's first
/// word or of the whole name.
pub open spec fn builtin_agents() -> Seq<AgentDescriptorView> {
    seq![
        builtin_agent(
            kebab_case("ClaudeCode"@),
            spaced_words("ClaudeCode"@),
            seq![kebab_case(first_word("ClaudeCode"@)), kebab_case("ClaudeCode"@)],
        ),
        builtin_agent("codex"@, "Codex"@, seq!["codex"@]),
        builtin_agent("opencode"@, "OpenCode"@, seq!["opencode"@]),
    ]
}

/// The descriptor of a custom agent: its one command, its arguments,
/// worktree support when it works in a worktree, never read-only.
pub open spec fn custom_descriptor(d: CustomAgentView) -> AgentDescriptorView {
    AgentDescriptorView {
        id: d.id,
        name: d.name,
        command_candidates: seq![d.command],
        args: d.args,
        worktree_support: d.default_isolation == AgentIsolation::Worktree,
        read_only: false,
        default_mode: d.default_mode,
        default_isolation: d.default_isolation,
    }
}

/// The custom agents after adding `d`: it replaces the one with its id, or
/// is appended.
pub open spec fn upsert_custom(s: Seq<CustomAgentView>, d: CustomAgentView) -> Seq<CustomAgentView> {
    let k = first_match(custom_ids(s), d.id);
    if k < s.len() {
        s.update(k, d)
    } else {
        s.push(d)
    }
}

/// The first candidate command found among the resolved commands, as an
/// index into `candidates` (or its length when none is found).
pub open spec fn first_found(candidates: Seq<Seq<char>>, resolved: Seq<Seq<char>>) -> int
    decreases candidates.len(),
{
    if candidates.len() == 0 {
        0
    } else {
        let k = first_found(candidates.drop_last(), resolved);
        if k < candidates.len() - 1 {
            k
        } else if resolved.contains(candidates.last()) {
            candidates.len() - 1
        } else {
            candidates.len() as int
        }
    }
}

/// The detection result of one descriptor, given the commands resolved on
/// the search path and their locations.
pub open spec fn detection_of(d: AgentDescriptorView, resolved: Seq<(Seq<char>, Seq<char>)>)
    -> AgentDetectionView
{
    let names = resolved.map_values(|p: (Seq<char>, Seq<char>)| p.0);
    let k = first_found(d.command_candidates, names);
    let path = if k < d.command_candidates.len() {
        Some(resolved[first_match(names, d.command_candidates[k])].1)
    } else {
        None
    };
    AgentDetectionView {
        descriptor_id: d.id,
        name: d.name,
        found: k < d.command_candidates.len(),
        path,
        version: None,
    }
}

/// The registry of agent descriptors.
pub struct AgentAdapterRegistry {
    builtin: Vec<AgentDescriptor>,
    custom: Vec<CustomAgentDef>,
}

fn builtin(id: &str, name: &str, commands: Vec<String>) -> (r: AgentDescriptor)
    ensures
        r@ == builtin_agent(id@, name@, strings_view(commands@)),
{
    let r = AgentDescriptor {
        id: owned(id),
        name: owned(name),
        command_candidates: commands,
        args: Vec::new(),
        worktree_support: true,
        read_only: false,
        default_mode: AgentMode::Coding,
        default_isolation: AgentIsolation::Worktree,
    };
    assert(strings_view(r.args@) =~= Seq::<Seq<char>>::empty());
    r
}

impl AgentAdapterRegistry {
    /// The built-in descriptors.
    pub closed spec fn builtins(self) -> Seq<AgentDescriptorView> {
        descriptors_view(self.builtin@)
    }

    /// The custom agents, in the order first added.
    pub closed spec fn customs(self) -> Seq<CustomAgentView> {
        customs_view(self.custom@)
    }

    pub fn new() -> (r: Self)
        ensures
            r.builtins() == builtin_agents(),
            r.customs() == Seq::<CustomAgentView>::empty(),
    {
        let product = "ClaudeCode";
        let first_id = to_kebab_case(product);
        let first_name = to_spaced_words(product);
        let mut first_commands: Vec<String> = Vec::new();
        first_commands.push(first_word_kebab(product));
        first_commands.push(to_kebab_case(product));
        let mut codex: Vec<String> = Vec::new();
        codex.push(owned("codex"));
        let mut opencode: Vec<String> = Vec::new();
        opencode.push(owned("opencode"));
        assert(strings_view(first_commands@) =~= seq![
            kebab_case(first_word("ClaudeCode"@)),
            kebab_case("ClaudeCode"@),
        ]);
        assert(strings_view(codex@) =~= seq!["codex"@]);
        assert(strings_view(opencode@) =~= seq!["opencode"@]);
        let mut b: Vec<AgentDescriptor> = Vec::new();
        b.push(builtin(first_id.as_str(), first_name.as_str(), first_commands));
        b.push(builtin("codex", "Codex", codex));
        b.push(builtin("opencode", "OpenCode", opencode));
        let r = AgentAdapterRegistry { builtin: b, custom: Vec::new() };
        assert(r.builtins() =~= builtin_agents());
        assert(r.customs() =~= Seq::<CustomAgentView>::empty());
        r
    }

    /// Adds a custom agent, replacing any custom agent with the same id.
    pub fn add_custom(&mut self, def: CustomAgentDef)
        ensures
            final(self).builtins() == old(self).builtins(),
            final(self).customs() == upsert_custom(old(self).customs(), def@),
    {
        let ghost keys = custom_ids(self.customs());
        let mut i: usize = 0;
        while i < self.custom.len() && !(self.custom[i].id == def.id)
            invariant
                i <= self.custom@.len(),
                keys == custom_ids(self.customs()),
                forall|j: int| 0 <= j < i ==> keys[j] != def.id@,
            decreases self.custom.len() - i,
        {
            assert(keys[i as int] == self.custom@[i as int].id@);
            i = i + 1;
        }
        if i < self.custom.len() {
            assert(keys[i as int] == self.custom@[i as int].id@);
        }
        proof {
            lemma_first_match_is(keys, def.id@, i as int);
        }
        let ghost before = self.customs();
        let ghost dv = def@;
        if i < self.custom.len() {
            self.custom.set(i, def);
            assert(self.customs() =~= before.update(i as int, dv));
        } else {
            self.custom.push(def);
            assert(self.customs() =~= before.push(dv));
        }
    }

    /// All descriptors: the built-in ones, then one per custom agent.
    pub fn descriptors(&self) -> (r: Vec<AgentDescriptor>)
        ensures
            descriptors_view(r@) == self.builtins() + self.customs().map_values(
                |d: CustomAgentView| custom_descriptor(d),
            ),
    {
        let mut all: Vec<AgentDescriptor> = Vec::new();
        let mut i: usize = 0;
        while i < self.builtin.len()
            invariant
                i <= self.builtin@.len(),
                descriptors_view(all@) == self.builtins().subrange(0, i as int),
            decreases self.builtin.len() - i,
        {
            let d = self.builtin[i].duplicate();
            let ghost before = descriptors_view(all@);
            assert(self.builtins()[i as int] == d@);
            let ghost dd = d@;
            all.push(d);
            assert(descriptors_view(all@) =~= before.push(dd));
            assert(descriptors_view(all@) =~= self.builtins().subrange(0, i + 1));
            i = i + 1;
        }
        assert(self.builtins().subrange(0, i as int) =~= self.builtins());
        let ghost head = descriptors_view(all@);
        let ghost mapped = self.customs().map_values(|d: CustomAgentView| custom_descriptor(d));
        let mut j: usize = 0;
        while j < self.custom.len()
            invariant
                j <= self.custom@.len(),
                head == self.builtins(),
                mapped == self.customs().map_values(|d: CustomAgentView| custom_descriptor(d)),
                descriptors_view(all@) == head + mapped.subrange(0, j as int),
            decreases self.custom.len() - j,
        {
            let def = &self.custom[j];
            let mut commands: Vec<String> = Vec::new();
            commands.push(copy_string(&def.command));
            assert(strings_view(commands@) =~= seq![def.command@]);
            let d = AgentDescriptor {
                id: copy_string(&def.id),
                name: copy_string(&def.name),
                command_candidates: commands,
                args: copy_strings(&def.args),
                worktree_support: def.default_isolation == AgentIsolation::Worktree,
                read_only: false,
                default_mode: def.default_mode,
                default_isolation: def.default_isolation,
            };
            let ghost before = descriptors_view(all@);
            assert(mapped[j as int] == d@);
            let ghost dd = d@;
            all.push(d);
            assert(descriptors_view(all@) =~= before.push(dd));
            assert(descriptors_view(all@) =~= head + mapped.subrange(0, j + 1));
            j = j + 1;
        }
        assert(mapped.subrange(0, j as int) =~= mapped);
        all
    }

    /// Detects which agents are available: for each descriptor, in order,
    /// its first command candidate that was resolved on the search path
    /// (`on_path` pairs a command with its location) makes it found, at that
    /// location.
    pub fn detect(&self, on_path: &Vec<(String, String)>) -> (r: Vec<AgentDetection>)
        ensures
            detections_view(r@) == (self.builtins() + self.customs().map_values(
                |d: CustomAgentView| custom_descriptor(d),
            )).map_values(
                |d: AgentDescriptorView| detection_of(d, resolved_view(on_path@)),
            ),
    {
        let descs = self.descriptors();
        let ghost dv = descriptors_view(descs@);
        let ghost rv = resolved_view(on_path@);
        let mut results: Vec<AgentDetection> = Vec::new();
        let mut i: usize = 0;
        while i < descs.len()
            invariant
                i <= descs@.len(),
                dv == descriptors_view(descs@),
                rv == resolved_view(on_path@),
                detections_view(results@) == dv.subrange(0, i as int).map_values(
                    |d: AgentDescriptorView| detection_of(d, rv),
                ),
            decreases descs.len() - i,
        {
            let desc = &descs[i];
            let det = detect_one(desc, on_path);
            let ghost before = detections_view(results@);
            assert(dv[i as int] == desc@);
            let ghost dd = det@;
            results.push(det);
            assert(detections_view(results@) =~= before.push(dd));
            assert(detections_view(results@) =~= dv.subrange(0, i + 1).map_values(
                |d: AgentDescriptorView| detection_of(d, rv),
            ));
            i = i + 1;
        }
        assert(dv.subrange(0, i as int) =~= dv);
        results
    }
}

pub open spec fn resolved_view(s: Seq<(String, String)>) -> Seq<(Seq<char>, Seq<char>)> {
    s.map_values(|p: (String, String)| (p.0@, p.1@))
}

/// Index of the first resolved command named `c`, or the table's length.
fn find_resolved(on_path: &Vec<(String, String)>, c: &String) -> (r: usize)
    ensures
        r as int == first_match(
            resolved_view(on_path@).map_values(|p: (Seq<char>, Seq<char>)| p.0),
            c@,
        ),
{
    let ghost names = resolved_view(on_path@).map_values(|p: (Seq<char>, Seq<char>)| p.0);
    let mut i: usize = 0;
    while i < on_path.len() && !(on_path[i].0 == *c)
        invariant
            i <= on_path@.len(),
            names == resolved_view(on_path@).map_values(|p: (Seq<char>, Seq<char>)| p.0),
            forall|j: int| 0 <= j < i ==> names[j] != c@,
        decreases on_path.len() - i,
    {
        assert(names[i as int] == on_path@[i as int].0@);
        i = i + 1;
    }
    if i < on_path.len() {
        assert(names[i as int] == on_path@[i as int].0@);
    }
    proof {
        lemma_first_match_is(names, c@, i as int);
    }
    i
}

fn detect_one(desc: &AgentDescriptor, on_path: &Vec<(String, String)>) -> (r: AgentDetection)
    ensures
        r@ == detection_of(desc@, resolved_view(on_path@)),
{
    let ghost rv = resolved_view(on_path@);
    let ghost names = rv.map_values(|p: (Seq<char>, Seq<char>)| p.0);
    let ghost cands = desc@.command_candidates;
    let mut found = false;
    let mut path: Option<String> = None;
    let mut k: usize = 0;
    assert(cands.subrange(0, 0) =~= Seq::<Seq<char>>::empty());
    while k < desc.command_candidates.len() && !found
        invariant
            k <= desc.command_candidates@.len(),
            rv == resolved_view(on_path@),
            names == rv.map_values(|p: (Seq<char>, Seq<char>)| p.0),
            cands == desc@.command_candidates,
            !found ==> first_found(cands.subrange(0, k as int), names) == k && path is None,
            found ==> k >= 1,
            found ==> first_found(cands.subrange(0, k as int), names) == k - 1,
            found ==> (path matches Some(p) && p@ == rv[first_match(names, cands[k - 1])].1),
        decreases desc.command_candidates.len() - k,
    {
        let c = &desc.command_candidates[k];
        assert(cands[k as int] == c@);
        let at = find_resolved(on_path, c);
        assert(cands.subrange(0, k + 1).drop_last() =~= cands.subrange(0, k as int));
        proof {
            crate::text::lemma_first_match_found(names, c@);
        }
        if at < on_path.len() {
            found = true;
            path = Some(copy_string(&on_path[at].1));
        }
        k = k + 1;
    }
    proof {
        if found {
            lemma_first_found_prefix(cands, names, k as int);
        } else {
            assert(cands.subrange(0, k as int) =~= cands);
        }
    }
    AgentDetection {
        descriptor_id: copy_string(&desc.id),
        name: copy_string(&desc.name),
        found,
        path,
        version: None,
    }
}

/// A candidate found in a prefix is the first one found overall.
proof fn lemma_first_found_prefix(c: Seq<Seq<char>>, names: Seq<Seq<char>>, n: int)
    requires
        0 <= n <= c.len(),
        first_found(c.subrange(0, n), names) < n,
    ensures
        first_found(c, names) == first_found(c.subrange(0, n), names),
    decreases c.len() - n,
{
    if n < c.len() {
        assert(c.subrange(0, n + 1).drop_last() =~= c.subrange(0, n));
        lemma_first_found_prefix(c, names, n + 1);
    } else {
        assert(c.subrange(0, n) =~= c);
    }
}

/// The directories where agent commands are looked for, in order: each
/// entry of the search path (split on `:`), then the common macOS install
/// locations `/opt/homebrew/bin` and `/usr/local/bin`, then `~/.local/bin`
/// when the home directory is known.
pub open spec fn agent_search_dirs(path_var: Option<Seq<char>>, home: Option<Seq<char>>) -> Seq<
    Seq<char>,
> {
    (match path_var {
        Some(p) => split_char(p, ':'),
        None => seq![],
    }) + seq!["/opt/homebrew/bin"@, "/usr/local/bin"@] + match home {
        Some(h) => seq![path_join(h, ".local/bin"@)],
        None => seq![],
    }
}

/// The places an agent command `cmd` may be installed, in the order they
/// are tried: `cmd` in each directory of `agent_search_dirs`.
pub fn agent_command_candidates(path_var: Option<&str>, home: Option<&str>, cmd: &str) -> (r: Vec<
    String,
>)
    ensures
        strings_view(r@) == agent_search_dirs(
            match path_var {
                Some(p) => Some(p@),
                None => None,
            },
            match home {
                Some(h) => Some(h@),
                None => None,
            },
        ).map_values(|d: Seq<char>| path_join(d, cmd@)),
{
    let ghost dirs = agent_search_dirs(
        match path_var {
            Some(p) => Some(p@),
            None => None,
        },
        match home {
            Some(h) => Some(h@),
            None => None,
        },
    );
    let mut ds: Vec<String> = Vec::new();
    match path_var {
        Some(p) => {
            let cs = chars_of(p);
            let pieces = split_on(cs.as_slice(), ':');
            let ghost pv = pieces@.map_values(|x: Vec<char>| x@);
            let mut i: usize = 0;
            while i < pieces.len()
                invariant
                    i <= pieces@.len(),
                    pv == pieces@.map_values(|x: Vec<char>| x@),
                    strings_view(ds@) == pv.subrange(0, i as int),
                decreases pieces.len() - i,
            {
                let ghost prev = strings_view(ds@);
                let x = string_of(pieces[i].as_slice());
                assert(x@ == pv[i as int]);
                ds.push(x);
                assert(strings_view(ds@) =~= prev.push(pv[i as int]));
                assert(pv.subrange(0, i + 1) =~= pv.subrange(0, i as int).push(pv[i as int]));
                i = i + 1;
            }
            assert(pv.subrange(0, i as int) =~= pv);
        },
        None => {
            assert(strings_view(ds@) =~= Seq::<Seq<char>>::empty());
        },
    }
    let ghost head = strings_view(ds@);
    ds.push(owned("/opt/homebrew/bin"));
    ds.push(owned("/usr/local/bin"));
    match home {
        Some(h) => {
            ds.push(join_path(h, ".local/bin"));
        },
        None => {},
    }
    assert(strings_view(ds@) =~= dirs);
    let mut out: Vec<String> = Vec::new();
    let mut j: usize = 0;
    while j < ds.len()
        invariant
            j <= ds@.len(),
            strings_view(ds@) == dirs,
            strings_view(out@) == dirs.subrange(0, j as int).map_values(
                |d: Seq<char>| path_join(d, cmd@),
            ),
        decreases ds.len() - j,
    {
        let ghost prev = strings_view(out@);
        let x = join_path(ds[j].as_str(), cmd);
        assert(dirs[j as int] == ds@[j as int]@);
        out.push(x);
        assert(strings_view(out@) =~= prev.push(path_join(dirs[j as int], cmd@)));
        assert(dirs.subrange(0, j + 1).map_values(|d: Seq<char>| path_join(d, cmd@))
            =~= dirs.subrange(0, j as int).map_values(|d: Seq<char>| path_join(d, cmd@)).push(
            path_join(dirs[j as int], cmd@),
        ));
        j = j + 1;
    }
    assert(dirs.subrange(0, j as int) =~= dirs);
    out
}

} // verus!
