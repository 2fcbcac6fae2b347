//! The agent registry: known agents, their labels, aliases, process names,
//! package layouts and integrations, and lookups by each of them.

use vstd::prelude::*;
use crate::search::{first_where, index_opt, lemma_first_where, lemma_first_where_at, lemma_first_where_none};
use crate::text::{chars_of, eq_chars, has_prefix, is_digit, slice_chars, starts_with_chars};

verus! {

/// An agent that herdr recognizes: one of the built-in agents, or one
/// defined by a registry package under its own label.
#[derive(Debug, Clone, PartialEq, Eq)]
pub enum Agent {
    Pi,
    Codex,
    Gemini,
    Cursor,
    Devin,
    Antigravity,
    Cline,
    Omp,
    Mastracode,
    OpenCode,
    GithubCopilot,
    Kimi,
    Kiro,
    Droid,
    Amp,
    Grok,
    Hermes,
    Kilo,
    Qodercli,
    Qwen,
    Maki,
    Muse,
    Other(String),
}

/// The canonical label of an agent.
pub open spec fn label_of(a: Agent) -> Seq<char> {
    match a {
        Agent::Pi => "pi"@,
        Agent::Codex => "codex"@,
        Agent::Gemini => "gemini"@,
        Agent::Cursor => "cursor"@,
        Agent::Devin => "devin"@,
        Agent::Antigravity => "agy"@,
        Agent::Cline => "cline"@,
        Agent::Omp => "omp"@,
        Agent::Mastracode => "mastracode"@,
        Agent::OpenCode => "opencode"@,
        Agent::GithubCopilot => "copilot"@,
        Agent::Kimi => "kimi"@,
        Agent::Kiro => "kiro"@,
        Agent::Droid => "droid"@,
        Agent::Amp => "amp"@,
        Agent::Grok => "grok"@,
        Agent::Hermes => "hermes"@,
        Agent::Kilo => "kilo"@,
        Agent::Qodercli => "qodercli"@,
        Agent::Qwen => "qwen"@,
        Agent::Maki => "maki"@,
        Agent::Muse => "muse"@,
        Agent::Other(s) => s@,
    }
}

/// The built-in agents, in registry order.
pub open spec fn builtin_agents() -> Seq<Agent> {
    seq![
        Agent::Pi, Agent::Codex, Agent::Gemini, Agent::Cursor, Agent::Devin,
        Agent::Antigravity, Agent::Cline, Agent::Omp, Agent::Mastracode, Agent::OpenCode,
        Agent::GithubCopilot, Agent::Kimi, Agent::Kiro, Agent::Droid, Agent::Amp, Agent::Grok,
        Agent::Hermes, Agent::Kilo, Agent::Qodercli, Agent::Qwen, Agent::Maki, Agent::Muse,
    ]
}

/// The agent has the given label.
pub open spec fn label_is(s: Seq<char>) -> spec_fn(Agent) -> bool {
    |a: Agent| label_of(a) == s
}

impl Agent {
    /// The agent's canonical label.
    pub fn as_str(&self) -> (r: &str)
        ensures
            r@ == label_of(*self),
    {
        match self {
            Agent::Pi => "pi",
            Agent::Codex => "codex",
            Agent::Gemini => "gemini",
            Agent::Cursor => "cursor",
            Agent::Devin => "devin",
            Agent::Antigravity => "agy",
            Agent::Cline => "cline",
            Agent::Omp => "omp",
            Agent::Mastracode => "mastracode",
            Agent::OpenCode => "opencode",
            Agent::GithubCopilot => "copilot",
            Agent::Kimi => "kimi",
            Agent::Kiro => "kiro",
            Agent::Droid => "droid",
            Agent::Amp => "amp",
            Agent::Grok => "grok",
            Agent::Hermes => "hermes",
            Agent::Kilo => "kilo",
            Agent::Qodercli => "qodercli",
            Agent::Qwen => "qwen",
            Agent::Maki => "maki",
            Agent::Muse => "muse",
            Agent::Other(s) => s.as_str(),
        }
    }

    /// The built-in agents.
    pub fn all() -> (r: Vec<Agent>)
        ensures
            r@ == builtin_agents(),
    {
        let r = vec![
            Agent::Pi, Agent::Codex, Agent::Gemini, Agent::Cursor, Agent::Devin,
            Agent::Antigravity, Agent::Cline, Agent::Omp, Agent::Mastracode, Agent::OpenCode,
            Agent::GithubCopilot, Agent::Kimi, Agent::Kiro, Agent::Droid, Agent::Amp, Agent::Grok,
            Agent::Hermes, Agent::Kilo, Agent::Qodercli, Agent::Qwen, Agent::Maki, Agent::Muse,
        ];
        assert(r@ =~= builtin_agents());
        r
    }

    /// The first built-in agent with this label, an agent of its own for
    /// another non-empty label, or `None` for the empty label.
    pub fn parse(label: &str) -> (r: Option<Agent>)
        ensures
            match first_where(builtin_agents(), label_is(label@)) {
                Some(i) => r == Some(builtin_agents()[i]),
                None => if label@.len() > 0 {
                    r matches Some(Agent::Other(s)) && s@ == label@
                } else {
                    r is None
                },
            },
    {
        let all = Agent::all();
        let target = chars_of(label);
        let mut i: usize = 0;
        while i < all.len()
            invariant
                i <= all@.len(),
                all@ == builtin_agents(),
                target@ == label@,
                forall|q: int| 0 <= q < i ==> !label_is(label@)(#[trigger] builtin_agents()[q]),
            decreases all@.len() - i,
        {
            let name = chars_of(all[i].as_str());
            if eq_chars(&name, &target) {
                proof {
                    lemma_first_where_at(builtin_agents(), label_is(label@), i as int);
                }
                return Some(all[i].clone_agent());
            }
            i += 1;
        }
        proof {
            lemma_first_where_none(builtin_agents(), label_is(label@));
        }
        if target.len() == 0 {
            None
        } else {
            Some(Agent::Other(label.to_owned()))
        }
    }

    /// A copy of the agent.
    pub fn clone_agent(&self) -> (r: Agent)
        ensures
            r == *self,
    {
        match self {
            Agent::Other(s) => {
                Agent::Other(s.clone())
            },
            Agent::Pi => Agent::Pi,
            Agent::Codex => Agent::Codex,
            Agent::Gemini => Agent::Gemini,
            Agent::Cursor => Agent::Cursor,
            Agent::Devin => Agent::Devin,
            Agent::Antigravity => Agent::Antigravity,
            Agent::Cline => Agent::Cline,
            Agent::Omp => Agent::Omp,
            Agent::Mastracode => Agent::Mastracode,
            Agent::OpenCode => Agent::OpenCode,
            Agent::GithubCopilot => Agent::GithubCopilot,
            Agent::Kimi => Agent::Kimi,
            Agent::Kiro => Agent::Kiro,
            Agent::Droid => Agent::Droid,
            Agent::Amp => Agent::Amp,
            Agent::Grok => Agent::Grok,
            Agent::Hermes => Agent::Hermes,
            Agent::Kilo => Agent::Kilo,
            Agent::Qodercli => Agent::Qodercli,
            Agent::Qwen => Agent::Qwen,
            Agent::Maki => Agent::Maki,
            Agent::Muse => Agent::Muse,
        }
    }
}

/// Where an agent's package keeps its entry point, as path components: an
/// exact case-insensitive suffix of the path, or a run of normalized components.
#[derive(Debug, Clone, PartialEq, Eq)]
pub struct PackageLayout {
    pub exact_suffix: bool,
    pub components: Vec<String>,
}

/// A bundled Node runtime: `<package>/<versions>/<version>/<runtime>` running
/// the entry point next to it.
#[derive(Debug, Clone, PartialEq, Eq)]
pub struct BundledNodeLayout {
    pub runtime_basename: String,
    pub entrypoint_basename: String,
    pub package_directory: String,
    pub versions_directory: String,
}

/// How an agent's processes are recognized.
#[derive(Debug, Clone, PartialEq, Eq)]
pub struct ProcessProfile {
    /// Normalized process names.
    pub names: Vec<String>,
    /// Prefixes of normalized names followed by a version.
    pub versioned_prefixes: Vec<String>,
    /// A script run by `node` or `bun` under another process name also counts.
    pub secondary_runtime_argv_fallback: bool,
    pub package_layouts: Vec<PackageLayout>,
    pub bundled_node: Option<BundledNodeLayout>,
}

/// An integration that reports agent events under a source name.
#[derive(Debug, Clone, PartialEq, Eq)]
pub struct IntegrationProfile {
    pub source: String,
    /// Reports only session identity; state is left to screen detection.
    pub session_identity_only: bool,
}

/// Executables that start an agent interactively.
#[derive(Debug, Clone, PartialEq, Eq)]
pub struct LaunchProfile {
    pub unix: String,
    pub windows: String,
}

/// Everything the registry knows of one agent.
#[derive(Debug, Clone, PartialEq, Eq)]
pub struct AgentProfile {
    pub id: String,
    pub agent: Agent,
    /// Normalized labels that name the agent.
    pub aliases: Vec<String>,
    pub launch: LaunchProfile,
    pub process: Option<ProcessProfile>,
    pub integration: Option<IntegrationProfile>,
    pub screen_detectable: bool,
}

/// An ordered set of agent profiles; lookups return the first match.
#[derive(Debug, Clone, PartialEq, Eq)]
pub struct AgentRegistry {
    pub profiles: Vec<AgentProfile>,
}

/// A version: a digit followed by ASCII letters, digits, `.` and `-`.
pub open spec fn version_text(v: Seq<char>) -> bool {
    &&& v.len() > 0
    &&& is_digit(v[0])
    &&& forall|i: int| 0 <= i < v.len() ==> version_char(#[trigger] v[i])
}

pub open spec fn version_char(c: char) -> bool {
    ('0' <= c && c <= '9') || ('a' <= c && c <= 'z') || ('A' <= c && c <= 'Z') || c == '.' || c == '-'
}

/// The name is one of the profile's versioned prefixes followed by a version.
pub open spec fn versioned_match(pp: ProcessProfile, name: Seq<char>) -> bool {
    exists|j: int| 0 <= j < pp.versioned_prefixes@.len() && has_prefix(name, #[trigger] pp.versioned_prefixes@[j]@)
        && version_text(name.subrange(pp.versioned_prefixes@[j]@.len() as int, name.len() as int))
}

pub open spec fn id_is(id: Seq<char>) -> spec_fn(AgentProfile) -> bool {
    |p: AgentProfile| p.id@ == id
}

pub open spec fn alias_is(name: Seq<char>) -> spec_fn(AgentProfile) -> bool {
    |p: AgentProfile| p.aliases.deep_view().contains(name)
}

pub open spec fn process_name_is(name: Seq<char>) -> spec_fn(AgentProfile) -> bool {
    |p: AgentProfile| p.process matches Some(pp) && (pp.names.deep_view().contains(name) || versioned_match(pp, name))
}

pub open spec fn versioned_name_is(name: Seq<char>) -> spec_fn(AgentProfile) -> bool {
    |p: AgentProfile| p.process matches Some(pp) && versioned_match(pp, name)
}

fn list_contains(list: &Vec<String>, name: &Vec<char>) -> (r: bool)
    ensures
        r == list.deep_view().contains(name@),
{
    let mut i: usize = 0;
    while i < list.len()
        invariant
            i <= list@.len(),
            forall|q: int| 0 <= q < i ==> list.deep_view()[q] != name@,
        decreases list@.len() - i,
    {
        let item = chars_of(list[i].as_str());
        if eq_chars(&item, name) {
            assert(list.deep_view()[i as int] == name@);
            return true;
        }
        i += 1;
    }
    false
}

fn is_version_text(v: &Vec<char>) -> (r: bool)
    ensures
        r == version_text(v@),
{
    if v.len() == 0 || !('0' <= v[0] && v[0] <= '9') {
        return false;
    }
    let mut i: usize = 0;
    while i < v.len()
        invariant
            i <= v@.len(),
            forall|q: int| 0 <= q < i ==> version_char(#[trigger] v@[q]),
        decreases v@.len() - i,
    {
        let c = v[i];
        if !(('0' <= c && c <= '9') || ('a' <= c && c <= 'z') || ('A' <= c && c <= 'Z') || c == '.' || c == '-') {
            return false;
        }
        i += 1;
    }
    true
}

fn matches_versioned(pp: &ProcessProfile, name: &Vec<char>) -> (r: bool)
    ensures
        r == versioned_match(*pp, name@),
{
    let mut j: usize = 0;
    while j < pp.versioned_prefixes.len()
        invariant
            j <= pp.versioned_prefixes@.len(),
            forall|q: int| 0 <= q < j ==> !(has_prefix(name@, #[trigger] pp.versioned_prefixes@[q]@)
                && version_text(name@.subrange(pp.versioned_prefixes@[q]@.len() as int, name@.len() as int))),
        decreases pp.versioned_prefixes@.len() - j,
    {
        let prefix = chars_of(pp.versioned_prefixes[j].as_str());
        if starts_with_chars(name, &prefix) {
            let rest = slice_chars(name, prefix.len(), name.len());
            if is_version_text(&rest) {
                return true;
            }
        }
        j += 1;
    }
    false
}

/// The profile has the label and an integration of the given kind reporting under `source`.
pub open spec fn integration_matches(p: AgentProfile, source: Seq<char>, agent_label: Seq<char>, session_only: bool) -> bool {
    p.id@ == agent_label && match p.integration {
        Some(ig) => ig.source@ == source && ig.session_identity_only == session_only,
        None => false,
    }
}

impl AgentRegistry {
    /// The first profile with this canonical ID.
    pub fn position_by_id(&self, id: &Vec<char>) -> (r: Option<usize>)
        ensures
            match r {
                Some(i) => first_where(self.profiles@, id_is(id@)) == Some(i as int),
                None => first_where(self.profiles@, id_is(id@)) is None,
            },
    {
        let ghost ps = self.profiles@;
        let mut i: usize = 0;
        while i < self.profiles.len()
            invariant
                i <= ps.len(),
                ps == self.profiles@,
                forall|q: int| 0 <= q < i ==> !id_is(id@)(#[trigger] ps[q]),
            decreases ps.len() - i,
        {
            let pid = chars_of(self.profiles[i].id.as_str());
            if eq_chars(&pid, id) {
                proof {
                    lemma_first_where_at(ps, id_is(id@), i as int);
                }
                return Some(i);
            }
            i += 1;
        }
        proof {
            lemma_first_where_none(ps, id_is(id@));
        }
        None
    }

    /// The first profile one of whose aliases is the normalized name.
    pub fn position_by_alias(&self, name: &Vec<char>) -> (r: Option<usize>)
        ensures
            match r {
                Some(i) => first_where(self.profiles@, alias_is(name@)) == Some(i as int),
                None => first_where(self.profiles@, alias_is(name@)) is None,
            },
    {
        let ghost ps = self.profiles@;
        let mut i: usize = 0;
        while i < self.profiles.len()
            invariant
                i <= ps.len(),
                ps == self.profiles@,
                forall|q: int| 0 <= q < i ==> !alias_is(name@)(#[trigger] ps[q]),
            decreases ps.len() - i,
        {
            if list_contains(&self.profiles[i].aliases, name) {
                proof {
                    lemma_first_where_at(ps, alias_is(name@), i as int);
                }
                return Some(i);
            }
            i += 1;
        }
        proof {
            lemma_first_where_none(ps, alias_is(name@));
        }
        None
    }

    /// The first profile whose process names include the normalized name,
    /// or whose versioned prefixes match it.
    pub fn position_by_process_name(&self, name: &Vec<char>) -> (r: Option<usize>)
        ensures
            match r {
                Some(i) => first_where(self.profiles@, process_name_is(name@)) == Some(i as int),
                None => first_where(self.profiles@, process_name_is(name@)) is None,
            },
    {
        let ghost ps = self.profiles@;
        let mut i: usize = 0;
        while i < self.profiles.len()
            invariant
                i <= ps.len(),
                ps == self.profiles@,
                forall|q: int| 0 <= q < i ==> !process_name_is(name@)(#[trigger] ps[q]),
            decreases ps.len() - i,
        {
            let found = match &self.profiles[i].process {
                Some(pp) => list_contains(&pp.names, name) || matches_versioned(pp, name),
                None => false,
            };
            if found {
                proof {
                    lemma_first_where_at(ps, process_name_is(name@), i as int);
                }
                return Some(i);
            }
            i += 1;
        }
        proof {
            lemma_first_where_none(ps, process_name_is(name@));
        }
        None
    }

    /// The first profile whose versioned prefixes match the normalized name.
    pub fn position_by_versioned_name(&self, name: &Vec<char>) -> (r: Option<usize>)
        ensures
            match r {
                Some(i) => first_where(self.profiles@, versioned_name_is(name@)) == Some(i as int),
                None => first_where(self.profiles@, versioned_name_is(name@)) is None,
            },
    {
        let ghost ps = self.profiles@;
        let mut i: usize = 0;
        while i < self.profiles.len()
            invariant
                i <= ps.len(),
                ps == self.profiles@,
                forall|q: int| 0 <= q < i ==> !versioned_name_is(name@)(#[trigger] ps[q]),
            decreases ps.len() - i,
        {
            let found = match &self.profiles[i].process {
                Some(pp) => matches_versioned(pp, name),
                None => false,
            };
            if found {
                proof {
                    lemma_first_where_at(ps, versioned_name_is(name@), i as int);
                }
                return Some(i);
            }
            i += 1;
        }
        proof {
            lemma_first_where_none(ps, versioned_name_is(name@));
        }
        None
    }

    /// The first profile with this canonical ID.
    pub fn profile_by_id(&self, id: &str) -> (r: Option<&AgentProfile>)
        ensures
            match first_where(self.profiles@, id_is(id@)) {
                Some(i) => r == Some(&self.profiles@[i]),
                None => r is None,
            },
    {
        let name = chars_of(id);
        proof {
            lemma_first_where(self.profiles@, id_is(id@));
        }
        let pos = self.position_by_id(&name);
        assert(name@ == id@);
        assert(id_is(name@) == id_is(id@));
        match pos {
            Some(i) => {
                assert(first_where(self.profiles@, id_is(id@)) == Some(i as int));
                Some(&self.profiles[i])
            },
            None => None,
        }
    }

    /// Some integration reports under `source` for the agent labelled
    /// `agent_label` with full lifecycle authority.
    pub open spec fn spec_full_lifecycle(&self, source: Seq<char>, agent_label: Seq<char>) -> bool {
        exists|i: int| 0 <= i < self.profiles@.len() && integration_matches(#[trigger] self.profiles@[i], source, agent_label, false)
    }

    /// Some integration reports under `source` only the session identity of
    /// the agent labelled `agent_label`.
    pub open spec fn spec_session_identity_only(&self, source: Seq<char>, agent_label: Seq<char>) -> bool {
        exists|i: int| 0 <= i < self.profiles@.len() && integration_matches(#[trigger] self.profiles@[i], source, agent_label, true)
    }

    fn integration_kind(&self, source: &str, agent_label: &str, session_only: bool) -> (r: bool)
        ensures
            r == exists|i: int| 0 <= i < self.profiles@.len() && integration_matches(#[trigger] self.profiles@[i], source@, agent_label@, session_only),
    {
        let src = chars_of(source);
        let label = chars_of(agent_label);
        let mut i: usize = 0;
        while i < self.profiles.len()
            invariant
                i <= self.profiles@.len(),
                src@ == source@,
                label@ == agent_label@,
                forall|q: int| 0 <= q < i ==> !integration_matches(#[trigger] self.profiles@[q], source@, agent_label@, session_only),
            decreases self.profiles@.len() - i,
        {
            let p = &self.profiles[i];
            let pid = chars_of(p.id.as_str());
            if eq_chars(&pid, &label) {
                if let Some(ig) = &p.integration {
                    let isrc = chars_of(ig.source.as_str());
                    if eq_chars(&isrc, &src) && ig.session_identity_only == session_only {
                        return true;
                    }
                }
            }
            i += 1;
        }
        false
    }

    pub fn has_full_lifecycle_report_authority(&self, source: &str, agent_label: &str) -> (r: bool)
        ensures
            r == self.spec_full_lifecycle(source@, agent_label@),
    {
        self.integration_kind(source, agent_label, false)
    }

    pub fn is_session_identity_only_integration(&self, source: &str, agent_label: &str) -> (r: bool)
        ensures
            r == self.spec_session_identity_only(source@, agent_label@),
    {
        self.integration_kind(source, agent_label, true)
    }

    /// Whether some screen-detectable profile belongs to the agent.
    pub fn screen_detects(&self, agent: &Agent) -> (r: bool)
        ensures
            r == exists|i: int| 0 <= i < self.profiles@.len() && (#[trigger] self.profiles@[i]).screen_detectable
                && label_of(self.profiles@[i].agent) == label_of(*agent),
    {
        let wanted = chars_of(agent.as_str());
        let mut i: usize = 0;
        while i < self.profiles.len()
            invariant
                i <= self.profiles@.len(),
                wanted@ == label_of(*agent),
                forall|q: int| 0 <= q < i ==> !((#[trigger] self.profiles@[q]).screen_detectable
                    && label_of(self.profiles@[q].agent) == label_of(*agent)),
            decreases self.profiles@.len() - i,
        {
            let p = &self.profiles[i];
            if p.screen_detectable {
                let label = chars_of(p.agent.as_str());
                if eq_chars(&label, &wanted) {
                    return true;
                }
            }
            i += 1;
        }
        false
    }
}

} // verus!
