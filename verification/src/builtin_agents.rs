//! The built-in agent registry.

use vstd::prelude::*;
use crate::agents::{
    alias_is, builtin_agents, id_is, label_of, Agent, AgentProfile, AgentRegistry, BundledNodeLayout, IntegrationProfile, LaunchProfile, PackageLayout,
    ProcessProfile,
};
use crate::detect::{label_char, plain_label, profile_wf, registry_wf};
use crate::search::{first_where, lemma_first_where_at};

verus! {

/// An integration reporting under `source`, of the given kind.
pub open spec fn integration_has(ig: Option<IntegrationProfile>, expected: Option<(Seq<char>, bool)>) -> bool {
    match (ig, expected) {
        (Some(i), Some((source, session_only))) => i.source@ == source && i.session_identity_only == session_only,
        (None, None) => true,
        _ => false,
    }
}

/// A bundled Node layout with runtime, entry point, package and versions directories.
pub open spec fn bundled_has(b: Option<BundledNodeLayout>, expected: Option<(Seq<char>, Seq<char>, Seq<char>, Seq<char>)>) -> bool {
    match (b, expected) {
        (Some(l), Some((runtime, entry, package, versions))) => {
            &&& l.runtime_basename@ == runtime
            &&& l.entrypoint_basename@ == entry
            &&& l.package_directory@ == package
            &&& l.versions_directory@ == versions
        },
        (None, None) => true,
        _ => false,
    }
}

/// Exact-suffix package layouts with these components, in this order.
pub open spec fn exact_layouts_are(ls: Seq<PackageLayout>, expected: Seq<Seq<Seq<char>>>) -> bool {
    &&& ls.len() == expected.len()
    &&& forall|l: int| 0 <= l < ls.len() ==> (#[trigger] ls[l]).exact_suffix && ls[l].components.deep_view() =~= expected[l]
}

/// A process profile with these names, versioned prefixes, runtime fallback,
/// exact-suffix layouts and bundled Node layout.
pub open spec fn process_has(
    pp: ProcessProfile,
    names: Seq<Seq<char>>,
    versioned: Seq<Seq<char>>,
    fallback: bool,
    layouts: Seq<Seq<Seq<char>>>,
    bundled: Option<(Seq<char>, Seq<char>, Seq<char>, Seq<char>)>,
) -> bool {
    &&& pp.names.deep_view() =~= names
    &&& pp.versioned_prefixes.deep_view() =~= versioned
    &&& pp.secondary_runtime_argv_fallback == fallback
    &&& exact_layouts_are(pp.package_layouts@, layouts)
    &&& bundled_has(pp.bundled_node, bundled)
}

/// A profile with this ID, agent, aliases, launch commands and screen
/// detection; its process and integration are checked apart.
pub open spec fn profile_has(
    p: AgentProfile,
    id: Seq<char>,
    agent: Agent,
    aliases: Seq<Seq<char>>,
    unix: Seq<char>,
    windows: Seq<char>,
    integration: Option<(Seq<char>, bool)>,
    screen: bool,
) -> bool {
    &&& p.id@ == id
    &&& p.agent == agent
    &&& p.aliases.deep_view() =~= aliases
    &&& p.launch.unix@ == unix
    &&& p.launch.windows@ == windows
    &&& integration_has(p.integration, integration)
    &&& p.screen_detectable == screen
}

/// A profile whose process is recognized by these names alone, with no
/// versioned prefixes, layouts or bundled runtime.
pub open spec fn plain_process(p: AgentProfile, names: Seq<Seq<char>>, fallback: bool) -> bool {
    p.process matches Some(pp) && process_has(pp, names, seq![], fallback, seq![], None)
}

/// The `i`-th built-in profile, in registry order.
pub open spec fn builtin_profile(p: AgentProfile, i: int) -> bool {
    if i == 0 {
        &&& profile_has(p, "pi"@, Agent::Pi, seq!["pi"@], "pi"@, "pi"@, Some(("herdr:pi"@, false)), true)
        &&& p.process matches Some(pp) && process_has(pp, seq!["pi"@], seq![], false, seq![
                seq!["node_modules"@, "@earendil-works"@, "pi-coding-agent"@, "dist"@, "cli.js"@],
                seq!["node_modules"@, "@earendil-works"@, "pi-coding-agent"@, "dist"@, "bundle"@, "cli.js"@],
            ], None)
    } else if i == 1 {
        profile_has(p, "codex"@, Agent::Codex, seq!["codex"@], "codex"@, "codex"@, Some(("herdr:codex"@, false)), true)
            && plain_process(p, seq!["codex"@], false)
    } else if i == 2 {
        profile_has(p, "gemini"@, Agent::Gemini, seq!["gemini"@], "gemini"@, "gemini"@, None, true)
            && plain_process(p, seq!["gemini"@], false)
    } else if i == 3 {
        &&& profile_has(p, "cursor"@, Agent::Cursor, seq!["cursor"@, "cursor-agent"@], "cursor-agent"@, "cursor-agent.cmd"@,
                Some(("herdr:cursor"@, false)), true)
        &&& p.process matches Some(pp) && process_has(pp, seq!["cursor"@, "cursor-agent"@], seq![], false, seq![],
                Some(("node.exe"@, "index.js"@, "cursor-agent"@, "versions"@)))
    } else if i == 4 {
        profile_has(p, "devin"@, Agent::Devin, seq!["devin"@, "devin-cli"@], "devin"@, "devin"@, Some(("herdr:devin"@, false)), true)
            && plain_process(p, seq!["devin"@, "devin-cli"@], false)
    } else if i == 5 {
        profile_has(p, "agy"@, Agent::Antigravity, seq!["agy"@, "antigravity"@, "antigravity-cli"@], "agy"@, "agy"@,
            Some(("herdr:antigravity_cli"@, true)), true)
            && plain_process(p, seq!["agy"@, "antigravity-cli"@], false)
    } else if i == 6 {
        profile_has(p, "cline"@, Agent::Cline, seq!["cline"@], "cline"@, "cline"@, None, true)
            && plain_process(p, seq!["cline"@, ".cline"@], true)
    } else if i == 7 {
        profile_has(p, "omp"@, Agent::Omp, seq!["omp"@], "omp"@, "omp"@, Some(("herdr:omp"@, false)), true)
            && plain_process(p, seq!["omp"@], false)
    } else if i == 8 {
        &&& profile_has(p, "mastracode"@, Agent::Mastracode, seq!["mastracode"@, "mastra-code"@, "mastra code"@],
                "mastracode"@, "mastracode"@, Some(("herdr:mastracode"@, false)), false)
        &&& p.process matches Some(pp) && process_has(pp, seq!["mastracode"@, "mastra-code"@], seq![], false,
                seq![seq!["node_modules"@, "mastracode"@, "dist"@, "cli.js"@]], None)
    } else if i == 9 {
        profile_has(p, "opencode"@, Agent::OpenCode, seq!["opencode"@, "opencode2"@], "opencode"@, "opencode"@,
            Some(("herdr:opencode"@, false)), true)
            && plain_process(p, seq!["opencode"@, "opencode2"@], false)
    } else if i == 10 {
        profile_has(p, "copilot"@, Agent::GithubCopilot, seq!["copilot"@, "github-copilot"@, "ghcs"@], "copilot"@, "copilot"@,
            Some(("herdr:copilot"@, false)), true)
            && plain_process(p, seq!["copilot"@, "ghcs"@], false)
    } else if i == 11 {
        profile_has(p, "kimi"@, Agent::Kimi, seq!["kimi"@, "kimi-code"@, "kimi code"@], "kimi"@, "kimi"@,
            Some(("herdr:kimi"@, false)), true)
            && plain_process(p, seq!["kimi"@, "kimi-code"@, "kimi code"@], false)
    } else if i == 12 {
        profile_has(p, "kiro"@, Agent::Kiro, seq!["kiro"@, "kiro-cli"@], "kiro-cli"@, "kiro-cli"@, None, true)
            && plain_process(p, seq!["kiro"@, "kiro-cli"@], false)
    } else if i == 13 {
        profile_has(p, "droid"@, Agent::Droid, seq!["droid"@], "droid"@, "droid"@, Some(("herdr:droid"@, false)), true)
            && plain_process(p, seq!["droid"@], false)
    } else if i == 14 {
        profile_has(p, "amp"@, Agent::Amp, seq!["amp"@, "amp-local"@], "amp"@, "amp"@, None, true)
            && plain_process(p, seq!["amp"@], false)
    } else if i == 15 {
        profile_has(p, "grok"@, Agent::Grok, seq!["grok"@, "grok-build"@], "grok"@, "grok"@, Some(("herdr:grok"@, false)), true)
            && plain_process(p, seq!["grok"@, "grok-build"@], false)
    } else if i == 16 {
        profile_has(p, "hermes"@, Agent::Hermes, seq!["hermes"@, "hermes-agent"@], "hermes"@, "hermes"@,
            Some(("herdr:hermes"@, true)), true)
            && plain_process(p, seq!["hermes"@, "hermes-agent"@], false)
    } else if i == 17 {
        profile_has(p, "kilo"@, Agent::Kilo, seq!["kilo"@, "kilo-code"@], "kilo"@, "kilo"@, Some(("herdr:kilo"@, false)), true)
            && plain_process(p, seq!["kilo"@, "kilo-code"@], false)
    } else if i == 18 {
        profile_has(p, "qodercli"@, Agent::Qodercli, seq!["qodercli"@], "qodercli"@, "qodercli"@,
            Some(("herdr:qodercli"@, false)), true)
            && plain_process(p, seq!["qodercli"@], false)
    } else if i == 19 {
        &&& profile_has(p, "qwen"@, Agent::Qwen, seq!["qwen"@, "qwen-code"@, "qwen code"@], "qwen"@, "qwen"@,
                Some(("herdr:qwen"@, true)), true)
        &&& p.process matches Some(pp) && process_has(pp, seq!["qwen"@, "qwen-code"@, "qwen code"@], seq![], true,
                seq![seq!["node_modules"@, "@qwen-code"@, "qwen-code"@, "dist"@, "index.js"@]], None)
    } else if i == 20 {
        profile_has(p, "maki"@, Agent::Maki, seq!["maki"@], "maki"@, "maki"@, None, true)
            && plain_process(p, seq!["maki"@], false)
    } else if i == 21 {
        &&& profile_has(p, "muse"@, Agent::Muse, seq!["muse"@, "muse-code"@, "muse-cli"@], "muse"@, "muse"@, None, true)
        &&& p.process matches Some(pp) && process_has(pp, seq!["muse"@, "muse-code"@, "muse-cli"@], seq!["muse-bin-"@], false,
                seq![], None)
    } else {
        false
    }
}

/// The registry holds exactly the built-in profiles, in order.
pub open spec fn is_builtin_registry(r: AgentRegistry) -> bool {
    &&& r.profiles@.len() == builtin_agents().len()
    &&& forall|i: int| 0 <= i < r.profiles@.len() ==> builtin_profile(#[trigger] r.profiles@[i], i)
}

fn strings(items: Vec<&str>) -> (r: Vec<String>)
    ensures
        r.deep_view() == items.deep_view(),
{
    let mut out: Vec<String> = Vec::new();
    let mut i: usize = 0;
    while i < items.len()
        invariant
            i <= items@.len(),
            out@.len() == i,
            forall|q: int| 0 <= q < i ==> (#[trigger] out@[q])@ == items@[q]@,
        decreases items@.len() - i,
    {
        out.push(String::from_str(items[i]));
        i += 1;
    }
    assert(out.deep_view() =~= items.deep_view());
    out
}

fn exact(components: Vec<&str>) -> (r: PackageLayout)
    requires
        components@.len() > 0,
    ensures
        r.exact_suffix,
        r.components.deep_view() == components.deep_view(),
        r.components@.len() > 0,
{
    let n = components.len();
    let mut out: Vec<String> = Vec::new();
    let mut i: usize = 0;
    while i < n
        invariant
            i <= n,
            n == components@.len(),
            out@.len() == i,
            forall|q: int| 0 <= q < i ==> (#[trigger] out@[q])@ == components@[q]@,
        decreases n - i,
    {
        out.push(String::from_str(components[i]));
        i += 1;
    }
    assert(out.deep_view() =~= components.deep_view());
    PackageLayout { exact_suffix: true, components: out }
}

fn process(names: Vec<&str>, versioned: Vec<&str>, fallback: bool, layouts: Vec<PackageLayout>, bundled: Option<BundledNodeLayout>) -> (r: ProcessProfile)
    ensures
        r.names.deep_view() == names.deep_view(),
        r.versioned_prefixes.deep_view() == versioned.deep_view(),
        r.secondary_runtime_argv_fallback == fallback,
        r.package_layouts@ == layouts@,
        r.bundled_node == bundled,
{
    ProcessProfile {
        names: strings(names),
        versioned_prefixes: strings(versioned),
        secondary_runtime_argv_fallback: fallback,
        package_layouts: layouts,
        bundled_node: bundled,
    }
}

fn integration(source: &str, session_identity_only: bool) -> (r: IntegrationProfile)
    ensures
        r.source@ == source@,
        r.session_identity_only == session_identity_only,
{
    IntegrationProfile { source: String::from_str(source), session_identity_only }
}

fn profile(
    id: &str,
    agent: Agent,
    aliases: Vec<&str>,
    unix: &str,
    windows: &str,
    process: ProcessProfile,
    integration: Option<IntegrationProfile>,
    screen_detectable: bool,
) -> (r: AgentProfile)
    requires
        forall|l: int| 0 <= l < process.package_layouts@.len() ==> (#[trigger] process.package_layouts@[l]).components@.len() > 0,
    ensures
        profile_wf(r),
        r.id@ == id@,
        r.agent == agent,
        r.aliases.deep_view() == aliases.deep_view(),
        r.launch.unix@ == unix@,
        r.launch.windows@ == windows@,
        r.process == Some(process),
        r.integration == integration,
        r.screen_detectable == screen_detectable,
{
    AgentProfile {
        id: String::from_str(id),
        agent,
        aliases: strings(aliases),
        launch: LaunchProfile { unix: String::from_str(unix), windows: String::from_str(windows) },
        process: Some(process),
        integration,
        screen_detectable,
    }
}

fn push_profile(ps: &mut Vec<AgentProfile>, p: AgentProfile)
    requires
        forall|i: int| 0 <= i < old(ps)@.len() ==> profile_wf(#[trigger] old(ps)@[i]),
        profile_wf(p),
    ensures
        final(ps)@ == old(ps)@.push(p),
        forall|i: int| 0 <= i < final(ps)@.len() ==> profile_wf(#[trigger] final(ps)@[i]),
{
    ps.push(p);
}

/// The registry of the built-in agents.
pub fn registry() -> (r: AgentRegistry)
    ensures
        registry_wf(r),
        is_builtin_registry(r),
{
    let mut ps: Vec<AgentProfile> = Vec::new();
    let pi_cli = exact(vec!["node_modules", "@earendil-works", "pi-coding-agent", "dist", "cli.js"]);
    let pi_bundle = exact(vec!["node_modules", "@earendil-works", "pi-coding-agent", "dist", "bundle", "cli.js"]);
    push_profile(&mut ps, profile("pi", Agent::Pi, vec!["pi"], "pi", "pi",
        process(vec!["pi"], vec![], false, vec![pi_cli, pi_bundle], None), Some(integration("herdr:pi", false)), true));
    assert(forall|i: int| 0 <= i <= 0 ==> builtin_profile(#[trigger] ps@[i], i));
    push_profile(&mut ps, profile("codex", Agent::Codex, vec!["codex"], "codex", "codex",
        process(vec!["codex"], vec![], false, vec![], None), Some(integration("herdr:codex", false)), true));
    assert(forall|i: int| 0 <= i <= 1 ==> builtin_profile(#[trigger] ps@[i], i));
    push_profile(&mut ps, profile("gemini", Agent::Gemini, vec!["gemini"], "gemini", "gemini",
        process(vec!["gemini"], vec![], false, vec![], None), None, true));
    assert(forall|i: int| 0 <= i <= 2 ==> builtin_profile(#[trigger] ps@[i], i));
    let cursor_node = BundledNodeLayout {
        runtime_basename: String::from_str("node.exe"),
        entrypoint_basename: String::from_str("index.js"),
        package_directory: String::from_str("cursor-agent"),
        versions_directory: String::from_str("versions"),
    };
    push_profile(&mut ps, profile("cursor", Agent::Cursor, vec!["cursor", "cursor-agent"], "cursor-agent", "cursor-agent.cmd",
        process(vec!["cursor", "cursor-agent"], vec![], false, vec![], Some(cursor_node)), Some(integration("herdr:cursor", false)), true));
    assert(forall|i: int| 0 <= i <= 3 ==> builtin_profile(#[trigger] ps@[i], i));
    push_profile(&mut ps, profile("devin", Agent::Devin, vec!["devin", "devin-cli"], "devin", "devin",
        process(vec!["devin", "devin-cli"], vec![], false, vec![], None), Some(integration("herdr:devin", false)), true));
    assert(forall|i: int| 0 <= i <= 4 ==> builtin_profile(#[trigger] ps@[i], i));
    push_profile(&mut ps, profile("agy", Agent::Antigravity, vec!["agy", "antigravity", "antigravity-cli"], "agy", "agy",
        process(vec!["agy", "antigravity-cli"], vec![], false, vec![], None), Some(integration("herdr:antigravity_cli", true)), true));
    assert(forall|i: int| 0 <= i <= 5 ==> builtin_profile(#[trigger] ps@[i], i));
    push_profile(&mut ps, profile("cline", Agent::Cline, vec!["cline"], "cline", "cline",
        process(vec!["cline", ".cline"], vec![], true, vec![], None), None, true));
    assert(forall|i: int| 0 <= i <= 6 ==> builtin_profile(#[trigger] ps@[i], i));
    push_profile(&mut ps, profile("omp", Agent::Omp, vec!["omp"], "omp", "omp",
        process(vec!["omp"], vec![], false, vec![], None), Some(integration("herdr:omp", false)), true));
    assert(forall|i: int| 0 <= i <= 7 ==> builtin_profile(#[trigger] ps@[i], i));
    let mastra_cli = exact(vec!["node_modules", "mastracode", "dist", "cli.js"]);
    push_profile(&mut ps, profile("mastracode", Agent::Mastracode, vec!["mastracode", "mastra-code", "mastra code"], "mastracode", "mastracode",
        process(vec!["mastracode", "mastra-code"], vec![], false, vec![mastra_cli], None), Some(integration("herdr:mastracode", false)), false));
    assert(forall|i: int| 0 <= i <= 8 ==> builtin_profile(#[trigger] ps@[i], i));
    push_profile(&mut ps, profile("opencode", Agent::OpenCode, vec!["opencode", "opencode2"], "opencode", "opencode",
        process(vec!["opencode", "opencode2"], vec![], false, vec![], None), Some(integration("herdr:opencode", false)), true));
    assert(forall|i: int| 0 <= i <= 9 ==> builtin_profile(#[trigger] ps@[i], i));
    push_profile(&mut ps, profile("copilot", Agent::GithubCopilot, vec!["copilot", "github-copilot", "ghcs"], "copilot", "copilot",
        process(vec!["copilot", "ghcs"], vec![], false, vec![], None), Some(integration("herdr:copilot", false)), true));
    assert(forall|i: int| 0 <= i <= 10 ==> builtin_profile(#[trigger] ps@[i], i));
    push_profile(&mut ps, profile("kimi", Agent::Kimi, vec!["kimi", "kimi-code", "kimi code"], "kimi", "kimi",
        process(vec!["kimi", "kimi-code", "kimi code"], vec![], false, vec![], None), Some(integration("herdr:kimi", false)), true));
    assert(forall|i: int| 0 <= i <= 11 ==> builtin_profile(#[trigger] ps@[i], i));
    push_profile(&mut ps, profile("kiro", Agent::Kiro, vec!["kiro", "kiro-cli"], "kiro-cli", "kiro-cli",
        process(vec!["kiro", "kiro-cli"], vec![], false, vec![], None), None, true));
    assert(forall|i: int| 0 <= i <= 12 ==> builtin_profile(#[trigger] ps@[i], i));
    push_profile(&mut ps, profile("droid", Agent::Droid, vec!["droid"], "droid", "droid",
        process(vec!["droid"], vec![], false, vec![], None), Some(integration("herdr:droid", false)), true));
    assert(forall|i: int| 0 <= i <= 13 ==> builtin_profile(#[trigger] ps@[i], i));
    push_profile(&mut ps, profile("amp", Agent::Amp, vec!["amp", "amp-local"], "amp", "amp",
        process(vec!["amp"], vec![], false, vec![], None), None, true));
    assert(forall|i: int| 0 <= i <= 14 ==> builtin_profile(#[trigger] ps@[i], i));
    push_profile(&mut ps, profile("grok", Agent::Grok, vec!["grok", "grok-build"], "grok", "grok",
        process(vec!["grok", "grok-build"], vec![], false, vec![], None), Some(integration("herdr:grok", false)), true));
    assert(forall|i: int| 0 <= i <= 15 ==> builtin_profile(#[trigger] ps@[i], i));
    push_profile(&mut ps, profile("hermes", Agent::Hermes, vec!["hermes", "hermes-agent"], "hermes", "hermes",
        process(vec!["hermes", "hermes-agent"], vec![], false, vec![], None), Some(integration("herdr:hermes", true)), true));
    assert(forall|i: int| 0 <= i <= 16 ==> builtin_profile(#[trigger] ps@[i], i));
    push_profile(&mut ps, profile("kilo", Agent::Kilo, vec!["kilo", "kilo-code"], "kilo", "kilo",
        process(vec!["kilo", "kilo-code"], vec![], false, vec![], None), Some(integration("herdr:kilo", false)), true));
    assert(forall|i: int| 0 <= i <= 17 ==> builtin_profile(#[trigger] ps@[i], i));
    push_profile(&mut ps, profile("qodercli", Agent::Qodercli, vec!["qodercli"], "qodercli", "qodercli",
        process(vec!["qodercli"], vec![], false, vec![], None), Some(integration("herdr:qodercli", false)), true));
    assert(forall|i: int| 0 <= i <= 18 ==> builtin_profile(#[trigger] ps@[i], i));
    let qwen_cli = exact(vec!["node_modules", "@qwen-code", "qwen-code", "dist", "index.js"]);
    push_profile(&mut ps, profile("qwen", Agent::Qwen, vec!["qwen", "qwen-code", "qwen code"], "qwen", "qwen",
        process(vec!["qwen", "qwen-code", "qwen code"], vec![], true, vec![qwen_cli], None), Some(integration("herdr:qwen", true)), true));
    assert(forall|i: int| 0 <= i <= 19 ==> builtin_profile(#[trigger] ps@[i], i));
    push_profile(&mut ps, profile("maki", Agent::Maki, vec!["maki"], "maki", "maki",
        process(vec!["maki"], vec![], false, vec![], None), None, true));
    assert(forall|i: int| 0 <= i <= 20 ==> builtin_profile(#[trigger] ps@[i], i));
    push_profile(&mut ps, profile("muse", Agent::Muse, vec!["muse", "muse-code", "muse-cli"], "muse", "muse",
        process(vec!["muse", "muse-code", "muse-cli"], vec!["muse-bin-"], false, vec![], None), None, true));
    assert(forall|i: int| 0 <= i <= 21 ==> builtin_profile(#[trigger] ps@[i], i));
    AgentRegistry { profiles: ps }
}

/// The characters of the built-in labels and aliases.
proof fn lemma_builtin_literals()
    ensures
        "pi"@ == seq!['p', 'i'],
        "codex"@ == seq!['c', 'o', 'd', 'e', 'x'],
        "gemini"@ == seq!['g', 'e', 'm', 'i', 'n', 'i'],
        "cursor"@ == seq!['c', 'u', 'r', 's', 'o', 'r'],
        "cursor-agent"@ == seq!['c', 'u', 'r', 's', 'o', 'r', '-', 'a', 'g', 'e', 'n', 't'],
        "devin"@ == seq!['d', 'e', 'v', 'i', 'n'],
        "devin-cli"@ == seq!['d', 'e', 'v', 'i', 'n', '-', 'c', 'l', 'i'],
        "agy"@ == seq!['a', 'g', 'y'],
        "antigravity"@ == seq!['a', 'n', 't', 'i', 'g', 'r', 'a', 'v', 'i', 't', 'y'],
        "antigravity-cli"@ == seq!['a', 'n', 't', 'i', 'g', 'r', 'a', 'v', 'i', 't', 'y', '-', 'c', 'l', 'i'],
        "cline"@ == seq!['c', 'l', 'i', 'n', 'e'],
        "omp"@ == seq!['o', 'm', 'p'],
        "mastracode"@ == seq!['m', 'a', 's', 't', 'r', 'a', 'c', 'o', 'd', 'e'],
        "mastra-code"@ == seq!['m', 'a', 's', 't', 'r', 'a', '-', 'c', 'o', 'd', 'e'],
        "mastra code"@ == seq!['m', 'a', 's', 't', 'r', 'a', ' ', 'c', 'o', 'd', 'e'],
        "opencode"@ == seq!['o', 'p', 'e', 'n', 'c', 'o', 'd', 'e'],
        "opencode2"@ == seq!['o', 'p', 'e', 'n', 'c', 'o', 'd', 'e', '2'],
        "copilot"@ == seq!['c', 'o', 'p', 'i', 'l', 'o', 't'],
        "github-copilot"@ == seq!['g', 'i', 't', 'h', 'u', 'b', '-', 'c', 'o', 'p', 'i', 'l', 'o', 't'],
        "ghcs"@ == seq!['g', 'h', 'c', 's'],
        "kimi"@ == seq!['k', 'i', 'm', 'i'],
        "kimi-code"@ == seq!['k', 'i', 'm', 'i', '-', 'c', 'o', 'd', 'e'],
        "kimi code"@ == seq!['k', 'i', 'm', 'i', ' ', 'c', 'o', 'd', 'e'],
        "kiro"@ == seq!['k', 'i', 'r', 'o'],
        "kiro-cli"@ == seq!['k', 'i', 'r', 'o', '-', 'c', 'l', 'i'],
        "droid"@ == seq!['d', 'r', 'o', 'i', 'd'],
        "amp"@ == seq!['a', 'm', 'p'],
        "amp-local"@ == seq!['a', 'm', 'p', '-', 'l', 'o', 'c', 'a', 'l'],
        "grok"@ == seq!['g', 'r', 'o', 'k'],
        "grok-build"@ == seq!['g', 'r', 'o', 'k', '-', 'b', 'u', 'i', 'l', 'd'],
        "hermes"@ == seq!['h', 'e', 'r', 'm', 'e', 's'],
        "hermes-agent"@ == seq!['h', 'e', 'r', 'm', 'e', 's', '-', 'a', 'g', 'e', 'n', 't'],
        "kilo"@ == seq!['k', 'i', 'l', 'o'],
        "kilo-code"@ == seq!['k', 'i', 'l', 'o', '-', 'c', 'o', 'd', 'e'],
        "qodercli"@ == seq!['q', 'o', 'd', 'e', 'r', 'c', 'l', 'i'],
        "qwen"@ == seq!['q', 'w', 'e', 'n'],
        "qwen-code"@ == seq!['q', 'w', 'e', 'n', '-', 'c', 'o', 'd', 'e'],
        "qwen code"@ == seq!['q', 'w', 'e', 'n', ' ', 'c', 'o', 'd', 'e'],
        "maki"@ == seq!['m', 'a', 'k', 'i'],
        "muse"@ == seq!['m', 'u', 's', 'e'],
        "muse-code"@ == seq!['m', 'u', 's', 'e', '-', 'c', 'o', 'd', 'e'],
        "muse-cli"@ == seq!['m', 'u', 's', 'e', '-', 'c', 'l', 'i'],
{
    reveal_strlit("pi");
    reveal_strlit("codex");
    reveal_strlit("gemini");
    reveal_strlit("cursor");
    reveal_strlit("cursor-agent");
    reveal_strlit("devin");
    reveal_strlit("devin-cli");
    reveal_strlit("agy");
    reveal_strlit("antigravity");
    reveal_strlit("antigravity-cli");
    reveal_strlit("cline");
    reveal_strlit("omp");
    reveal_strlit("mastracode");
    reveal_strlit("mastra-code");
    reveal_strlit("mastra code");
    reveal_strlit("opencode");
    reveal_strlit("opencode2");
    reveal_strlit("copilot");
    reveal_strlit("github-copilot");
    reveal_strlit("ghcs");
    reveal_strlit("kimi");
    reveal_strlit("kimi-code");
    reveal_strlit("kimi code");
    reveal_strlit("kiro");
    reveal_strlit("kiro-cli");
    reveal_strlit("droid");
    reveal_strlit("amp");
    reveal_strlit("amp-local");
    reveal_strlit("grok");
    reveal_strlit("grok-build");
    reveal_strlit("hermes");
    reveal_strlit("hermes-agent");
    reveal_strlit("kilo");
    reveal_strlit("kilo-code");
    reveal_strlit("qodercli");
    reveal_strlit("qwen");
    reveal_strlit("qwen-code");
    reveal_strlit("qwen code");
    reveal_strlit("maki");
    reveal_strlit("muse");
    reveal_strlit("muse-code");
    reveal_strlit("muse-cli");
    assert("pi"@ =~= seq!['p', 'i']);
    assert("codex"@ =~= seq!['c', 'o', 'd', 'e', 'x']);
    assert("gemini"@ =~= seq!['g', 'e', 'm', 'i', 'n', 'i']);
    assert("cursor"@ =~= seq!['c', 'u', 'r', 's', 'o', 'r']);
    assert("cursor-agent"@ =~= seq!['c', 'u', 'r', 's', 'o', 'r', '-', 'a', 'g', 'e', 'n', 't']);
    assert("devin"@ =~= seq!['d', 'e', 'v', 'i', 'n']);
    assert("devin-cli"@ =~= seq!['d', 'e', 'v', 'i', 'n', '-', 'c', 'l', 'i']);
    assert("agy"@ =~= seq!['a', 'g', 'y']);
    assert("antigravity"@ =~= seq!['a', 'n', 't', 'i', 'g', 'r', 'a', 'v', 'i', 't', 'y']);
    assert("antigravity-cli"@ =~= seq!['a', 'n', 't', 'i', 'g', 'r', 'a', 'v', 'i', 't', 'y', '-', 'c', 'l', 'i']);
    assert("cline"@ =~= seq!['c', 'l', 'i', 'n', 'e']);
    assert("omp"@ =~= seq!['o', 'm', 'p']);
    assert("mastracode"@ =~= seq!['m', 'a', 's', 't', 'r', 'a', 'c', 'o', 'd', 'e']);
    assert("mastra-code"@ =~= seq!['m', 'a', 's', 't', 'r', 'a', '-', 'c', 'o', 'd', 'e']);
    assert("mastra code"@ =~= seq!['m', 'a', 's', 't', 'r', 'a', ' ', 'c', 'o', 'd', 'e']);
    assert("opencode"@ =~= seq!['o', 'p', 'e', 'n', 'c', 'o', 'd', 'e']);
    assert("opencode2"@ =~= seq!['o', 'p', 'e', 'n', 'c', 'o', 'd', 'e', '2']);
    assert("copilot"@ =~= seq!['c', 'o', 'p', 'i', 'l', 'o', 't']);
    assert("github-copilot"@ =~= seq!['g', 'i', 't', 'h', 'u', 'b', '-', 'c', 'o', 'p', 'i', 'l', 'o', 't']);
    assert("ghcs"@ =~= seq!['g', 'h', 'c', 's']);
    assert("kimi"@ =~= seq!['k', 'i', 'm', 'i']);
    assert("kimi-code"@ =~= seq!['k', 'i', 'm', 'i', '-', 'c', 'o', 'd', 'e']);
    assert("kimi code"@ =~= seq!['k', 'i', 'm', 'i', ' ', 'c', 'o', 'd', 'e']);
    assert("kiro"@ =~= seq!['k', 'i', 'r', 'o']);
    assert("kiro-cli"@ =~= seq!['k', 'i', 'r', 'o', '-', 'c', 'l', 'i']);
    assert("droid"@ =~= seq!['d', 'r', 'o', 'i', 'd']);
    assert("amp"@ =~= seq!['a', 'm', 'p']);
    assert("amp-local"@ =~= seq!['a', 'm', 'p', '-', 'l', 'o', 'c', 'a', 'l']);
    assert("grok"@ =~= seq!['g', 'r', 'o', 'k']);
    assert("grok-build"@ =~= seq!['g', 'r', 'o', 'k', '-', 'b', 'u', 'i', 'l', 'd']);
    assert("hermes"@ =~= seq!['h', 'e', 'r', 'm', 'e', 's']);
    assert("hermes-agent"@ =~= seq!['h', 'e', 'r', 'm', 'e', 's', '-', 'a', 'g', 'e', 'n', 't']);
    assert("kilo"@ =~= seq!['k', 'i', 'l', 'o']);
    assert("kilo-code"@ =~= seq!['k', 'i', 'l', 'o', '-', 'c', 'o', 'd', 'e']);
    assert("qodercli"@ =~= seq!['q', 'o', 'd', 'e', 'r', 'c', 'l', 'i']);
    assert("qwen"@ =~= seq!['q', 'w', 'e', 'n']);
    assert("qwen-code"@ =~= seq!['q', 'w', 'e', 'n', '-', 'c', 'o', 'd', 'e']);
    assert("qwen code"@ =~= seq!['q', 'w', 'e', 'n', ' ', 'c', 'o', 'd', 'e']);
    assert("maki"@ =~= seq!['m', 'a', 'k', 'i']);
    assert("muse"@ =~= seq!['m', 'u', 's', 'e']);
    assert("muse-code"@ =~= seq!['m', 'u', 's', 'e', '-', 'c', 'o', 'd', 'e']);
    assert("muse-cli"@ =~= seq!['m', 'u', 's', 'e', '-', 'c', 'l', 'i']);
}

/// In the built-in registry, the profile of the `i`-th built-in agent is the
/// first whose ID is its label, and the first with its label as an alias.
pub proof fn lemma_builtin_label_lookup(reg: AgentRegistry, i: int)
    requires
        is_builtin_registry(reg),
        0 <= i < builtin_agents().len(),
    ensures
        reg.profiles@[i].agent == builtin_agents()[i],
        first_where(reg.profiles@, id_is(label_of(builtin_agents()[i]))) == Some(i),
        first_where(reg.profiles@, alias_is(label_of(builtin_agents()[i]))) == Some(i),
{
    lemma_builtin_literals();
    let ps = reg.profiles@;
    let l = label_of(builtin_agents()[i]);
    assert(builtin_profile(ps[i], i));
    assert(ps[i].aliases.deep_view()[0] == l);
    assert forall|j: int| 0 <= j < i implies !id_is(l)(#[trigger] ps[j]) && !alias_is(l)(ps[j]) by {
        assert(builtin_profile(ps[j], j));
        assert(ps[j].id@ != l);
        assert(!ps[j].aliases.deep_view().contains(l));
    }
    lemma_first_where_at(ps, id_is(l), i);
    lemma_first_where_at(ps, alias_is(l), i);
}

/// Every built-in label is made of label characters.
pub proof fn lemma_builtin_label_plain(i: int)
    requires
        0 <= i < builtin_agents().len(),
    ensures
        plain_label(label_of(builtin_agents()[i])),
{
    lemma_builtin_literals();
    let l = label_of(builtin_agents()[i]);
    assert forall|k: int| 0 <= k < l.len() implies label_char(#[trigger] l[k]) by {}
}

} // verus!
