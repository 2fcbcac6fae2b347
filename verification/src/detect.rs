//! Agent identification from foreground processes: names, runtime wrappers,
//! script arguments, package layouts and bundled runtimes.

pub mod manifest_compat;

use vstd::prelude::*;
use crate::agents::{
    builtin_agents, alias_is, id_is, label_of, process_name_is, versioned_name_is, Agent, AgentProfile, AgentRegistry,
    BundledNodeLayout, IntegrationProfile, LaunchProfile, PackageLayout, ProcessProfile,
};
use crate::platform::{ForegroundJob, ForegroundProcess};
use crate::builtin_agents::{is_builtin_registry, lemma_builtin_label_lookup, lemma_builtin_label_plain};
use crate::search::{first_where, lemma_first_where, lemma_first_where_at, lemma_first_where_none};
use crate::text::{
    chars_of, eq_chars, eq_ignore_ascii_case, eq_ignore_case_chars, eq_lit, ends_with_lit, has_prefix, has_suffix,
    ascii_text, in_class, is_digit, lowercase_of, slice_chars, starts_with_lit, to_lowercase_chars, trim_by, trim_chars,
    trim_end_by, trim_end_chars, trim_start_by, trim_start_index, CharClass, char_in_class,
};

verus! {

/// The detected state of a terminal pane.
#[derive(Debug, Clone, Copy, PartialEq, Eq)]
pub enum AgentState {
    /// Agent finished, prompt visible, nothing happening.
    Idle,
    /// Agent is actively working.
    Working,
    /// Agent needs human input.
    Blocked,
    /// Plain shell or unrecognized program.
    Unknown,
}

/// Screen-derived agent state plus the evidence that source arbitration weighs.
#[derive(Debug, Clone, Copy, PartialEq, Eq)]
pub struct AgentDetection {
    pub state: AgentState,
    /// The screen is an agent-owned viewer of history, not the live prompt.
    pub skip_state_update: bool,
    /// The screen visibly shows live idle chrome.
    pub visible_idle: bool,
    /// Idle evidence from terminal cells alone.
    pub screen_visible_idle: bool,
    /// The screen visibly shows live chrome that needs human input.
    pub visible_blocker: bool,
    /// The screen visibly shows live working chrome.
    pub visible_working: bool,
}

/// The detection of a pane with no recognized agent: state unknown and no
/// screen evidence.
pub open spec fn unknown_detection() -> AgentDetection {
    AgentDetection {
        state: AgentState::Unknown,
        skip_state_update: false,
        visible_idle: false,
        screen_visible_idle: false,
        visible_blocker: false,
        visible_working: false,
    }
}

/// Detects an agent's state from screen content plus the OSC title and
/// progress strings. With no agent the state is unknown; an agent's screen
/// is read by `manifest`, the detection rules of that agent's manifest.
pub fn detect_agent_with_osc<F: Fn(Agent, &str, &str, &str) -> AgentDetection>(
    agent: Option<Agent>,
    screen_content: &str,
    osc_title: &str,
    osc_progress: &str,
    manifest: F,
) -> (r: AgentDetection)
    requires
        agent matches Some(a) ==> manifest.requires((a, screen_content, osc_title, osc_progress)),
    ensures
        match agent {
            None => r == unknown_detection(),
            Some(a) => manifest.ensures((a, screen_content, osc_title, osc_progress), r),
        },
{
    match agent {
        None => AgentDetection {
            state: AgentState::Unknown,
            skip_state_update: false,
            visible_idle: false,
            screen_visible_idle: false,
            visible_blocker: false,
            visible_working: false,
        },
        Some(a) => manifest(a, screen_content, osc_title, osc_progress),
    }
}

/// Detects state and visible evidence from the screen alone.
pub fn detect_agent<F: Fn(Agent, &str, &str, &str) -> AgentDetection>(
    agent: Option<Agent>,
    screen_content: &str,
    manifest: F,
) -> (r: AgentDetection)
    requires
        agent matches Some(a) ==> manifest.requires((a, screen_content, "", "")),
    ensures
        match agent {
            None => r == unknown_detection(),
            Some(a) => manifest.ensures((a, screen_content, "", ""), r),
        },
{
    detect_agent_with_osc(agent, screen_content, "", "", manifest)
}

/// The state detected from the screen alone.
pub fn detect_state<F: Fn(Agent, &str, &str, &str) -> AgentDetection>(
    agent: Option<Agent>,
    screen_content: &str,
    manifest: F,
) -> (r: AgentState)
    requires
        agent matches Some(a) ==> manifest.requires((a, screen_content, "", "")),
    ensures
        agent is None ==> r == AgentState::Unknown,
        agent matches Some(a) ==> exists|d: AgentDetection| manifest.ensures((a, screen_content, "", ""), d) && r == d.state,
{
    detect_agent(agent, screen_content, manifest).state
}

/// `l` without its last `n` characters.
pub open spec fn drop_tail(l: Seq<char>, n: nat) -> Seq<char> {
    l.subrange(0, l.len() - n)
}

/// `l` without the first of `.exe`, `.cmd`, `.bat`, `.ps1`, `.js` that ends it.
pub open spec fn strip_known_suffix(l: Seq<char>) -> Seq<char> {
    if has_suffix(l, ".exe"@) {
        drop_tail(l, ".exe"@.len())
    } else if has_suffix(l, ".cmd"@) {
        drop_tail(l, ".cmd"@.len())
    } else if has_suffix(l, ".bat"@) {
        drop_tail(l, ".bat"@.len())
    } else if has_suffix(l, ".ps1"@) {
        drop_tail(l, ".ps1"@.len())
    } else if has_suffix(l, ".js"@) {
        drop_tail(l, ".js"@.len())
    } else {
        l
    }
}

/// A name as agent lookups compare it: trimmed, lowercased, without an
/// executable or script suffix.
pub open spec fn normalized_lookup(name: Seq<char>) -> Seq<char> {
    strip_known_suffix(lowercase_of(trim_by(name, CharClass::Whitespace)))
}

/// The characters after the last path separator of `t`.
pub open spec fn last_segment(t: Seq<char>) -> Seq<char>
    decreases t.len(),
{
    if t.len() == 0 || in_class(t.last(), CharClass::PathSep) {
        Seq::empty()
    } else {
        last_segment(t.drop_last()).push(t.last())
    }
}

/// The last non-empty component of a path split at `/` and `\`, or the path
/// itself when it has none.
pub open spec fn basename(s: Seq<char>) -> Seq<char> {
    let t = trim_end_by(s, CharClass::PathSep);
    if t.len() == 0 {
        s
    } else {
        last_segment(t)
    }
}

/// The name a process or label is looked up by.
pub open spec fn lookup_name(name: Seq<char>) -> Seq<char> {
    basename(normalized_lookup(name))
}

fn strip_suffix_lit(l: &Vec<char>, lit: &str) -> (r: Option<Vec<char>>)
    ensures
        has_suffix(l@, lit@) ==> (r matches Some(v) && v@ == drop_tail(l@, lit@.len())),
        !has_suffix(l@, lit@) ==> r is None,
{
    if ends_with_lit(l, lit) {
        let n = chars_of(lit).len();
        Some(slice_chars(l, 0, l.len() - n))
    } else {
        None
    }
}

/// A character of a canonical agent label: an ASCII lowercase letter, a
/// digit or `-`.
pub open spec fn label_char(c: char) -> bool {
    ('a' <= c && c <= 'z') || ('0' <= c && c <= '9') || c == '-'
}

/// A non-empty text of label characters.
pub open spec fn plain_label(s: Seq<char>) -> bool {
    s.len() > 0 && forall|i: int| 0 <= i < s.len() ==> label_char(#[trigger] s[i])
}

proof fn lemma_last_segment_plain(t: Seq<char>)
    requires
        forall|i: int| 0 <= i < t.len() ==> label_char(#[trigger] t[i]),
    ensures
        last_segment(t) == t,
    decreases t.len(),
{
    if t.len() > 0 {
        let u = t.drop_last();
        assert forall|i: int| 0 <= i < u.len() implies label_char(#[trigger] u[i]) by {
            assert(u[i] == t[i]);
        }
        lemma_last_segment_plain(u);
        assert(label_char(t[t.len() - 1]));
        assert(u.push(t.last()) =~= t);
    }
}

proof fn lemma_no_dot_suffix(s: Seq<char>, suffix: Seq<char>)
    requires
        plain_label(s),
        suffix.len() > 0,
        suffix[0] == '.',
    ensures
        !has_suffix(s, suffix),
{
    if has_suffix(s, suffix) {
        let k = s.len() - suffix.len();
        assert(s.subrange(k, s.len() as int)[0] == s[k]);
        assert(label_char(s[k]));
    }
}

/// A label of plain characters is its own lookup form: nothing to trim,
/// nothing to lowercase, no script suffix and no directory.
pub proof fn lemma_plain_label_lookup(s: Seq<char>)
    requires
        plain_label(s),
    ensures
        trim_by(s, CharClass::Whitespace) == s,
        ascii_text(s),
        crate::platform::ascii_lowercase(s) == s,
        strip_known_suffix(s) == s,
        basename(s) == s,
{
    assert(label_char(s[0]));
    assert(label_char(s[s.len() - 1]));
    assert(trim_start_by(s, CharClass::Whitespace) == s);
    assert(trim_end_by(s, CharClass::Whitespace) == s);
    assert(trim_end_by(s, CharClass::PathSep) == s);
    assert forall|i: int| 0 <= i < s.len() implies (#[trigger] s[i] as u32) < 128 by {
        assert(label_char(s[i]));
    }
    assert forall|i: int| 0 <= i < s.len() implies crate::platform::ascii_lower(#[trigger] s[i]) == s[i] by {
        assert(label_char(s[i]));
    }
    assert(crate::platform::ascii_lowercase(s) =~= s);
    reveal_strlit(".exe");
    reveal_strlit(".cmd");
    reveal_strlit(".bat");
    reveal_strlit(".ps1");
    reveal_strlit(".js");
    lemma_no_dot_suffix(s, ".exe"@);
    lemma_no_dot_suffix(s, ".cmd"@);
    lemma_no_dot_suffix(s, ".bat"@);
    lemma_no_dot_suffix(s, ".ps1"@);
    lemma_no_dot_suffix(s, ".js"@);
    lemma_last_segment_plain(s);
}

/// Trims, lowercases and drops an executable or script suffix.
pub fn normalized_agent_lookup_name(name: &Vec<char>) -> (r: Vec<char>)
    ensures
        r@ == normalized_lookup(name@),
        ascii_text(trim_by(name@, CharClass::Whitespace))
            ==> r@ == strip_known_suffix(crate::platform::ascii_lowercase(trim_by(name@, CharClass::Whitespace))),
{
    let trimmed = trim_chars(name, CharClass::Whitespace);
    let l = to_lowercase_chars(&trimmed);
    if let Some(v) = strip_suffix_lit(&l, ".exe") {
        return v;
    }
    if let Some(v) = strip_suffix_lit(&l, ".cmd") {
        return v;
    }
    if let Some(v) = strip_suffix_lit(&l, ".bat") {
        return v;
    }
    if let Some(v) = strip_suffix_lit(&l, ".ps1") {
        return v;
    }
    if let Some(v) = strip_suffix_lit(&l, ".js") {
        return v;
    }
    l
}

proof fn lemma_last_segment_step(t: Seq<char>, i: int)
    requires
        0 < i <= t.len(),
        !in_class(t[i - 1], CharClass::PathSep),
    ensures
        last_segment(t.subrange(0, i)) + t.subrange(i, t.len() as int) == last_segment(t.subrange(0, i - 1)) + t.subrange(i - 1, t.len() as int),
{
    let a = t.subrange(0, i);
    assert(a.drop_last() =~= t.subrange(0, i - 1));
    assert(a.last() == t[i - 1]);
    assert(last_segment(a) == last_segment(t.subrange(0, i - 1)).push(t[i - 1]));
    assert(last_segment(t.subrange(0, i - 1)).push(t[i - 1]) + t.subrange(i, t.len() as int)
        =~= last_segment(t.subrange(0, i - 1)) + t.subrange(i - 1, t.len() as int));
}

/// The last non-empty component of a path, or the path itself.
pub fn path_basename(path: &Vec<char>) -> (r: Vec<char>)
    ensures
        r@ == basename(path@),
{
    let t = trim_end_chars(path, CharClass::PathSep);
    if t.len() == 0 {
        return slice_chars(path, 0, path.len());
    }
    let n = t.len();
    let mut i: usize = n;
    assert(t@.subrange(0, n as int) =~= t@);
    assert(t@.subrange(n as int, n as int) =~= Seq::<char>::empty());
    assert(last_segment(t@) + Seq::<char>::empty() =~= last_segment(t@));
    while i > 0 && !char_in_class(t[i - 1], CharClass::PathSep)
        invariant
            i <= n,
            n == t@.len(),
            last_segment(t@) == last_segment(t@.subrange(0, i as int)) + t@.subrange(i as int, n as int),
        decreases i,
    {
        proof {
            lemma_last_segment_step(t@, i as int);
        }
        i -= 1;
    }
    proof {
        let a = t@.subrange(0, i as int);
        if i > 0 {
            assert(a.last() == t@[i - 1]);
        }
        assert(last_segment(a) =~= Seq::<char>::empty());
        assert(last_segment(t@) =~= t@.subrange(i as int, n as int));
    }
    slice_chars(&t, i, n)
}

/// `name` is `python` or `python` followed by dot-separated digit groups.
pub open spec fn python_runtime(name: Seq<char>) -> bool {
    name == "python"@ || (has_prefix(name, "python"@) && dotted_digits(name.subrange("python"@.len() as int, name.len() as int)))
}

/// Non-empty groups of ASCII digits separated by single dots.
pub open spec fn dotted_digits(v: Seq<char>) -> bool {
    &&& v.len() > 0
    &&& forall|i: int| 0 <= i < v.len() ==> dotted_char(v, i)
}

pub open spec fn dotted_char(v: Seq<char>, i: int) -> bool {
    is_digit(v[i]) || (v[i] == '.' && 0 < i < v.len() - 1 && v[i + 1] != '.')
}

fn is_dotted_digits(v: &Vec<char>) -> (r: bool)
    ensures
        r == dotted_digits(v@),
{
    if v.len() == 0 {
        return false;
    }
    let n = v.len();
    let mut i: usize = 0;
    while i < n
        invariant
            i <= n,
            n == v@.len(),
            n > 0,
            forall|q: int| 0 <= q < i ==> #[trigger] dotted_char(v@, q),
        decreases n - i,
    {
        let c = v[i];
        let ok = ('0' <= c && c <= '9') || (c == '.' && 0 < i && i < n - 1 && v[i + 1] != '.');
        if !ok {
            assert(!dotted_char(v@, i as int));
            return false;
        }
        i += 1;
    }
    true
}

/// Whether the name is a Python interpreter: `python`, `python3`, `python3.12`, ...
pub fn is_python_runtime(name: &Vec<char>) -> (r: bool)
    ensures
        r == python_runtime(name@),
{
    if eq_lit(name, "python") {
        return true;
    }
    if !starts_with_lit(name, "python") {
        return false;
    }
    let k = chars_of("python").len();
    let rest = slice_chars(name, k, name.len());
    is_dotted_digits(&rest)
}

/// Shells, terminal multiplexers and script runtimes that may wrap an agent.
pub open spec fn generic_runtime_name(n: Seq<char>) -> bool {
    python_runtime(n) || n == "sh"@ || n == "bash"@ || n == "zsh"@ || n == "fish"@ || n == "tmux"@
        || n == "node"@ || n == "bun"@ || n == "cmd"@ || n == "powershell"@ || n == "pwsh"@
}

/// The name's basename, normalized, is a shell or script runtime.
pub open spec fn generic_runtime_or_shell(name: Seq<char>) -> bool {
    generic_runtime_name(normalized_lookup(basename(name)))
}

pub fn is_generic_runtime_or_shell(name: &Vec<char>) -> (r: bool)
    ensures
        r == generic_runtime_or_shell(name@),
{
    let base = path_basename(name);
    let n = normalized_agent_lookup_name(&base);
    is_python_runtime(&n) || eq_lit(&n, "sh") || eq_lit(&n, "bash") || eq_lit(&n, "zsh") || eq_lit(&n, "fish")
        || eq_lit(&n, "tmux") || eq_lit(&n, "node") || eq_lit(&n, "bun") || eq_lit(&n, "cmd")
        || eq_lit(&n, "powershell") || eq_lit(&n, "pwsh")
}

/// Components of `s` split at `/` and `\`, empty ones dropped, with `cur`
/// holding the characters of the component in progress.
pub open spec fn comps_from(s: Seq<char>, cur: Seq<char>) -> Seq<Seq<char>>
    decreases s.len(),
{
    if s.len() == 0 {
        if cur.len() > 0 {
            seq![cur]
        } else {
            Seq::empty()
        }
    } else if in_class(s[0], CharClass::PathSep) {
        (if cur.len() > 0 {
            seq![cur]
        } else {
            Seq::empty()
        }) + comps_from(s.drop_first(), Seq::empty())
    } else {
        comps_from(s.drop_first(), cur.push(s[0]))
    }
}

/// The non-empty components of a path split at `/` and `\`.
pub open spec fn path_components(s: Seq<char>) -> Seq<Seq<char>> {
    comps_from(s, Seq::empty())
}

/// The model of a character vector is its characters.
pub proof fn lemma_chars_deep(v: Vec<char>)
    ensures
        v.deep_view() == v@,
{
    assert(v.deep_view() =~= v@);
}

pub fn split_path(s: &Vec<char>) -> (r: Vec<Vec<char>>)
    ensures
        r.deep_view() == path_components(s@),
{
    let n = s.len();
    let mut out: Vec<Vec<char>> = Vec::new();
    let mut cur: Vec<char> = Vec::new();
    let mut i: usize = 0;
    assert(s@.subrange(0, n as int) =~= s@);
    while i < n
        invariant
            i <= n,
            n == s@.len(),
            path_components(s@) == out.deep_view() + comps_from(s@.subrange(i as int, n as int), cur@),
        decreases n - i,
    {
        let ghost rest = s@.subrange(i as int, n as int);
        assert(rest.drop_first() =~= s@.subrange(i + 1, n as int));
        assert(rest[0] == s@[i as int]);
        if char_in_class(s[i], CharClass::PathSep) {
            if cur.len() > 0 {
                let ghost before = out.deep_view();
                let piece = slice_chars(&cur, 0, cur.len());
                proof {
                    lemma_chars_deep(piece);
                    assert(piece@ =~= cur@);
                }
                out.push(piece);
                proof {
                    assert(out.deep_view() =~= before.push(cur@));
                    assert(before + (seq![cur@] + comps_from(s@.subrange(i + 1, n as int), Seq::empty()))
                        =~= out.deep_view() + comps_from(s@.subrange(i + 1, n as int), Seq::empty()));
                }
            } else {
                assert(out.deep_view() + (Seq::<Seq<char>>::empty() + comps_from(s@.subrange(i + 1, n as int), Seq::empty()))
                    =~= out.deep_view() + comps_from(s@.subrange(i + 1, n as int), Seq::empty()));
            }
            cur = Vec::new();
            assert(cur@ =~= Seq::<char>::empty());
        } else {
            cur.push(s[i]);
        }
        i += 1;
    }
    assert(s@.subrange(n as int, n as int) =~= Seq::<char>::empty());
    if cur.len() > 0 {
        let ghost before = out.deep_view();
        proof {
            lemma_chars_deep(cur);
        }
        out.push(cur);
        assert(out.deep_view() =~= before + seq![cur@]);
    } else {
        assert(out.deep_view() + Seq::<Seq<char>>::empty() =~= out.deep_view());
    }
    out
}

/// Index of the last path separator of `s`.
pub open spec fn last_sep_index(s: Seq<char>) -> Option<int>
    decreases s.len(),
{
    if s.len() == 0 {
        None
    } else if in_class(s.last(), CharClass::PathSep) {
        Some(s.len() - 1)
    } else {
        last_sep_index(s.drop_last())
    }
}

/// A path's parent (trailing separators dropped) and basename, when both
/// are non-empty.
pub open spec fn parent_and_base(path: Seq<char>) -> Option<(Seq<char>, Seq<char>)> {
    match last_sep_index(path) {
        None => None,
        Some(k) => {
            let parent = trim_end_by(path.subrange(0, k), CharClass::PathSep);
            let base = path.subrange(k + 1, path.len() as int);
            if parent.len() > 0 && base.len() > 0 {
                Some((parent, base))
            } else {
                None
            }
        },
    }
}

proof fn lemma_last_sep_index(s: Seq<char>)
    ensures
        match last_sep_index(s) {
            Some(k) => 0 <= k < s.len(),
            None => true,
        },
    decreases s.len(),
{
    if s.len() > 0 && !in_class(s.last(), CharClass::PathSep) {
        lemma_last_sep_index(s.drop_last());
    }
}

fn path_parent_and_basename(path: &Vec<char>) -> (r: Option<(Vec<char>, Vec<char>)>)
    ensures
        match parent_and_base(path@) {
            Some((p, b)) => r matches Some((rp, rb)) && rp@ == p && rb@ == b,
            None => r is None,
        },
{
    let n = path.len();
    let mut j: usize = n;
    assert(path@.subrange(0, n as int) =~= path@);
    while j > 0 && !char_in_class(path[j - 1], CharClass::PathSep)
        invariant
            j <= n,
            n == path@.len(),
            last_sep_index(path@) == last_sep_index(path@.subrange(0, j as int)),
        decreases j,
    {
        assert(path@.subrange(0, j as int).drop_last() =~= path@.subrange(0, j - 1));
        j -= 1;
    }
    if j == 0 {
        return None;
    }
    assert(path@.subrange(0, j as int).last() == path@[j - 1]);
    let k = j - 1;
    let head = slice_chars(path, 0, k);
    let parent = trim_end_chars(&head, CharClass::PathSep);
    let base = slice_chars(path, k + 1, n);
    if parent.len() > 0 && base.len() > 0 {
        Some((parent, base))
    } else {
        None
    }
}

/// The white-space class as a predicate on characters.
pub open spec fn ws_pred() -> spec_fn(char) -> bool {
    |c: char| in_class(c, CharClass::Whitespace)
}

/// End of the leading run of non-white-space characters of `t`.
pub open spec fn word_end(t: Seq<char>) -> int {
    match first_where(t, ws_pred()) {
        Some(e) => e,
        None => t.len() as int,
    }
}

/// The first white-space separated word, as `split_whitespace().next()` gives it.
pub open spec fn first_word(s: Seq<char>) -> Option<Seq<char>> {
    let t = trim_start_by(s, CharClass::Whitespace);
    if t.len() == 0 {
        None
    } else {
        Some(t.subrange(0, word_end(t)))
    }
}

/// Index of the first white-space character of `t`, or its length.
fn word_end_index(t: &Vec<char>) -> (r: usize)
    ensures
        r == word_end(t@),
        r <= t@.len(),
{
    let mut i: usize = 0;
    while i < t.len()
        invariant
            i <= t@.len(),
            forall|q: int| 0 <= q < i ==> !ws_pred()(#[trigger] t@[q]),
        decreases t@.len() - i,
    {
        if char_in_class(t[i], CharClass::Whitespace) {
            proof {
                lemma_first_where_at(t@, ws_pred(), i as int);
            }
            return i;
        }
        i += 1;
    }
    proof {
        lemma_first_where_none(t@, ws_pred());
    }
    i
}

fn first_word_of(s: &Vec<char>) -> (r: Option<Vec<char>>)
    ensures
        match first_word(s@) {
            Some(w) => r matches Some(v) && v@ == w,
            None => r is None,
        },
{
    let start = trim_start_index(s, CharClass::Whitespace);
    let t = slice_chars(s, start, s.len());
    if t.len() == 0 {
        return None;
    }
    let e = word_end_index(&t);
    Some(slice_chars(&t, 0, e))
}

/// The next token of a command text and the rest after it: a quoted token
/// (to the matching quote, or to the end), or a run of non-white-space.
pub open spec fn token_split(input: Seq<char>) -> Option<(Seq<char>, Seq<char>)> {
    let t = trim_start_by(input, CharClass::Whitespace);
    if t.len() == 0 {
        None
    } else if t[0] == '"' || t[0] == '\'' {
        let body = t.drop_first();
        match first_where(body, char_is(t[0])) {
            Some(e) => Some((body.subrange(0, e), body.subrange(e + 1, body.len() as int))),
            None => Some((body, Seq::empty())),
        }
    } else {
        let e = word_end(t);
        Some((t.subrange(0, e), t.subrange(e, t.len() as int)))
    }
}

pub open spec fn char_is(c: char) -> spec_fn(char) -> bool {
    |x: char| x == c
}

proof fn lemma_trim_start_suffix(s: Seq<char>, k: CharClass)
    ensures
        trim_start_by(s, k).len() <= s.len(),
        trim_start_by(s, k).len() > 0 ==> !in_class(trim_start_by(s, k)[0], k),
    decreases s.len(),
{
    if s.len() > 0 && in_class(s[0], k) {
        lemma_trim_start_suffix(s.drop_first(), k);
    }
}

/// The rest after a token is shorter than the text it came from.
pub proof fn lemma_token_split_shorter(input: Seq<char>)
    ensures
        token_split(input) matches Some((tok, rest)) ==> rest.len() < input.len(),
{
    let t = trim_start_by(input, CharClass::Whitespace);
    lemma_trim_start_suffix(input, CharClass::Whitespace);
    if t.len() > 0 {
        if t[0] == '"' || t[0] == '\'' {
            let body = t.drop_first();
            lemma_first_where(body, char_is(t[0]));
        } else {
            lemma_first_where(t, ws_pred());
            if let Some(e) = first_where(t, ws_pred()) {
                if e == 0 {
                    assert(ws_pred()(t[0]));
                }
            }
        }
    }
}

fn command_text_token(input: &Vec<char>) -> (r: Option<(Vec<char>, Vec<char>)>)
    ensures
        match token_split(input@) {
            Some((a, b)) => r matches Some((ra, rb)) && ra@ == a && rb@ == b,
            None => r is None,
        },
{
    let start = trim_start_index(input, CharClass::Whitespace);
    let t = slice_chars(input, start, input.len());
    if t.len() == 0 {
        return None;
    }
    let first = t[0];
    if first == '"' || first == '\'' {
        let body = slice_chars(&t, 1, t.len());
        assert(body@ =~= t@.drop_first());
        let mut e: usize = 0;
        while e < body.len()
            invariant
                e <= body@.len(),
                t@ == trim_start_by(input@, CharClass::Whitespace),
                t@.len() > 0,
                first == t@[0],
                first == '"' || first == '\'',
                body@ == t@.drop_first(),
                forall|q: int| 0 <= q < e ==> !char_is(first)(#[trigger] body@[q]),
            decreases body@.len() - e,
        {
            if body[e] == first {
                proof {
                    lemma_first_where_at(body@, char_is(first), e as int);
                }
                return Some((slice_chars(&body, 0, e), slice_chars(&body, e + 1, body.len())));
            }
            e += 1;
        }
        proof {
            lemma_first_where_none(body@, char_is(first));
        }
        let whole = slice_chars(&body, 0, body.len());
        assert(whole@ =~= body@);
        Some((whole, Vec::new()))
    } else {
        let e = word_end_index(&t);
        Some((slice_chars(&t, 0, e), slice_chars(&t, e, t.len())))
    }
}

/// Flag sets that end a script-argument scan.
#[derive(Debug, Clone, Copy, PartialEq, Eq)]
pub enum FlagSet {
    /// `-e`, `--eval`, `-p`, `--print`.
    NodeEval,
    /// `-c`.
    CommandString,
    /// `-m`.
    Module,
    /// No flags.
    NoFlags,
}

pub open spec fn flag_list(k: FlagSet) -> Seq<Seq<char>> {
    match k {
        FlagSet::NodeEval => seq!["-e"@, "--eval"@, "-p"@, "--print"@],
        FlagSet::CommandString => seq!["-c"@],
        FlagSet::Module => seq!["-m"@],
        FlagSet::NoFlags => Seq::empty(),
    }
}

/// Appends the characters of `lit` as one more entry.
pub fn push_chars(list: &mut Vec<Vec<char>>, lit: &str)
    ensures
        final(list).deep_view() == old(list).deep_view().push(lit@),
{
    let c = chars_of(lit);
    proof {
        lemma_chars_deep(c);
    }
    let ghost before = list.deep_view();
    list.push(c);
    assert(list.deep_view() =~= before.push(lit@));
}

fn flag_vec(k: FlagSet) -> (r: Vec<Vec<char>>)
    ensures
        r.deep_view() == flag_list(k),
{
    let mut r: Vec<Vec<char>> = Vec::new();
    match k {
        FlagSet::NodeEval => {
            push_chars(&mut r, "-e");
            push_chars(&mut r, "--eval");
            push_chars(&mut r, "-p");
            push_chars(&mut r, "--print");
        },
        FlagSet::CommandString => {
            push_chars(&mut r, "-c");
        },
        FlagSet::Module => {
            push_chars(&mut r, "-m");
        },
        FlagSet::NoFlags => {},
    }
    assert(r.deep_view() =~= flag_list(k));
    r
}

/// A short flag with its value attached, as `-cCODE`.
pub open spec fn short_flag_payload(arg: Seq<char>, flag: Seq<char>) -> bool {
    has_prefix(flag, "-"@) && !has_prefix(flag, "--"@) && has_prefix(arg, flag) && arg.len() > flag.len()
}

/// A long flag with its value after `=`, as `--eval=CODE`.
pub open spec fn long_flag_value(arg: Seq<char>, flag: Seq<char>) -> bool {
    has_prefix(flag, "--"@) && has_prefix(arg, flag) && has_prefix(arg.subrange(flag.len() as int, arg.len() as int), "="@)
}

pub open spec fn flag_hit(arg: Seq<char>, flag: Seq<char>) -> bool {
    arg == flag || short_flag_payload(arg, flag) || long_flag_value(arg, flag)
}

/// The argument is one of the flags, possibly with its value attached.
pub open spec fn flag_matches(arg: Seq<char>, k: FlagSet) -> bool {
    exists|j: int| 0 <= j < flag_list(k).len() && flag_hit(arg, #[trigger] flag_list(k)[j])
}

fn flag_hit_exec(arg: &Vec<char>, flag: &Vec<char>) -> (r: bool)
    ensures
        r == flag_hit(arg@, flag@),
{
    if eq_chars(arg, flag) {
        return true;
    }
    let starts = crate::text::starts_with_chars(arg, flag);
    let short = starts_with_lit(flag, "-") && !starts_with_lit(flag, "--") && starts && arg.len() > flag.len();
    if short {
        return true;
    }
    if starts_with_lit(flag, "--") && starts {
        let rest = slice_chars(arg, flag.len(), arg.len());
        return starts_with_lit(&rest, "=");
    }
    false
}

fn flag_matches_exec(arg: &Vec<char>, k: FlagSet) -> (r: bool)
    ensures
        r == flag_matches(arg@, k),
{
    let flags = flag_vec(k);
    let mut j: usize = 0;
    while j < flags.len()
        invariant
            j <= flags@.len(),
            flags.deep_view() == flag_list(k),
            forall|q: int| 0 <= q < j ==> !flag_hit(arg@, #[trigger] flag_list(k)[q]),
        decreases flags@.len() - j,
    {
        proof {
            lemma_chars_deep(flags@[j as int]);
            assert(flags.deep_view()[j as int] == flags@[j as int].deep_view());
        }
        if flag_hit_exec(arg, &flags[j]) {
            assert(flag_hit(arg@, flag_list(k)[j as int]));
            return true;
        }
        j += 1;
    }
    false
}

/// Runtime options whose value is the next argument.
pub open spec fn takes_value(arg: Seq<char>) -> bool {
    arg == "-r"@ || arg == "--require"@ || arg == "--loader"@ || arg == "--import"@ || arg == "--experimental-loader"@
        || arg == "--inspect-port"@ || arg == "-W"@ || arg == "-X"@ || arg == "-S"@ || arg == "-L"@ || arg == "-o"@
}

fn option_takes_value(arg: &Vec<char>) -> (r: bool)
    ensures
        r == takes_value(arg@),
{
    eq_lit(arg, "-r") || eq_lit(arg, "--require") || eq_lit(arg, "--loader") || eq_lit(arg, "--import")
        || eq_lit(arg, "--experimental-loader") || eq_lit(arg, "--inspect-port") || eq_lit(arg, "-W")
        || eq_lit(arg, "-X") || eq_lit(arg, "-S") || eq_lit(arg, "-L") || eq_lit(arg, "-o")
}

/// Every package layout names at least one component.
pub open spec fn registry_wf(reg: AgentRegistry) -> bool {
    forall|i: int| 0 <= i < reg.profiles@.len() ==> profile_wf(#[trigger] reg.profiles@[i])
}

pub open spec fn profile_wf(p: AgentProfile) -> bool {
    match p.process {
        Some(pp) => forall|l: int| 0 <= l < pp.package_layouts@.len() ==> (#[trigger] pp.package_layouts@[l]).components@.len() > 0,
        None => true,
    }
}

/// The exec string matches the optional characters.
pub open spec fn same_opt(r: Option<String>, s: Option<Seq<char>>) -> bool {
    match (r, s) {
        (Some(a), Some(b)) => a@ == b,
        (None, None) => true,
        _ => false,
    }
}

/// The ID of the first profile whose process names match the lookup name of `b`.
pub open spec fn name_from_basename(reg: AgentRegistry, b: Seq<char>) -> Option<Seq<char>> {
    match first_where(reg.profiles@, process_name_is(lookup_name(b))) {
        Some(i) => Some(reg.profiles@[i].id@),
        None => None,
    }
}

/// The path ends with the components, compared ignoring ASCII case.
pub open spec fn ends_with_ci(raw: Seq<Seq<char>>, suffix: Seq<Seq<char>>) -> bool {
    raw.len() >= suffix.len() && forall|j: int| 0 <= j < suffix.len() ==> eq_ignore_ascii_case(raw[raw.len() - suffix.len() + j], #[trigger] suffix[j])
}

pub open spec fn exact_layout_hit(p: AgentProfile, raw: Seq<Seq<char>>) -> bool {
    match p.process {
        Some(pp) => exists|l: int| 0 <= l < pp.package_layouts@.len() && (#[trigger] pp.package_layouts@[l]).exact_suffix
            && ends_with_ci(raw, pp.package_layouts@[l].components.deep_view()),
        None => false,
    }
}

pub open spec fn exact_hit(raw: Seq<Seq<char>>) -> spec_fn(AgentProfile) -> bool {
    |p: AgentProfile| exact_layout_hit(p, raw)
}

/// The components from `pos` on start with `expected`.
pub open spec fn window_at(comps: Seq<Seq<char>>, expected: Seq<Seq<char>>, pos: int) -> bool {
    0 <= pos && pos + expected.len() <= comps.len() && comps.subrange(pos, pos + expected.len()) == expected
}

/// The first position at or after `pos` where `expected` occurs in `comps`.
pub open spec fn first_window_from(comps: Seq<Seq<char>>, expected: Seq<Seq<char>>, pos: int) -> Option<int>
    decreases comps.len() + 1 - pos,
{
    if pos < 0 || pos + expected.len() > comps.len() {
        None
    } else if window_at(comps, expected, pos) {
        Some(pos)
    } else {
        first_window_from(comps, expected, pos + 1)
    }
}

/// A match rank (length, position, profile index) beats the best so far:
/// longer first, then earlier, then from an earlier profile.
pub open spec fn better(rank: (int, int, int), best: Option<(int, int, int)>) -> bool {
    match best {
        None => true,
        Some(b) => rank.0 > b.0 || (rank.0 == b.0 && rank.1 < b.1) || (rank.0 == b.0 && rank.1 == b.1 && rank.2 < b.2),
    }
}

/// The best normalized-component match after layouts `l..` of profile `q`.
pub open spec fn norm_layouts(layouts: Seq<PackageLayout>, comps: Seq<Seq<char>>, q: int, l: int, best: Option<(int, int, int)>) -> Option<(int, int, int)>
    decreases layouts.len() - l,
{
    if l < 0 || l >= layouts.len() {
        best
    } else {
        let layout = layouts[l];
        let next = if layout.exact_suffix {
            best
        } else {
            match first_window_from(comps, layout.components.deep_view(), 0) {
                None => best,
                Some(pos) => {
                    let rank = (layout.components@.len() as int, pos, q);
                    if better(rank, best) {
                        Some(rank)
                    } else {
                        best
                    }
                },
            }
        };
        norm_layouts(layouts, comps, q, l + 1, next)
    }
}

/// The best normalized-component match after profiles `q..`.
pub open spec fn norm_profiles(ps: Seq<AgentProfile>, comps: Seq<Seq<char>>, q: int, best: Option<(int, int, int)>) -> Option<(int, int, int)>
    decreases ps.len() - q,
{
    if q < 0 || q >= ps.len() {
        best
    } else {
        let next = match ps[q].process {
            Some(pp) => norm_layouts(pp.package_layouts@, comps, q, 0, best),
            None => best,
        };
        norm_profiles(ps, comps, q + 1, next)
    }
}

pub open spec fn normalized_components(raw: Seq<Seq<char>>) -> Seq<Seq<char>> {
    raw.map_values(|c: Seq<char>| normalized_lookup(c))
}

/// The agent whose package layout the path shows: the first exact suffix,
/// else the best normalized-component match.
pub open spec fn known_package_id(reg: AgentRegistry, path: Seq<char>) -> Option<Seq<char>> {
    let raw = path_components(path);
    match first_where(reg.profiles@, exact_hit(raw)) {
        Some(i) => Some(reg.profiles@[i].id@),
        None => match norm_profiles(reg.profiles@, normalized_components(raw), 0, None) {
            Some(best) => Some(reg.profiles@[best.2].id@),
            None => None,
        },
    }
}

pub open spec fn resolves(t: Seq<char>) -> spec_fn((Seq<char>, Seq<char>)) -> bool {
    |pr: (Seq<char>, Seq<char>)| pr.0 == t
}

/// The basename the file system resolves a path token to, if known.
pub open spec fn resolved_base(resolved: Seq<(Seq<char>, Seq<char>)>, t: Seq<char>) -> Option<Seq<char>> {
    match first_where(resolved, resolves(t)) {
        Some(i) => Some(resolved[i].1),
        None => None,
    }
}

/// The agent a path token names: by its basename, by a package layout, or
/// by the basename it resolves to.
pub open spec fn name_from_path_token(reg: AgentRegistry, resolved: Seq<(Seq<char>, Seq<char>)>, token: Seq<char>) -> Option<Seq<char>> {
    let trimmed = trim_by(token, CharClass::AnyQuote);
    if trimmed.len() == 0 || trimmed[0] == '-' {
        None
    } else {
        match name_from_basename(reg, basename(trimmed)) {
            Some(n) => Some(n),
            None => match known_package_id(reg, trimmed) {
                Some(n) => Some(n),
                None => match resolved_base(resolved, trimmed) {
                    Some(b) => name_from_basename(reg, b),
                    None => None,
                },
            },
        }
    }
}

/// The agent a command text runs: its first token after `&`, `.` and `call`.
pub open spec fn command_text_name(reg: AgentRegistry, resolved: Seq<(Seq<char>, Seq<char>)>, rest: Seq<char>) -> Option<Seq<char>>
    decreases rest.len(),
{
    match token_split(rest) {
        None => None,
        Some((tok, next)) => {
            let token = trim_by(tok, CharClass::Whitespace);
            if eq_ignore_ascii_case(token, "&"@) || eq_ignore_ascii_case(token, "."@) || eq_ignore_ascii_case(token, "call"@) {
                proof {
                    lemma_token_split_shorter(rest);
                }
                command_text_name(reg, resolved, next)
            } else {
                name_from_path_token(reg, resolved, token)
            }
        },
    }
}

/// The script a runtime's arguments run, scanning from argument `i`: the
/// argument after `--`, or the first non-option; none once an eval or module
/// flag appears.
pub open spec fn script_arg_name(
    reg: AgentRegistry,
    resolved: Seq<(Seq<char>, Seq<char>)>,
    argv: Seq<Seq<char>>,
    eval: FlagSet,
    module: FlagSet,
    i: int,
) -> Option<Seq<char>>
    decreases argv.len() - i,
{
    if i < 0 || i >= argv.len() {
        None
    } else {
        let arg = argv[i];
        if arg == "--"@ {
            if i + 1 < argv.len() {
                name_from_path_token(reg, resolved, argv[i + 1])
            } else {
                None
            }
        } else if flag_matches(arg, eval) || flag_matches(arg, module) {
            None
        } else if has_prefix(arg, "-"@) {
            if takes_value(arg) {
                if i + 2 <= argv.len() {
                    script_arg_name(reg, resolved, argv, eval, module, i + 2)
                } else {
                    None
                }
            } else {
                script_arg_name(reg, resolved, argv, eval, module, i + 1)
            }
        } else {
            name_from_path_token(reg, resolved, arg)
        }
    }
}

/// A flag of `cmd.exe`: lowercased, without surrounding double quotes.
pub open spec fn shell_flag(arg: Seq<char>) -> Seq<char> {
    lowercase_of(trim_by(arg, CharClass::DoubleQuote))
}

/// The agent a `cmd.exe` command line runs after `/c` or `/k`.
pub open spec fn windows_cmd_name(reg: AgentRegistry, resolved: Seq<(Seq<char>, Seq<char>)>, argv: Seq<Seq<char>>, i: int) -> Option<Seq<char>>
    decreases argv.len() - i,
{
    if i < 0 || i >= argv.len() {
        None
    } else {
        let flag = shell_flag(argv[i]);
        if flag == "/c"@ || flag == "/k"@ {
            if i + 1 < argv.len() {
                command_text_name(reg, resolved, argv[i + 1])
            } else {
                None
            }
        } else {
            windows_cmd_name(reg, resolved, argv, i + 1)
        }
    }
}

pub open spec fn ps_file_flag(f: Seq<char>) -> bool {
    f == "-file"@ || f == "-f"@ || f == "/file"@
}

pub open spec fn ps_command_flag(f: Seq<char>) -> bool {
    f == "-command"@ || f == "-c"@ || f == "/command"@ || f == "/c"@
}

pub open spec fn ps_encoded_flag(f: Seq<char>) -> bool {
    f == "-encodedcommand"@ || f == "-enc"@ || f == "/encodedcommand"@ || f == "/enc"@
}

pub open spec fn ps_valued_flag(f: Seq<char>) -> bool {
    f == "-configurationname"@ || f == "-executionpolicy"@ || f == "-outputformat"@ || f == "-psconsolefile"@
        || f == "-version"@ || f == "-windowstyle"@ || f == "-workingdirectory"@
}

/// The agent a PowerShell command line runs: a `-File` script, a `-Command`
/// text, or the first non-option argument; none for an encoded command.
pub open spec fn powershell_name(reg: AgentRegistry, resolved: Seq<(Seq<char>, Seq<char>)>, argv: Seq<Seq<char>>, i: int) -> Option<Seq<char>>
    decreases argv.len() - i,
{
    if i < 0 || i >= argv.len() {
        None
    } else {
        let arg = argv[i];
        let flag = shell_flag(arg);
        if ps_file_flag(flag) {
            if i + 1 < argv.len() {
                name_from_path_token(reg, resolved, argv[i + 1])
            } else {
                None
            }
        } else if ps_command_flag(flag) {
            if i + 1 < argv.len() {
                command_text_name(reg, resolved, argv[i + 1])
            } else {
                None
            }
        } else if ps_encoded_flag(flag) {
            None
        } else if ps_valued_flag(flag) {
            if i + 2 <= argv.len() {
                powershell_name(reg, resolved, argv, i + 2)
            } else {
                None
            }
        } else if has_prefix(flag, "-"@) || has_prefix(flag, "/"@) {
            powershell_name(reg, resolved, argv, i + 1)
        } else {
            name_from_path_token(reg, resolved, arg)
        }
    }
}

/// The runtime lies in `<package>/<versions>/<version>/` of the bundled layout
/// and runs its entry point.
pub open spec fn bundled_layout_hit(lay: BundledNodeLayout, rp: Seq<char>, rn: Seq<char>, sn: Seq<char>) -> bool {
    let c = path_components(rp);
    &&& eq_ignore_ascii_case(rn, lay.runtime_basename@)
    &&& eq_ignore_ascii_case(sn, lay.entrypoint_basename@)
    &&& c.len() >= 3
    &&& eq_ignore_ascii_case(c[c.len() - 3], lay.package_directory@)
    &&& eq_ignore_ascii_case(c[c.len() - 2], lay.versions_directory@)
    &&& trim_by(c[c.len() - 1], CharClass::Whitespace).len() > 0
}

pub open spec fn bundled_hit(rp: Seq<char>, rn: Seq<char>, sn: Seq<char>) -> spec_fn(AgentProfile) -> bool {
    |p: AgentProfile| match p.process {
        Some(pp) => match pp.bundled_node {
            Some(lay) => bundled_layout_hit(lay, rp, rn, sn),
            None => false,
        },
        None => false,
    }
}

/// The agent of a bundled Node runtime running its entry point from the same directory.
pub open spec fn bundled_name(reg: AgentRegistry, argv: Seq<Seq<char>>) -> Option<Seq<char>> {
    if argv.len() < 2 {
        None
    } else {
        match (parent_and_base(argv[0]), parent_and_base(argv[1])) {
            (Some((rp, rn)), Some((sp, sn))) => if !eq_ignore_ascii_case(rp, sp) {
                None
            } else {
                match first_where(reg.profiles@, bundled_hit(rp, rn, sn)) {
                    Some(i) => Some(reg.profiles@[i].id@),
                    None => None,
                }
            },
            _ => None,
        }
    }
}

/// The agent a runtime or shell runs, judged by the runtime's name.
pub open spec fn wrapped_name(reg: AgentRegistry, resolved: Seq<(Seq<char>, Seq<char>)>, runtime: Seq<char>, argv: Option<Seq<Seq<char>>>) -> Option<Seq<char>> {
    match argv {
        None => None,
        Some(a) => {
            let rn = normalized_lookup(basename(runtime));
            if rn == "node"@ {
                match bundled_name(reg, a) {
                    Some(x) => Some(x),
                    None => script_arg_name(reg, resolved, a, FlagSet::NodeEval, FlagSet::NoFlags, 1),
                }
            } else if rn == "bun"@ {
                script_arg_name(reg, resolved, a, FlagSet::NodeEval, FlagSet::NoFlags, 1)
            } else if python_runtime(rn) {
                script_arg_name(reg, resolved, a, FlagSet::CommandString, FlagSet::Module, 1)
            } else if rn == "sh"@ || rn == "bash"@ || rn == "zsh"@ || rn == "fish"@ {
                script_arg_name(reg, resolved, a, FlagSet::CommandString, FlagSet::NoFlags, 1)
            } else if rn == "cmd"@ {
                windows_cmd_name(reg, resolved, a, 1)
            } else if rn == "powershell"@ || rn == "pwsh"@ {
                powershell_name(reg, resolved, a, 1)
            } else {
                None
            }
        },
    }
}

/// A shell running a script is looked through like the others: for `sh`,
/// `bash`, `zsh` and `fish` alike, a first argument that is not an option
/// names the agent that this path names.
pub proof fn lemma_shells_run_scripts(
    reg: AgentRegistry,
    resolved: Seq<(Seq<char>, Seq<char>)>,
    runtime: Seq<char>,
    script: Seq<char>,
)
    requires
        normalized_lookup(basename(runtime)) == "sh"@ || normalized_lookup(basename(runtime)) == "bash"@
            || normalized_lookup(basename(runtime)) == "zsh"@ || normalized_lookup(basename(runtime)) == "fish"@,
        script.len() > 0,
        script[0] != '-',
    ensures
        wrapped_name(reg, resolved, runtime, Some(seq![runtime, script])) == name_from_path_token(reg, resolved, script),
{
    reveal_strlit("sh");
    reveal_strlit("bash");
    reveal_strlit("zsh");
    reveal_strlit("fish");
    reveal_strlit("node");
    reveal_strlit("bun");
    reveal_strlit("python");
    reveal_strlit("cmd");
    reveal_strlit("powershell");
    reveal_strlit("pwsh");
    reveal_strlit("--");
    reveal_strlit("-c");
    reveal_strlit("-");
    let rn = normalized_lookup(basename(runtime));
    assert(rn.len() <= 4);
    assert(rn != "node"@) by {
        if rn == "node"@ {
            assert("node"@[0] == 'n');
        }
    }
    assert(rn != "bun"@) by {
        if rn == "bun"@ {
            assert("bun"@[1] == 'u');
        }
    }
    assert("python"@.len() == 6);
    assert(!python_runtime(rn));
    let a = seq![runtime, script];
    assert(a[1] == script);
    assert("--"@[0] == '-');
    assert("-c"@[0] == '-');
    assert("-c"@.len() == 2);
    assert("-"@.len() == 1);
    assert(script != "--"@);
    assert(!flag_hit(script, "-c"@)) by {
        if has_prefix(script, "-c"@) {
            assert(script.subrange(0, 2)[0] == script[0]);
        }
        if has_prefix(script, "--"@) {
            assert(script.subrange(0, 2)[0] == script[0]);
        }
    }
    assert(flag_list(FlagSet::CommandString) =~= seq!["-c"@]);
    assert(!flag_matches(script, FlagSet::CommandString));
    assert(!flag_matches(script, FlagSet::NoFlags));
    assert(!has_prefix(script, "-"@)) by {
        if has_prefix(script, "-"@) {
            assert(script.subrange(0, 1)[0] == script[0]);
        }
    }
}

/// The profile with this ID, paired with the name.
pub open spec fn canonical(reg: AgentRegistry, name: Seq<char>) -> Option<(Agent, Seq<char>)> {
    match first_where(reg.profiles@, id_is(name)) {
        Some(i) => Some((reg.profiles@[i].agent, name)),
        None => None,
    }
}

/// The profile with this ID recognizes scripts run by `node` or `bun` under another name.
pub open spec fn uses_fallback(reg: AgentRegistry, name: Seq<char>) -> bool {
    match first_where(reg.profiles@, id_is(name)) {
        Some(i) => match reg.profiles@[i].process {
            Some(pp) => pp.secondary_runtime_argv_fallback,
            None => false,
        },
        None => false,
    }
}

/// A script run by `node` or `bun` when its agent allows that fallback.
pub open spec fn runtime_fallback(reg: AgentRegistry, resolved: Seq<(Seq<char>, Seq<char>)>, argv: Option<Seq<Seq<char>>>) -> Option<Seq<char>> {
    match argv {
        Some(a) => if a.len() > 0 && (normalized_lookup(basename(a[0])) == "node"@ || normalized_lookup(basename(a[0])) == "bun"@) {
            match wrapped_name(reg, resolved, a[0], argv) {
                Some(w) => if uses_fallback(reg, w) {
                    Some(w)
                } else {
                    None
                },
                None => None,
            }
        } else {
            None
        },
        None => None,
    }
}

pub open spec fn argv0_name(reg: AgentRegistry, resolved: Seq<(Seq<char>, Seq<char>)>, argv: Option<Seq<Seq<char>>>) -> Option<Seq<char>> {
    match argv {
        Some(a) => if a.len() > 0 {
            name_from_path_token(reg, resolved, a[0])
        } else {
            None
        },
        None => None,
    }
}

pub open spec fn cmdline_name(reg: AgentRegistry, resolved: Seq<(Seq<char>, Seq<char>)>, cmdline: Seq<char>) -> Option<Seq<char>> {
    match first_word(cmdline) {
        Some(w) => name_from_path_token(reg, resolved, w),
        None => None,
    }
}

pub open spec fn effective_name(p: ForegroundProcess) -> Seq<char> {
    match p.argv0 {
        Some(a) => a@,
        None => p.name@,
    }
}

pub open spec fn cmdline_or_empty(p: ForegroundProcess) -> Seq<char> {
    match p.cmdline {
        Some(c) => c@,
        None => Seq::empty(),
    }
}

/// The agent a process runs and the name it is known by.
pub open spec fn recognize(reg: AgentRegistry, resolved: Seq<(Seq<char>, Seq<char>)>, p: ForegroundProcess) -> Option<(Agent, Seq<char>)> {
    let effective = effective_name(p);
    let lower = lowercase_of(effective);
    let argv = p.argv.deep_view();
    if generic_runtime_or_shell(lower) && wrapped_name(reg, resolved, lower, argv) is Some {
        canonical(reg, wrapped_name(reg, resolved, lower, argv)->0)
    } else {
        match first_where(reg.profiles@, process_name_is(lookup_name(effective))) {
            Some(i) => Some((reg.profiles@[i].agent, effective)),
            None => match runtime_fallback(reg, resolved, argv) {
                Some(w) => canonical(reg, w),
                None => match argv0_name(reg, resolved, argv) {
                    Some(n) => canonical(reg, n),
                    None => match cmdline_name(reg, resolved, cmdline_or_empty(p)) {
                        Some(n) => canonical(reg, n),
                        None => None,
                    },
                },
            },
        }
    }
}

/// How strongly a recognized process stands for its job: renamed (3), a
/// non-runtime process (2), or a runtime or shell (1).
pub open spec fn priority(p: ForegroundProcess, cand: Seq<char>) -> u8 {
    let lower = lowercase_of(cand);
    if lower != lowercase_of(p.name@) {
        3
    } else if !generic_runtime_or_shell(lower) {
        2
    } else {
        1
    }
}

/// The best so far scores at least `score`.
pub open spec fn keeps_best(best: Option<(u8, Agent, Seq<char>)>, score: u8) -> bool {
    match best {
        Some(b) => b.0 >= score,
        None => false,
    }
}

/// The best-scoring recognized process from index `i` on; earlier wins ties.
pub open spec fn job_best(
    reg: AgentRegistry,
    resolved: Seq<(Seq<char>, Seq<char>)>,
    ps: Seq<ForegroundProcess>,
    i: int,
    best: Option<(u8, Agent, Seq<char>)>,
) -> Option<(u8, Agent, Seq<char>)>
    decreases ps.len() - i,
{
    if i < 0 || i >= ps.len() {
        best
    } else {
        let next = match recognize(reg, resolved, ps[i]) {
            Some((a, c)) => {
                let score = priority(ps[i], c);
                if keeps_best(best, score) {
                    best
                } else {
                    Some((score, a, c))
                }
            },
            None => best,
        };
        job_best(reg, resolved, ps, i + 1, next)
    }
}

pub open spec fn leader_is(pgid: u32) -> spec_fn(ForegroundProcess) -> bool {
    |p: ForegroundProcess| p.pid == pgid
}

/// The agent of a foreground job: the recognized group leader, or else the
/// best-scoring recognized process.
pub open spec fn identify_in_job(reg: AgentRegistry, resolved: Seq<(Seq<char>, Seq<char>)>, job: ForegroundJob) -> Option<(Agent, Seq<char>)> {
    let ps = job.processes@;
    let leader_hit = match first_where(ps, leader_is(job.process_group_id)) {
        Some(i) => recognize(reg, resolved, ps[i]),
        None => None,
    };
    match leader_hit {
        Some(x) => Some(x),
        None => match job_best(reg, resolved, ps, 0, None) {
            Some(b) => Some((b.1, b.2)),
            None => None,
        },
    }
}

/// Each row of the model is the row's characters.
pub proof fn lemma_rows_deep(v: Vec<Vec<char>>)
    ensures
        v.deep_view().len() == v@.len(),
        forall|k: int| 0 <= k < v@.len() ==> #[trigger] v.deep_view()[k] == v@[k]@,
{
    assert forall|k: int| 0 <= k < v@.len() implies #[trigger] v.deep_view()[k] == v@[k]@ by {
        lemma_chars_deep(v@[k]);
    }
}

fn ends_with_ci_exec(raw: &Vec<Vec<char>>, suffix: &Vec<String>) -> (r: bool)
    ensures
        r == ends_with_ci(raw.deep_view(), suffix.deep_view()),
{
    proof {
        lemma_rows_deep(*raw);
    }
    if raw.len() < suffix.len() {
        return false;
    }
    let total = raw.len();
    let off = total - suffix.len();
    let mut j: usize = 0;
    while j < suffix.len()
        invariant
            j <= suffix@.len(),
            total == raw@.len(),
            off + suffix@.len() == total,
            raw.deep_view().len() == raw@.len(),
            forall|k: int| 0 <= k < raw@.len() ==> #[trigger] raw.deep_view()[k] == raw@[k]@,
            forall|q: int| 0 <= q < j ==> eq_ignore_ascii_case(raw.deep_view()[raw.deep_view().len() - suffix.deep_view().len() + q], #[trigger] suffix.deep_view()[q]),
        decreases suffix@.len() - j,
    {
        let sj = chars_of(suffix[j].as_str());
        if !eq_ignore_case_chars(&raw[off + j], &sj) {
            assert(!eq_ignore_ascii_case(raw.deep_view()[raw.deep_view().len() - suffix.deep_view().len() + j], suffix.deep_view()[j as int]));
            return false;
        }
        j += 1;
    }
    true
}

fn layouts_exact_hit(pp: &ProcessProfile, raw: &Vec<Vec<char>>) -> (r: bool)
    ensures
        r == exists|l: int| 0 <= l < pp.package_layouts@.len() && (#[trigger] pp.package_layouts@[l]).exact_suffix
            && ends_with_ci(raw.deep_view(), pp.package_layouts@[l].components.deep_view()),
{
    let mut l: usize = 0;
    while l < pp.package_layouts.len()
        invariant
            l <= pp.package_layouts@.len(),
            forall|q: int| 0 <= q < l ==> !((#[trigger] pp.package_layouts@[q]).exact_suffix
                && ends_with_ci(raw.deep_view(), pp.package_layouts@[q].components.deep_view())),
        decreases pp.package_layouts@.len() - l,
    {
        let layout = &pp.package_layouts[l];
        if layout.exact_suffix && ends_with_ci_exec(raw, &layout.components) {
            return true;
        }
        l += 1;
    }
    false
}

fn window_matches(comps: &Vec<Vec<char>>, expected: &Vec<String>, pos: usize) -> (r: bool)
    requires
        pos + expected@.len() <= comps@.len(),
    ensures
        r == window_at(comps.deep_view(), expected.deep_view(), pos as int),
{
    proof {
        lemma_rows_deep(*comps);
    }
    let total = comps.len();
    let mut j: usize = 0;
    while j < expected.len()
        invariant
            j <= expected@.len(),
            total == comps@.len(),
            pos + expected@.len() <= total,
            comps.deep_view().len() == comps@.len(),
            forall|k: int| 0 <= k < comps@.len() ==> #[trigger] comps.deep_view()[k] == comps@[k]@,
            forall|q: int| 0 <= q < j ==> comps.deep_view()[pos + q] == #[trigger] expected.deep_view()[q],
        decreases expected@.len() - j,
    {
        let ej = chars_of(expected[j].as_str());
        if !eq_chars(&comps[pos + j], &ej) {
            assert(comps.deep_view().subrange(pos as int, pos + expected@.len())[j as int] != expected.deep_view()[j as int]);
            return false;
        }
        j += 1;
    }
    assert(comps.deep_view().subrange(pos as int, pos + expected@.len()) =~= expected.deep_view());
    true
}

fn first_window(comps: &Vec<Vec<char>>, expected: &Vec<String>) -> (r: Option<usize>)
    requires
        expected@.len() > 0,
    ensures
        match first_window_from(comps.deep_view(), expected.deep_view(), 0) {
            Some(p) => r matches Some(x) && x as int == p,
            None => r is None,
        },
{
    proof {
        lemma_rows_deep(*comps);
    }
    let n = expected.len();
    if n > comps.len() {
        return None;
    }
    let total = comps.len();
    let last = total - n;
    let mut pos: usize = 0;
    while pos <= last
        invariant
            n == expected@.len(),
            n > 0,
            total == comps@.len(),
            last + n == total,
            pos <= last + 1,
            comps.deep_view().len() == comps@.len(),
            first_window_from(comps.deep_view(), expected.deep_view(), 0) == first_window_from(comps.deep_view(), expected.deep_view(), pos as int),
        decreases last + 1 - pos,
    {
        if window_matches(comps, expected, pos) {
            return Some(pos);
        }
        pos += 1;
    }
    None
}

/// The optional rank as integers.
pub open spec fn rank_of(b: Option<(usize, usize, usize)>) -> Option<(int, int, int)> {
    match b {
        Some(x) => Some((x.0 as int, x.1 as int, x.2 as int)),
        None => None,
    }
}

fn better_exec(rank: (usize, usize, usize), best: Option<(usize, usize, usize)>) -> (r: bool)
    ensures
        r == better((rank.0 as int, rank.1 as int, rank.2 as int), rank_of(best)),
{
    match best {
        None => true,
        Some(b) => rank.0 > b.0 || (rank.0 == b.0 && rank.1 < b.1) || (rank.0 == b.0 && rank.1 == b.1 && rank.2 < b.2),
    }
}

/// Whether the file system resolution table names a basename for the token.
fn resolved_basename(resolved: &Vec<(String, String)>, t: &Vec<char>) -> (r: Option<Vec<char>>)
    ensures
        match resolved_base(resolved.deep_view(), t@) {
            Some(b) => r matches Some(v) && v@ == b,
            None => r is None,
        },
{
    let ghost rs = resolved.deep_view();
    let mut i: usize = 0;
    while i < resolved.len()
        invariant
            i <= resolved@.len(),
            rs == resolved.deep_view(),
            forall|q: int| 0 <= q < i ==> !resolves(t@)(#[trigger] rs[q]),
        decreases resolved@.len() - i,
    {
        let k = chars_of(resolved[i].0.as_str());
        if eq_chars(&k, t) {
            proof {
                lemma_first_where_at(rs, resolves(t@), i as int);
            }
            return Some(chars_of(resolved[i].1.as_str()));
        }
        i += 1;
    }
    proof {
        lemma_first_where_none(rs, resolves(t@));
    }
    None
}

/// Recognizes agents in foreground processes against one registry snapshot.
pub struct ProcessRecognizer<'a> {
    pub registry: &'a AgentRegistry,
    /// Basenames that path tokens resolve to on the file system.
    pub resolved: &'a Vec<(String, String)>,
}

impl<'a> ProcessRecognizer<'a> {
    pub open spec fn reg(&self) -> AgentRegistry {
        *self.registry
    }

    pub open spec fn res(&self) -> Seq<(Seq<char>, Seq<char>)> {
        self.resolved.deep_view()
    }

    fn id_at(&self, i: usize) -> (r: String)
        requires
            i < self.registry.profiles@.len(),
        ensures
            r@ == self.registry.profiles@[i as int].id@,
    {
        self.registry.profiles[i].id.clone()
    }

    fn name_from_basename_chars(&self, b: &Vec<char>) -> (r: Option<String>)
        ensures
            same_opt(r, name_from_basename(self.reg(), b@)),
    {
        let normalized = normalized_agent_lookup_name(b);
        let n = path_basename(&normalized);
        proof {
            lemma_first_where(self.registry.profiles@, process_name_is(n@));
        }
        match self.registry.position_by_process_name(&n) {
            Some(i) => Some(self.id_at(i)),
            None => None,
        }
    }

    /// The canonical ID of the agent whose process names include the basename.
    pub fn agent_name_from_basename(&self, basename: &str) -> (r: Option<String>)
        ensures
            same_opt(r, name_from_basename(self.reg(), basename@)),
    {
        let b = chars_of(basename);
        self.name_from_basename_chars(&b)
    }

    fn exact_package_position(&self, raw: &Vec<Vec<char>>) -> (r: Option<usize>)
        ensures
            match first_where(self.registry.profiles@, exact_hit(raw.deep_view())) {
                Some(i) => r matches Some(x) && x as int == i && i < self.registry.profiles@.len(),
                None => r is None,
            },
    {
        let ghost ps = self.registry.profiles@;
        let ghost f = exact_hit(raw.deep_view());
        let mut i: usize = 0;
        while i < self.registry.profiles.len()
            invariant
                i <= ps.len(),
                ps == self.registry.profiles@,
                f == exact_hit(raw.deep_view()),
                forall|q: int| 0 <= q < i ==> !f(#[trigger] ps[q]),
            decreases ps.len() - i,
        {
            let hit = match &self.registry.profiles[i].process {
                Some(pp) => layouts_exact_hit(pp, raw),
                None => false,
            };
            if hit {
                proof {
                    lemma_first_where_at(ps, f, i as int);
                }
                return Some(i);
            }
            i += 1;
        }
        proof {
            lemma_first_where_none(ps, f);
        }
        None
    }

    fn norm_best(&self, comps: &Vec<Vec<char>>) -> (r: Option<(usize, usize, usize)>)
        requires
            registry_wf(self.reg()),
        ensures
            rank_of(r) == norm_profiles(self.registry.profiles@, comps.deep_view(), 0, None),
            r matches Some(b) ==> b.2 < self.registry.profiles@.len(),
    {
        let ghost ps = self.registry.profiles@;
        let ghost c = comps.deep_view();
        let mut best: Option<(usize, usize, usize)> = None;
        let mut q: usize = 0;
        while q < self.registry.profiles.len()
            invariant
                q <= ps.len(),
                ps == self.registry.profiles@,
                c == comps.deep_view(),
                registry_wf(self.reg()),
                norm_profiles(ps, c, 0, None) == norm_profiles(ps, c, q as int, rank_of(best)),
                best matches Some(b) ==> b.2 < ps.len(),
            decreases ps.len() - q,
        {
            if let Some(pp) = &self.registry.profiles[q].process {
                assert(profile_wf(ps[q as int]));
                let ghost start = best;
                let mut l: usize = 0;
                while l < pp.package_layouts.len()
                    invariant
                        l <= pp.package_layouts@.len(),
                        q < ps.len(),
                        ps[q as int].process == Some(*pp),
                        c == comps.deep_view(),
                        profile_wf(ps[q as int]),
                        norm_layouts(pp.package_layouts@, c, q as int, 0, rank_of(start))
                            == norm_layouts(pp.package_layouts@, c, q as int, l as int, rank_of(best)),
                        best matches Some(b) ==> b.2 < ps.len(),
                    decreases pp.package_layouts@.len() - l,
                {
                    let ghost old_best = best;
                    let layout = &pp.package_layouts[l];
                    if !layout.exact_suffix {
                        assert(layout.components@.len() > 0);
                        match first_window(comps, &layout.components) {
                            Some(pos) => {
                                let rank = (layout.components.len(), pos, q);
                                if better_exec(rank, best) {
                                    best = Some(rank);
                                }
                            },
                            None => {},
                        }
                    }
                    assert(norm_layouts(pp.package_layouts@, c, q as int, l as int, rank_of(old_best))
                        == norm_layouts(pp.package_layouts@, c, q as int, l + 1, rank_of(best)));
                    l += 1;
                }
            }
            q += 1;
        }
        best
    }

    /// The canonical ID of the agent whose package layout a path shows.
    pub fn agent_name_from_known_package_path(&self, path: &str) -> (r: Option<String>)
        requires
            registry_wf(self.reg()),
        ensures
            same_opt(r, known_package_id(self.reg(), path@)),
    {
        let p = chars_of(path);
        self.known_package_chars(&p)
    }

    fn known_package_chars(&self, path: &Vec<char>) -> (r: Option<String>)
        requires
            registry_wf(self.reg()),
        ensures
            same_opt(r, known_package_id(self.reg(), path@)),
    {
        let raw = split_path(path);
        match self.exact_package_position(&raw) {
            Some(i) => Some(self.id_at(i)),
            None => {
                proof {
                    lemma_rows_deep(raw);
                }
                let mut comps: Vec<Vec<char>> = Vec::new();
                let mut k: usize = 0;
                while k < raw.len()
                    invariant
                        k <= raw@.len(),
                        raw.deep_view().len() == raw@.len(),
                        forall|j: int| 0 <= j < raw@.len() ==> #[trigger] raw.deep_view()[j] == raw@[j]@,
                        comps.deep_view() == normalized_components(raw.deep_view()).take(k as int),
                    decreases raw@.len() - k,
                {
                    let n = normalized_agent_lookup_name(&raw[k]);
                    let ghost before = comps.deep_view();
                    proof {
                        lemma_chars_deep(n);
                        assert(normalized_components(raw.deep_view())[k as int] == normalized_lookup(raw@[k as int]@));
                    }
                    comps.push(n);
                    assert(comps.deep_view() =~= before.push(n@));
                    assert(comps.deep_view() =~= normalized_components(raw.deep_view()).take(k + 1));
                    k += 1;
                }
                assert(normalized_components(raw.deep_view()).take(raw@.len() as int) =~= normalized_components(raw.deep_view()));
                match self.norm_best(&comps) {
                    Some(b) => Some(self.id_at(b.2)),
                    None => None,
                }
            },
        }
    }

    fn agent_name_from_path_token(&self, token: &Vec<char>) -> (r: Option<String>)
        requires
            registry_wf(self.reg()),
        ensures
            same_opt(r, name_from_path_token(self.reg(), self.res(), token@)),
    {
        let trimmed = trim_chars(token, CharClass::AnyQuote);
        if trimmed.len() == 0 || trimmed[0] == '-' {
            return None;
        }
        let base = path_basename(&trimmed);
        if let Some(n) = self.name_from_basename_chars(&base) {
            return Some(n);
        }
        if let Some(n) = self.known_package_chars(&trimmed) {
            return Some(n);
        }
        match resolved_basename(self.resolved, &trimmed) {
            Some(b) => self.name_from_basename_chars(&b),
            None => None,
        }
    }
}

/// The arguments as character vectors.
fn argv_chars(argv: &Vec<String>) -> (r: Vec<Vec<char>>)
    ensures
        r.deep_view() == argv.deep_view(),
{
    let mut out: Vec<Vec<char>> = Vec::new();
    let mut i: usize = 0;
    while i < argv.len()
        invariant
            i <= argv@.len(),
            out.deep_view() == argv.deep_view().take(i as int),
        decreases argv@.len() - i,
    {
        let c = chars_of(argv[i].as_str());
        proof {
            lemma_chars_deep(c);
        }
        let ghost before = out.deep_view();
        out.push(c);
        assert(out.deep_view() =~= before.push(argv@[i as int]@));
        assert(argv.deep_view().take(i + 1) =~= argv.deep_view().take(i as int).push(argv@[i as int]@));
        i += 1;
    }
    assert(argv.deep_view().take(argv@.len() as int) =~= argv.deep_view());
    out
}

fn eq_ci_lit(a: &Vec<char>, lit: &str) -> (r: bool)
    ensures
        r == eq_ignore_ascii_case(a@, lit@),
{
    let b = chars_of(lit);
    eq_ignore_case_chars(a, &b)
}

fn shell_flag_exec(arg: &Vec<char>) -> (r: Vec<char>)
    ensures
        r@ == shell_flag(arg@),
{
    let t = trim_chars(arg, CharClass::DoubleQuote);
    to_lowercase_chars(&t)
}

fn bundled_layout_hit_exec(lay: &BundledNodeLayout, rp: &Vec<char>, rn: &Vec<char>, sn: &Vec<char>) -> (r: bool)
    ensures
        r == bundled_layout_hit(*lay, rp@, rn@, sn@),
{
    let rt = chars_of(lay.runtime_basename.as_str());
    let ep = chars_of(lay.entrypoint_basename.as_str());
    if !eq_ignore_case_chars(rn, &rt) || !eq_ignore_case_chars(sn, &ep) {
        return false;
    }
    let c = split_path(rp);
    proof {
        lemma_rows_deep(c);
    }
    let n = c.len();
    if n < 3 {
        return false;
    }
    let pkg = chars_of(lay.package_directory.as_str());
    let vers = chars_of(lay.versions_directory.as_str());
    let version = trim_chars(&c[n - 1], CharClass::Whitespace);
    eq_ignore_case_chars(&c[n - 3], &pkg) && eq_ignore_case_chars(&c[n - 2], &vers) && version.len() > 0
}

impl<'a> ProcessRecognizer<'a> {
    fn command_text_agent_name(&self, command: &Vec<char>) -> (r: Option<String>)
        requires
            registry_wf(self.reg()),
        ensures
            same_opt(r, command_text_name(self.reg(), self.res(), command@)),
    {
        let mut rest = slice_chars(command, 0, command.len());
        assert(rest@ =~= command@);
        loop
            invariant
                registry_wf(self.reg()),
                command_text_name(self.reg(), self.res(), command@) == command_text_name(self.reg(), self.res(), rest@),
            decreases rest@.len(),
        {
            match command_text_token(&rest) {
                None => {
                    return None;
                },
                Some((tok, next)) => {
                    let token = trim_chars(&tok, CharClass::Whitespace);
                    if eq_ci_lit(&token, "&") || eq_ci_lit(&token, ".") || eq_ci_lit(&token, "call") {
                        proof {
                            lemma_token_split_shorter(rest@);
                        }
                        rest = next;
                    } else {
                        return self.agent_name_from_path_token(&token);
                    }
                },
            }
        }
    }

    fn script_arg_agent_name(&self, argv: &Vec<Vec<char>>, eval: FlagSet, module: FlagSet) -> (r: Option<String>)
        requires
            registry_wf(self.reg()),
        ensures
            same_opt(r, script_arg_name(self.reg(), self.res(), argv.deep_view(), eval, module, 1)),
    {
        proof {
            lemma_rows_deep(*argv);
        }
        let ghost a = argv.deep_view();
        let n = argv.len();
        let mut i: usize = 1;
        while i < n
            invariant
                1 <= i,
                n == argv@.len(),
                a == argv.deep_view(),
                a.len() == n,
                forall|k: int| 0 <= k < n ==> #[trigger] a[k] == argv@[k]@,
                registry_wf(self.reg()),
                script_arg_name(self.reg(), self.res(), a, eval, module, 1) == script_arg_name(self.reg(), self.res(), a, eval, module, i as int),
            decreases n - i,
        {
            let arg = &argv[i];
            assert(a[i as int] == arg@);
            if eq_lit(arg, "--") {
                if i + 1 < n {
                    assert(a[i + 1] == argv@[i + 1]@);
                    return self.agent_name_from_path_token(&argv[i + 1]);
                }
                return None;
            }
            if flag_matches_exec(arg, eval) || flag_matches_exec(arg, module) {
                return None;
            }
            if starts_with_lit(arg, "-") {
                if option_takes_value(arg) {
                    if n - i >= 2 {
                        i = i + 2;
                    } else {
                        return None;
                    }
                } else {
                    i = i + 1;
                }
            } else {
                return self.agent_name_from_path_token(arg);
            }
        }
        None
    }

    fn windows_cmd_arg_agent_name(&self, argv: &Vec<Vec<char>>) -> (r: Option<String>)
        requires
            registry_wf(self.reg()),
        ensures
            same_opt(r, windows_cmd_name(self.reg(), self.res(), argv.deep_view(), 1)),
    {
        proof {
            lemma_rows_deep(*argv);
        }
        let ghost a = argv.deep_view();
        let n = argv.len();
        let mut i: usize = 1;
        while i < n
            invariant
                1 <= i,
                n == argv@.len(),
                a == argv.deep_view(),
                a.len() == n,
                forall|k: int| 0 <= k < n ==> #[trigger] a[k] == argv@[k]@,
                registry_wf(self.reg()),
                windows_cmd_name(self.reg(), self.res(), a, 1) == windows_cmd_name(self.reg(), self.res(), a, i as int),
            decreases n - i,
        {
            assert(a[i as int] == argv@[i as int]@);
            let flag = shell_flag_exec(&argv[i]);
            if eq_lit(&flag, "/c") || eq_lit(&flag, "/k") {
                if i + 1 < n {
                    assert(a[i + 1] == argv@[i + 1]@);
                    return self.command_text_agent_name(&argv[i + 1]);
                }
                return None;
            }
            i = i + 1;
        }
        None
    }

    fn powershell_arg_agent_name(&self, argv: &Vec<Vec<char>>) -> (r: Option<String>)
        requires
            registry_wf(self.reg()),
        ensures
            same_opt(r, powershell_name(self.reg(), self.res(), argv.deep_view(), 1)),
    {
        proof {
            lemma_rows_deep(*argv);
        }
        let ghost a = argv.deep_view();
        let n = argv.len();
        let mut i: usize = 1;
        while i < n
            invariant
                1 <= i,
                n == argv@.len(),
                a == argv.deep_view(),
                a.len() == n,
                forall|k: int| 0 <= k < n ==> #[trigger] a[k] == argv@[k]@,
                registry_wf(self.reg()),
                powershell_name(self.reg(), self.res(), a, 1) == powershell_name(self.reg(), self.res(), a, i as int),
            decreases n - i,
        {
            assert(a[i as int] == argv@[i as int]@);
            let flag = shell_flag_exec(&argv[i]);
            if eq_lit(&flag, "-file") || eq_lit(&flag, "-f") || eq_lit(&flag, "/file") {
                if i + 1 < n {
                    assert(a[i + 1] == argv@[i + 1]@);
                    return self.agent_name_from_path_token(&argv[i + 1]);
                }
                return None;
            }
            if eq_lit(&flag, "-command") || eq_lit(&flag, "-c") || eq_lit(&flag, "/command") || eq_lit(&flag, "/c") {
                if i + 1 < n {
                    assert(a[i + 1] == argv@[i + 1]@);
                    return self.command_text_agent_name(&argv[i + 1]);
                }
                return None;
            }
            if eq_lit(&flag, "-encodedcommand") || eq_lit(&flag, "-enc") || eq_lit(&flag, "/encodedcommand")
                || eq_lit(&flag, "/enc") {
                return None;
            }
            if eq_lit(&flag, "-configurationname") || eq_lit(&flag, "-executionpolicy") || eq_lit(&flag, "-outputformat")
                || eq_lit(&flag, "-psconsolefile") || eq_lit(&flag, "-version") || eq_lit(&flag, "-windowstyle")
                || eq_lit(&flag, "-workingdirectory") {
                if n - i >= 2 {
                    i = i + 2;
                } else {
                    return None;
                }
            } else if starts_with_lit(&flag, "-") || starts_with_lit(&flag, "/") {
                i = i + 1;
            } else {
                return self.agent_name_from_path_token(&argv[i]);
            }
        }
        None
    }

    fn bundled_node_agent_name_from_argv(&self, argv: &Vec<Vec<char>>) -> (r: Option<String>)
        ensures
            same_opt(r, bundled_name(self.reg(), argv.deep_view())),
    {
        proof {
            lemma_rows_deep(*argv);
        }
        if argv.len() < 2 {
            return None;
        }
        let first = path_parent_and_basename(&argv[0]);
        let second = path_parent_and_basename(&argv[1]);
        match (first, second) {
            (Some((rp, rn)), Some((sp, sn))) => {
                if !eq_ignore_case_chars(&rp, &sp) {
                    return None;
                }
                let ghost ps = self.registry.profiles@;
                let ghost f = bundled_hit(rp@, rn@, sn@);
                let ghost expected = bundled_name(self.reg(), argv.deep_view());
                proof {
                    assert(argv.deep_view()[0] == argv@[0]@);
                    assert(argv.deep_view()[1] == argv@[1]@);
                    assert(expected == match first_where(ps, f) {
                        Some(j) => Some(ps[j].id@),
                        None => None::<Seq<char>>,
                    });
                }
                let mut i: usize = 0;
                while i < self.registry.profiles.len()
                    invariant
                        i <= ps.len(),
                        ps == self.registry.profiles@,
                        f == bundled_hit(rp@, rn@, sn@),
                        expected == bundled_name(self.reg(), argv.deep_view()),
                        expected == match first_where(ps, f) {
                            Some(j) => Some(ps[j].id@),
                            None => None::<Seq<char>>,
                        },
                        forall|q: int| 0 <= q < i ==> !f(#[trigger] ps[q]),
                    decreases ps.len() - i,
                {
                    let hit = match &self.registry.profiles[i].process {
                        Some(pp) => match &pp.bundled_node {
                            Some(lay) => bundled_layout_hit_exec(lay, &rp, &rn, &sn),
                            None => false,
                        },
                        None => false,
                    };
                    if hit {
                        proof {
                            lemma_first_where_at(ps, f, i as int);
                        }
                        return Some(self.id_at(i));
                    }
                    i += 1;
                }
                proof {
                    lemma_first_where_none(ps, f);
                }
                None
            },
            _ => None,
        }
    }

    /// The canonical ID of the agent a runtime or shell runs, judged by the
    /// runtime's name and its arguments.
    pub fn wrapped_agent_name_from_runtime_argv(&self, runtime: &str, argv: Option<&Vec<String>>) -> (r: Option<String>)
        requires
            registry_wf(self.reg()),
        ensures
            same_opt(r, wrapped_name(self.reg(), self.res(), runtime@, match argv {
                Some(a) => Some(a.deep_view()),
                None => None,
            })),
    {
        let rt = chars_of(runtime);
        match argv {
            Some(a) => {
                let av = argv_chars(a);
                self.wrapped_name_chars(&rt, &Some(av))
            },
            None => self.wrapped_name_chars(&rt, &None),
        }
    }

    fn wrapped_name_chars(&self, runtime: &Vec<char>, argv: &Option<Vec<Vec<char>>>) -> (r: Option<String>)
        requires
            registry_wf(self.reg()),
        ensures
            same_opt(r, wrapped_name(self.reg(), self.res(), runtime@, argv.deep_view())),
    {
        let a = match argv {
            Some(a) => a,
            None => {
                return None;
            },
        };
        let base = path_basename(runtime);
        let rn = normalized_agent_lookup_name(&base);
        if eq_lit(&rn, "node") {
            match self.bundled_node_agent_name_from_argv(a) {
                Some(x) => Some(x),
                None => self.script_arg_agent_name(a, FlagSet::NodeEval, FlagSet::NoFlags),
            }
        } else if eq_lit(&rn, "bun") {
            self.script_arg_agent_name(a, FlagSet::NodeEval, FlagSet::NoFlags)
        } else if is_python_runtime(&rn) {
            self.script_arg_agent_name(a, FlagSet::CommandString, FlagSet::Module)
        } else if eq_lit(&rn, "sh") || eq_lit(&rn, "bash") || eq_lit(&rn, "zsh") || eq_lit(&rn, "fish") {
            self.script_arg_agent_name(a, FlagSet::CommandString, FlagSet::NoFlags)
        } else if eq_lit(&rn, "cmd") {
            self.windows_cmd_arg_agent_name(a)
        } else if eq_lit(&rn, "powershell") || eq_lit(&rn, "pwsh") {
            self.powershell_arg_agent_name(a)
        } else {
            None
        }
    }

    /// The agent with this canonical ID, paired with the ID.
    pub fn canonical_candidate(&self, name: String) -> (r: Option<(Agent, String)>)
        ensures
            match (r, canonical(self.reg(), name@)) {
                (Some((a, s)), Some((b, t))) => a == b && s@ == t,
                (None, None) => true,
                _ => false,
            },
    {
        let n = chars_of(name.as_str());
        proof {
            lemma_first_where(self.registry.profiles@, id_is(name@));
        }
        match self.registry.position_by_id(&n) {
            Some(i) => Some((self.registry.profiles[i].agent.clone_agent(), name)),
            None => None,
        }
    }

    fn uses_fallback_exec(&self, name: &String) -> (r: bool)
        ensures
            r == uses_fallback(self.reg(), name@),
    {
        let n = chars_of(name.as_str());
        proof {
            lemma_first_where(self.registry.profiles@, id_is(name@));
        }
        match self.registry.position_by_id(&n) {
            Some(i) => match &self.registry.profiles[i].process {
                Some(pp) => pp.secondary_runtime_argv_fallback,
                None => false,
            },
            None => false,
        }
    }

    /// The canonical ID of the agent named by the first word of a command line.
    pub fn cmdline_argv0_agent_name(&self, cmdline: &str) -> (r: Option<String>)
        requires
            registry_wf(self.reg()),
        ensures
            same_opt(r, cmdline_name(self.reg(), self.res(), cmdline@)),
    {
        let c = chars_of(cmdline);
        match first_word_of(&c) {
            Some(w) => self.agent_name_from_path_token(&w),
            None => None,
        }
    }

    /// The agent a process runs and the name it is known by.
    pub fn normalized_process_name(&self, process: &ForegroundProcess) -> (r: Option<(Agent, String)>)
        requires
            registry_wf(self.reg()),
        ensures
            match (r, recognize(self.reg(), self.res(), *process)) {
                (Some((a, s)), Some((b, t))) => a == b && s@ == t,
                (None, None) => true,
                _ => false,
            },
    {
        let effective_str: &String = match &process.argv0 {
            Some(a) => a,
            None => &process.name,
        };
        let effective = chars_of(effective_str.as_str());
        let lower = to_lowercase_chars(&effective);
        let argv: Option<Vec<Vec<char>>> = match &process.argv {
            Some(a) => Some(argv_chars(a)),
            None => None,
        };
        assert(argv.deep_view() == process.argv.deep_view());
        if is_generic_runtime_or_shell(&lower) {
            if let Some(wrapped) = self.wrapped_name_chars(&lower, &argv) {
                return self.canonical_candidate(wrapped);
            }
        }
        let lookup = path_basename(&normalized_agent_lookup_name(&effective));
        proof {
            lemma_first_where(self.registry.profiles@, process_name_is(lookup@));
        }
        if let Some(i) = self.registry.position_by_process_name(&lookup) {
            return Some((self.registry.profiles[i].agent.clone_agent(), effective_str.clone()));
        }
        if let Some(a) = &argv {
            proof {
                lemma_rows_deep(*a);
            }
            if a.len() > 0 {
                let rn = normalized_agent_lookup_name(&path_basename(&a[0]));
                if eq_lit(&rn, "node") || eq_lit(&rn, "bun") {
                    if let Some(wrapped) = self.wrapped_name_chars(&a[0], &argv) {
                        if self.uses_fallback_exec(&wrapped) {
                            return self.canonical_candidate(wrapped);
                        }
                    }
                }
            }
        }
        let first = match &argv {
            Some(a) => {
                proof {
                    lemma_rows_deep(*a);
                }
                if a.len() > 0 {
                    self.agent_name_from_path_token(&a[0])
                } else {
                    None
                }
            },
            None => None,
        };
        let name = match first {
            Some(n) => Some(n),
            None => {
                let cmdline: Vec<char> = match &process.cmdline {
                    Some(c) => chars_of(c.as_str()),
                    None => Vec::new(),
                };
                assert(cmdline@ == cmdline_or_empty(*process));
                match first_word_of(&cmdline) {
                    Some(w) => self.agent_name_from_path_token(&w),
                    None => None,
                }
            },
        };
        match name {
            Some(n) => self.canonical_candidate(n),
            None => None,
        }
    }
}

/// How strongly a recognized process stands for its job.
pub fn process_priority(process: &ForegroundProcess, normalized_name: &String) -> (r: u8)
    ensures
        r == priority(*process, normalized_name@),
{
    let cand = chars_of(normalized_name.as_str());
    let lower_name = to_lowercase_chars(&cand);
    let own = chars_of(process.name.as_str());
    let lower_own = to_lowercase_chars(&own);
    if !eq_chars(&lower_name, &lower_own) {
        return 3;
    }
    if !is_generic_runtime_or_shell(&lower_name) {
        return 2;
    }
    1
}

/// The first process whose ID is the job's process group ID.
fn find_leader(job: &ForegroundJob) -> (r: Option<usize>)
    ensures
        match first_where(job.processes@, leader_is(job.process_group_id)) {
            Some(i) => r matches Some(x) && x as int == i && i < job.processes@.len(),
            None => r is None,
        },
{
    let ghost ps = job.processes@;
    let mut k: usize = 0;
    while k < job.processes.len()
        invariant
            k <= ps.len(),
            ps == job.processes@,
            forall|q: int| 0 <= q < k ==> !leader_is(job.process_group_id)(#[trigger] ps[q]),
        decreases ps.len() - k,
    {
        if job.processes[k].pid == job.process_group_id {
            proof {
                lemma_first_where_at(ps, leader_is(job.process_group_id), k as int);
            }
            return Some(k);
        }
        k += 1;
    }
    proof {
        lemma_first_where_none(ps, leader_is(job.process_group_id));
    }
    None
}

/// The optional best candidate as plain values.
pub open spec fn best_of(b: Option<(u8, Agent, String)>) -> Option<(u8, Agent, Seq<char>)> {
    match b {
        Some(x) => Some((x.0, x.1, x.2@)),
        None => None,
    }
}

/// The agent of a foreground job: the recognized group leader, or else the
/// best-scoring recognized process (earlier processes win ties). Path tokens
/// resolve through `resolved`, a table of file-system basenames.
pub fn identify_agent_in_job_with_registry(
    registry: &AgentRegistry,
    job: &ForegroundJob,
    resolved: &Vec<(String, String)>,
) -> (r: Option<(Agent, String)>)
    requires
        registry_wf(*registry),
    ensures
        match (r, identify_in_job(*registry, resolved.deep_view(), *job)) {
            (Some((a, s)), Some((b, t))) => a == b && s@ == t,
            (None, None) => true,
            _ => false,
        },
{
    let recognizer = ProcessRecognizer { registry, resolved };
    let ghost ps = job.processes@;
    let ghost reg = *registry;
    let ghost res = resolved.deep_view();
    if let Some(li) = find_leader(job) {
        if let Some(candidate) = recognizer.normalized_process_name(&job.processes[li]) {
            return Some(candidate);
        }
    }
    let mut best: Option<(u8, Agent, String)> = None;
    let mut i: usize = 0;
    while i < job.processes.len()
        invariant
            i <= ps.len(),
            ps == job.processes@,
            reg == *registry,
            res == resolved.deep_view(),
            registry_wf(reg),
            recognizer.registry == registry,
            recognizer.resolved == resolved,
            job_best(reg, res, ps, 0, None) == job_best(reg, res, ps, i as int, best_of(best)),
        decreases ps.len() - i,
    {
        let process = &job.processes[i];
        match recognizer.normalized_process_name(process) {
            Some((agent, candidate)) => {
                let score = process_priority(process, &candidate);
                let keep = match &best {
                    Some(b) => b.0 >= score,
                    None => false,
                };
                if !keep {
                    best = Some((score, agent, candidate));
                }
            },
            None => {},
        }
        i += 1;
    }
    match best {
        Some((_, agent, name)) => Some((agent, name)),
        None => None,
    }
}

/// The agent's canonical label.
pub fn agent_label(agent: &Agent) -> (r: &str)
    ensures
        r@ == label_of(*agent),
{
    agent.as_str()
}

/// The agent of the first profile whose process names match the name's lookup form.
pub open spec fn spec_identify(reg: AgentRegistry, name: Seq<char>) -> Option<Agent> {
    match first_where(reg.profiles@, process_name_is(lookup_name(name))) {
        Some(i) => Some(reg.profiles@[i].agent),
        None => None,
    }
}

/// The agent a label names: by alias, else by a versioned process name.
pub open spec fn spec_parse_label(reg: AgentRegistry, label: Seq<char>) -> Option<Agent> {
    let name = lookup_name(label);
    match first_where(reg.profiles@, alias_is(name)) {
        Some(i) => Some(reg.profiles@[i].agent),
        None => match first_where(reg.profiles@, versioned_name_is(name)) {
            Some(i) => Some(reg.profiles@[i].agent),
            None => None,
        },
    }
}

/// The agent of the profile with exactly this canonical ID.
pub open spec fn spec_parse_canonical(reg: AgentRegistry, label: Seq<char>) -> Option<Agent> {
    match first_where(reg.profiles@, id_is(label)) {
        Some(i) => Some(reg.profiles@[i].agent),
        None => None,
    }
}

/// Against the built-in registry, the canonical parser gives every built-in
/// agent back from its label.
pub proof fn lemma_canonical_label_round_trip(reg: AgentRegistry, i: int)
    requires
        is_builtin_registry(reg),
        0 <= i < builtin_agents().len(),
    ensures
        spec_parse_canonical(reg, label_of(builtin_agents()[i])) == Some(builtin_agents()[i]),
{
    lemma_builtin_label_lookup(reg, i);
}

/// Identifies a process by name using only the given registry.
pub fn identify_agent_with_registry(registry: &AgentRegistry, process_name: &str) -> (r: Option<Agent>)
    ensures
        r == spec_identify(*registry, process_name@),
{
    let name = chars_of(process_name);
    let n = path_basename(&normalized_agent_lookup_name(&name));
    proof {
        lemma_first_where(registry.profiles@, process_name_is(n@));
    }
    match registry.position_by_process_name(&n) {
        Some(i) => Some(registry.profiles[i].agent.clone_agent()),
        None => None,
    }
}

/// Identifies which agent runs from the process name; `None` for shells and
/// unrecognized programs.
pub fn identify_agent(registry: &AgentRegistry, process_name: &str) -> (r: Option<Agent>)
    ensures
        r == spec_identify(*registry, process_name@),
{
    identify_agent_with_registry(registry, process_name)
}

/// The agent a label names, by alias or versioned process name.
pub fn parse_agent_label(registry: &AgentRegistry, agent: &str) -> (r: Option<Agent>)
    ensures
        r == spec_parse_label(*registry, agent@),
        forall|i: int| 0 <= i < builtin_agents().len() && is_builtin_registry(*registry)
            && agent@ == label_of(#[trigger] builtin_agents()[i]) ==> r == Some(builtin_agents()[i]),
{
    let label = chars_of(agent);
    let normalized = normalized_agent_lookup_name(&label);
    let name = path_basename(&normalized);
    proof {
        assert forall|i: int| 0 <= i < builtin_agents().len() && is_builtin_registry(*registry)
            && agent@ == label_of(#[trigger] builtin_agents()[i])
            implies spec_parse_label(*registry, agent@) == Some(builtin_agents()[i]) by {
            lemma_builtin_label_plain(i);
            lemma_plain_label_lookup(agent@);
            assert(lookup_name(agent@) == agent@);
            lemma_builtin_label_lookup(*registry, i);
        }
    }
    proof {
        lemma_first_where(registry.profiles@, alias_is(name@));
        lemma_first_where(registry.profiles@, versioned_name_is(name@));
    }
    if let Some(i) = registry.position_by_alias(&name) {
        return Some(registry.profiles[i].agent.clone_agent());
    }
    match registry.position_by_versioned_name(&name) {
        Some(i) => Some(registry.profiles[i].agent.clone_agent()),
        None => None,
    }
}

/// The agent whose canonical ID is exactly the label.
pub fn parse_canonical_agent_label(registry: &AgentRegistry, label: &str) -> (r: Option<Agent>)
    ensures
        r == spec_parse_canonical(*registry, label@),
{
    let name = chars_of(label);
    proof {
        lemma_first_where(registry.profiles@, id_is(label@));
    }
    match registry.position_by_id(&name) {
        Some(i) => Some(registry.profiles[i].agent.clone_agent()),
        None => None,
    }
}

/// The agent of a foreground job, against the given registry snapshot.
pub fn identify_agent_in_job(registry: &AgentRegistry, job: &ForegroundJob, resolved: &Vec<(String, String)>) -> (r: Option<(Agent, String)>)
    requires
        registry_wf(*registry),
    ensures
        match (r, identify_in_job(*registry, resolved.deep_view(), *job)) {
            (Some((a, s)), Some((b, t))) => a == b && s@ == t,
            (None, None) => true,
            _ => false,
        },
{
    identify_agent_in_job_with_registry(registry, job, resolved)
}

pub open spec fn agent_is(a: Agent) -> spec_fn(AgentProfile) -> bool {
    |p: AgentProfile| label_of(p.agent) == label_of(a)
}

/// The executable that starts the agent interactively on the platform, or
/// the empty string for an agent without a profile.
pub open spec fn spec_executable(reg: AgentRegistry, agent: Agent, windows: bool) -> Seq<char> {
    match first_where(reg.profiles@, agent_is(agent)) {
        Some(i) => if windows {
            reg.profiles@[i].launch.windows@
        } else {
            reg.profiles@[i].launch.unix@
        },
        None => Seq::empty(),
    }
}

pub fn interactive_agent_executable(registry: &AgentRegistry, agent: Agent, windows: bool) -> (r: String)
    ensures
        r@ == spec_executable(*registry, agent, windows),
{
    let wanted = chars_of(agent.as_str());
    let ghost ps = registry.profiles@;
    let mut i: usize = 0;
    while i < registry.profiles.len()
        invariant
            i <= ps.len(),
            ps == registry.profiles@,
            wanted@ == label_of(agent),
            forall|q: int| 0 <= q < i ==> !agent_is(agent)(#[trigger] ps[q]),
        decreases ps.len() - i,
    {
        let label = chars_of(registry.profiles[i].agent.as_str());
        if eq_chars(&label, &wanted) {
            proof {
                lemma_first_where_at(ps, agent_is(agent), i as int);
            }
            let launch = &registry.profiles[i].launch;
            return if windows {
                launch.windows.clone()
            } else {
                launch.unix.clone()
            };
        }
        i += 1;
    }
    proof {
        lemma_first_where_none(ps, agent_is(agent));
    }
    String::new()
}

/// Some integration reports under `source` for the agent with full lifecycle authority.
pub fn full_lifecycle_hook_authority(registry: &AgentRegistry, source: &str, agent_label: &str) -> (r: bool)
    ensures
        r == registry.spec_full_lifecycle(source@, agent_label@),
{
    registry.has_full_lifecycle_report_authority(source, agent_label)
}

/// Some integration reports only the session identity of the agent under `source`.
pub fn session_identity_only_integration(registry: &AgentRegistry, source: &str, agent_label: &str) -> (r: bool)
    ensures
        r == registry.spec_session_identity_only(source@, agent_label@),
{
    registry.is_session_identity_only_integration(source, agent_label)
}

/// Whether every package layout of the registry names at least one component.
pub fn check_registry(registry: &AgentRegistry) -> (r: bool)
    ensures
        r == registry_wf(*registry),
{
    let ghost ps = registry.profiles@;
    let mut i: usize = 0;
    while i < registry.profiles.len()
        invariant
            i <= ps.len(),
            ps == registry.profiles@,
            forall|q: int| 0 <= q < i ==> profile_wf(#[trigger] ps[q]),
        decreases ps.len() - i,
    {
        if let Some(pp) = &registry.profiles[i].process {
            let mut l: usize = 0;
            while l < pp.package_layouts.len()
                invariant
                    l <= pp.package_layouts@.len(),
                    i < ps.len(),
                    ps == registry.profiles@,
                    ps[i as int].process == Some(*pp),
                    forall|m: int| 0 <= m < l ==> (#[trigger] pp.package_layouts@[m]).components@.len() > 0,
                decreases pp.package_layouts@.len() - l,
            {
                if pp.package_layouts[l].components.len() == 0 {
                    assert(pp.package_layouts@[l as int].components@.len() == 0);
                    assert(!profile_wf(ps[i as int]));
                    assert(!registry_wf(*registry));
                    return false;
                }
                l += 1;
            }
        }
        i += 1;
    }
    true
}

} // verus!
