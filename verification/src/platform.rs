//! Platform-independent process and shell rules: foreground jobs, shell
//! names, quoting, and bounded reads.

pub mod desktop_bootstrap;

use vstd::prelude::*;
use crate::detect::{last_segment, parse_agent_label, spec_parse_label, registry_wf};
use crate::agents::{Agent, AgentRegistry};
use crate::search::{find_byte, find_byte_range, lemma_find_byte_bounds};
use crate::text::{chars_of, has_suffix, slice_chars, eq_lit, string_of_chars, push_all, utf8_text, is_ws, is_whitespace, parse_u32, parse_u32_chars};
use crate::path_links::{last_index, last_index_of};

verus! {

/// A process of a pane's foreground job.
#[derive(Debug, Clone, PartialEq, Eq)]
pub struct ForegroundProcess {
    pub pid: u32,
    pub name: String,
    pub argv0: Option<String>,
    pub argv: Option<Vec<String>>,
    pub cmdline: Option<String>,
}

/// The processes of a pane's foreground process group.
#[derive(Debug, Clone, PartialEq, Eq)]
pub struct ForegroundJob {
    pub process_group_id: u32,
    pub processes: Vec<ForegroundProcess>,
}

/// A process lifetime, independent of mutable names, argv and titles. The
/// birth token is opaque and host/boot-local: equal pids with different
/// tokens are different processes.
#[derive(Debug, Clone, Copy, PartialEq, Eq, Structural)]
pub struct ProcessIdentity {
    pub pid: u32,
    pub birth_token: u64,
}

#[derive(Debug, Clone, Copy, PartialEq, Eq, Structural)]
pub enum Signal {
    Hangup,
    Terminate,
    Kill,
}

/// Why a pane runtime ended, before persistence policy is applied.
#[derive(Debug, Clone, Copy, PartialEq, Eq, Structural)]
pub enum ChildExitReason {
    Exited,
    Interrupted,
    /// Imported runtimes have no child wait handle in the replacement server.
    Handoff,
    WaitFailed,
}

impl ChildExitReason {
    /// Interrupted and handed-off runtimes are checkpointed; ordinary exits
    /// and failed waits are not.
    pub fn requires_session_checkpoint(self) -> (r: bool)
        ensures
            r <==> (self == ChildExitReason::Interrupted || self == ChildExitReason::Handoff),
    {
        match self {
            ChildExitReason::Interrupted => true,
            ChildExitReason::Handoff => true,
            _ => false,
        }
    }
}

/// A program that writes or reads the system clipboard, with its arguments.
#[derive(Debug, Clone, PartialEq, Eq)]
pub struct ClipboardCommand {
    pub program: &'static str,
    pub args: &'static [&'static str],
}

/// Image bytes read from the clipboard and the file extension they carry.
#[derive(Debug, Clone, PartialEq, Eq)]
pub struct ClipboardImage {
    pub bytes: Vec<u8>,
    pub extension: &'static str,
}

pub open spec fn ascii_lower(c: char) -> char {
    if 'A' <= c && c <= 'Z' {
        ((c as u32) + 32) as char
    } else {
        c
    }
}

/// ASCII letters lowercased, everything else kept.
pub open spec fn ascii_lowercase(s: Seq<char>) -> Seq<char> {
    Seq::new(s.len(), |i: int| ascii_lower(s[i]))
}

pub open spec fn trim_dashes(s: Seq<char>) -> Seq<char>
    decreases s.len(),
{
    if s.len() > 0 && s[0] == '-' {
        trim_dashes(s.drop_first())
    } else {
        s
    }
}

pub open spec fn exe_suffix() -> Seq<char> {
    seq!['.', 'e', 'x', 'e']
}

/// `s` without every trailing `.exe`.
pub open spec fn strip_exe(s: Seq<char>) -> Seq<char>
    decreases s.len(),
{
    if has_suffix(s, exe_suffix()) {
        strip_exe(s.subrange(0, s.len() - 4))
    } else {
        s
    }
}

/// A process name as shell checks compare it: the last path segment without
/// leading dashes (login shells) and trailing `.exe`, ASCII-lowercased.
pub open spec fn shell_name(name: Seq<char>) -> Seq<char> {
    ascii_lowercase(strip_exe(trim_dashes(last_segment(name))))
}

pub open spec fn pane_shell_names() -> Seq<Seq<char>> {
    seq![
        seq!['s', 'h'],
        seq!['b', 'a', 's', 'h'],
        seq!['d', 'a', 's', 'h'],
        seq!['z', 's', 'h'],
        seq!['f', 'i', 's', 'h'],
        seq!['k', 's', 'h'],
        seq!['m', 'k', 's', 'h'],
        seq!['c', 's', 'h'],
        seq!['t', 'c', 's', 'h'],
        seq!['e', 'l', 'v', 'i', 's', 'h'],
        seq!['x', 'o', 'n', 's', 'h'],
        seq!['n', 'u'],
        seq!['p', 'w', 's', 'h'],
        seq!['p', 'o', 'w', 'e', 'r', 's', 'h', 'e', 'l', 'l'],
        seq!['c', 'm', 'd'],
    ]
}

fn last_segment_chars(s: &Vec<char>) -> (r: Vec<char>)
    ensures
        r@ == last_segment(s@),
{
    let mut i: usize = s.len();
    assert(s@.subrange(0, s@.len() as int) =~= s@);
    assert(s@.subrange(s@.len() as int, s@.len() as int) =~= Seq::<char>::empty());
    while i > 0 && s[i - 1] != '/' && s[i - 1] != '\\'
        invariant
            i <= s@.len(),
            last_segment(s@) == last_segment(s@.subrange(0, i as int)) + s@.subrange(i as int, s@.len() as int),
        decreases i,
    {
        proof {
            let t = s@.subrange(0, i as int);
            assert(t.drop_last() =~= s@.subrange(0, i - 1));
            assert(s@.subrange(i - 1, s@.len() as int) =~= seq![t.last()] + s@.subrange(i as int, s@.len() as int));
            assert(last_segment(t) == last_segment(t.drop_last()).push(t.last()));
            assert(last_segment(t.drop_last()).push(t.last()) + s@.subrange(i as int, s@.len() as int)
                =~= last_segment(t.drop_last()) + s@.subrange(i - 1, s@.len() as int));
        }
        i -= 1;
    }
    proof {
        assert(last_segment(s@.subrange(0, i as int)) =~= Seq::<char>::empty());
        assert(s@.subrange(0, s@.len() as int) =~= s@);
    }
    slice_chars(s, i, s.len())
}

/// The shell-check form of a process name.
pub fn normalized_shell_name(name: &str) -> (r: Vec<char>)
    ensures
        r@ == shell_name(name@),
{
    let seg = last_segment_chars(&chars_of(name));
    let mut a: usize = 0;
    assert(seg@.subrange(0, seg@.len() as int) =~= seg@);
    while a < seg.len() && seg[a] == '-'
        invariant
            a <= seg@.len(),
            trim_dashes(seg@) == trim_dashes(seg@.subrange(a as int, seg@.len() as int)),
        decreases seg@.len() - a,
    {
        assert(seg@.subrange(a as int, seg@.len() as int).drop_first() =~= seg@.subrange(a + 1, seg@.len() as int));
        a += 1;
    }
    let mut b: usize = seg.len();
    let ghost t = seg@.subrange(a as int, seg@.len() as int);
    assert(trim_dashes(t) == t);
    proof {
        reveal_strlit(".exe");
        assert(".exe"@ =~= exe_suffix());
    }
    while b - a >= 4 && seg[b - 4] == '.' && seg[b - 3] == 'e' && seg[b - 2] == 'x' && seg[b - 1] == 'e'
        invariant
            a <= b <= seg@.len(),
            t == seg@.subrange(a as int, seg@.len() as int),
            strip_exe(t) == strip_exe(seg@.subrange(a as int, b as int)),
        decreases b,
    {
        let ghost u = seg@.subrange(a as int, b as int);
        assert(u.subrange(u.len() - 4, u.len() as int) =~= exe_suffix());
        assert(u.subrange(0, u.len() - 4) =~= seg@.subrange(a as int, b - 4));
        b -= 4;
    }
    proof {
        let u = seg@.subrange(a as int, b as int);
        if has_suffix(u, exe_suffix()) {
            assert(u.subrange(u.len() - 4, u.len() as int)[0] == seg@[b - 4]);
            assert(u.subrange(u.len() - 4, u.len() as int)[1] == seg@[b - 3]);
            assert(u.subrange(u.len() - 4, u.len() as int)[2] == seg@[b - 2]);
            assert(u.subrange(u.len() - 4, u.len() as int)[3] == seg@[b - 1]);
        }
    }
    let mut out: Vec<char> = Vec::new();
    let mut i: usize = a;
    while i < b
        invariant
            a <= i <= b <= seg@.len(),
            out@ == ascii_lowercase(seg@.subrange(a as int, i as int)),
        decreases b - i,
    {
        let c = seg[i];
        let l = if 'A' <= c && c <= 'Z' { ((c as u8) + 32) as char } else { c };
        out.push(l);
        assert(out@ =~= ascii_lowercase(seg@.subrange(a as int, i + 1)));
        i += 1;
    }
    out
}

fn in_list(name: &Vec<char>, list: &Vec<&str>) -> (r: bool)
    ensures
        r <==> exists|i: int| 0 <= i < list@.len() && name@ == list@[i]@,
{
    let mut i: usize = 0;
    while i < list.len()
        invariant
            i <= list@.len(),
            forall|j: int| 0 <= j < i ==> name@ != list@[j]@,
        decreases list@.len() - i,
    {
        if eq_lit(name, list[i]) {
            return true;
        }
        i += 1;
    }
    false
}

/// Whether a process name is an interactive shell a pane may run (and not a
/// program that replaced the shell through `exec`).
pub fn is_pane_shell_process_name(name: &str) -> (r: bool)
    ensures
        r <==> pane_shell_names().contains(shell_name(name@)),
{
    let n = normalized_shell_name(name);
    let list: Vec<&str> = vec![
        "sh", "bash", "dash", "zsh", "fish", "ksh", "mksh", "csh", "tcsh", "elvish", "xonsh",
        "nu", "pwsh", "powershell", "cmd",
    ];
    proof {
        reveal_strlit("sh");
        reveal_strlit("bash");
        reveal_strlit("dash");
        reveal_strlit("zsh");
        reveal_strlit("fish");
        reveal_strlit("ksh");
        reveal_strlit("mksh");
        reveal_strlit("csh");
        reveal_strlit("tcsh");
        reveal_strlit("elvish");
        reveal_strlit("xonsh");
        reveal_strlit("nu");
        reveal_strlit("pwsh");
        reveal_strlit("powershell");
        reveal_strlit("cmd");
        assert forall|j: int| 0 <= j < 15 implies #[trigger] list@[j]@ == pane_shell_names()[j] by {}
    }
    let r = in_list(&n, &list);
    proof {
        if r {
            let j = choose|j: int| 0 <= j < list@.len() && n@ == list@[j]@;
            assert(pane_shell_names()[j] == n@);
        } else {
            assert forall|j: int| 0 <= j < pane_shell_names().len() implies pane_shell_names()[j] != n@ by {
                assert(list@[j]@ == pane_shell_names()[j]);
            }
        }
    }
    r
}

/// The shell a pane's job is still sitting in: the job is the pane's own
/// child alone (its process group, and no other process), and that process
/// is an interactive shell.
pub open spec fn pane_shell_of_job(child_pid: u32, job: ForegroundJob) -> Option<Seq<char>> {
    let ps = job.processes@;
    if job.process_group_id != child_pid || exists|i: int| 0 <= i < ps.len() && #[trigger] ps[i].pid != child_pid {
        None
    } else if ps.len() > 0 && pane_shell_names().contains(shell_name(ps[0].name@)) {
        Some(ps[0].name@)
    } else {
        None
    }
}

/// The shell a pane's child still runs, if its foreground job is just that
/// shell.
pub fn available_pane_shell_from_job(child_pid: u32, job: ForegroundJob) -> (r: Option<String>)
    ensures
        match pane_shell_of_job(child_pid, job) {
            Some(name) => r matches Some(s) && s@ == name,
            None => r is None,
        },
{
    if job.process_group_id != child_pid {
        return None;
    }
    let mut i: usize = 0;
    while i < job.processes.len()
        invariant
            i <= job.processes@.len(),
            forall|q: int| 0 <= q < i ==> job.processes@[q].pid == child_pid,
        decreases job.processes@.len() - i,
    {
        if job.processes[i].pid != child_pid {
            return None;
        }
        i += 1;
    }
    if job.processes.len() == 0 {
        return None;
    }
    let shell = is_pane_shell_process_name(job.processes[0].name.as_str());
    if shell {
        Some(job.processes[0].name.clone())
    } else {
        None
    }
}

pub open spec fn is_powershell_name(name: Seq<char>) -> bool {
    let n = shell_name(name);
    n == seq!['p', 'w', 's', 'h'] || n == seq!['p', 'o', 'w', 'e', 'r', 's', 'h', 'e', 'l', 'l']
}

/// Whether a process name is PowerShell (`pwsh` or Windows PowerShell).
pub fn is_powershell_process_name(name: &str) -> (r: bool)
    ensures
        r == is_powershell_name(name@),
{
    let n = normalized_shell_name(name);
    proof {
        reveal_strlit("pwsh");
        reveal_strlit("powershell");
        assert("pwsh"@ =~= seq!['p', 'w', 's', 'h']);
        assert("powershell"@ =~= seq!['p', 'o', 'w', 'e', 'r', 's', 'h', 'e', 'l', 'l']);
    }
    eq_lit(&n, "pwsh") || eq_lit(&n, "powershell")
}

pub open spec fn ascii_alnum(c: char) -> bool {
    ('0' <= c && c <= '9') || ('a' <= c && c <= 'z') || ('A' <= c && c <= 'Z')
}

/// Characters PowerShell takes literally in a bare word.
pub open spec fn powershell_bare(c: char) -> bool {
    ascii_alnum(c) || c == '_' || c == '-' || c == '.' || c == '/' || c == ':' || c == '+' || c == '='
}

/// Characters a POSIX shell takes literally in a bare word.
pub open spec fn posix_bare(c: char) -> bool {
    ascii_alnum(c) || c == '_' || c == '@' || c == '%' || c == '+' || c == '=' || c == ':' || c == ','
        || c == '.' || c == '/' || c == '-'
}

pub open spec fn all_powershell_bare(v: Seq<char>) -> bool {
    forall|i: int| 0 <= i < v.len() ==> powershell_bare(#[trigger] v[i])
}

pub open spec fn all_posix_bare(v: Seq<char>) -> bool {
    forall|i: int| 0 <= i < v.len() ==> posix_bare(#[trigger] v[i])
}

/// Inside PowerShell single quotes a quote is written twice.
pub open spec fn powershell_escaped(v: Seq<char>) -> Seq<char>
    decreases v.len(),
{
    if v.len() == 0 {
        Seq::empty()
    } else {
        powershell_escaped(v.drop_last()) + if v.last() == '\'' { seq!['\'', '\''] } else { seq![v.last()] }
    }
}

/// A POSIX single-quoted word closes, writes an escaped quote and reopens.
pub open spec fn posix_escaped(v: Seq<char>) -> Seq<char>
    decreases v.len(),
{
    if v.len() == 0 {
        Seq::empty()
    } else {
        posix_escaped(v.drop_last()) + if v.last() == '\'' { seq!['\'', '\\', '\'', '\''] } else { seq![v.last()] }
    }
}

/// A PowerShell argument: bare when it is a non-empty word of literal
/// characters that does not look like a parameter, single-quoted otherwise.
pub open spec fn powershell_quoted(v: Seq<char>) -> Seq<char> {
    if v.len() > 0 && v[0] != '-' && all_powershell_bare(v) {
        v
    } else {
        seq!['\''] + powershell_escaped(v) + seq!['\'']
    }
}

/// A POSIX shell argument: bare when it is a non-empty word of literal
/// characters, single-quoted otherwise.
pub open spec fn posix_quoted(v: Seq<char>) -> Seq<char> {
    if v.len() > 0 && all_posix_bare(v) {
        v
    } else {
        seq!['\''] + posix_escaped(v) + seq!['\'']
    }
}

fn is_ascii_alnum(c: char) -> (r: bool)
    ensures
        r == ascii_alnum(c),
{
    ('0' <= c && c <= '9') || ('a' <= c && c <= 'z') || ('A' <= c && c <= 'Z')
}

/// Appends `v` with each quote replaced: PowerShell doubles it, a POSIX
/// shell closes the quoted word around an escaped quote.
fn push_escaped(out: &mut Vec<char>, v: &Vec<char>, posix: bool)
    ensures
        final(out)@ == old(out)@ + if posix { posix_escaped(v@) } else { powershell_escaped(v@) },
{
    let mut i: usize = 0;
    while i < v.len()
        invariant
            i <= v@.len(),
            out@ == old(out)@ + if posix {
                posix_escaped(v@.subrange(0, i as int))
            } else {
                powershell_escaped(v@.subrange(0, i as int))
            },
        decreases v@.len() - i,
    {
        let c = v[i];
        let ghost pre = out@;
        if c == '\'' {
            if posix {
                out.push('\'');
                out.push('\\');
                out.push('\'');
                out.push('\'');
            } else {
                out.push('\'');
                out.push('\'');
            }
        } else {
            out.push(c);
        }
        proof {
            let t = v@.subrange(0, i + 1);
            assert(t.drop_last() =~= v@.subrange(0, i as int));
            assert(t.last() == c);
            if posix {
                assert(out@ =~= old(out)@ + posix_escaped(t));
            } else {
                assert(out@ =~= old(out)@ + powershell_escaped(t));
            }
        }
        i += 1;
    }
    assert(v@.subrange(0, i as int) =~= v@);
}

fn quote_chars(v: &Vec<char>, posix: bool) -> (r: Vec<char>)
    ensures
        r@ == if posix { posix_quoted(v@) } else { powershell_quoted(v@) },
{
    let mut bare = v.len() > 0 && (posix || v[0] != '-');
    let mut i: usize = 0;
    while bare && i < v.len()
        invariant
            i <= v@.len(),
            bare ==> forall|j: int| 0 <= j < i ==> if posix { posix_bare(#[trigger] v@[j]) } else { powershell_bare(v@[j]) },
            !bare ==> !(v@.len() > 0 && (posix || v@[0] != '-') && (if posix { all_posix_bare(v@) } else { all_powershell_bare(v@) })),
            bare ==> v@.len() > 0 && (posix || v@[0] != '-'),
        decreases v@.len() - i,
    {
        let c = v[i];
        let ok = is_ascii_alnum(c) || c == '_' || c == '-' || c == '.' || c == '/' || c == ':' || c == '+'
            || c == '=' || (posix && (c == '@' || c == '%' || c == ','));
        if !ok {
            bare = false;
        }
        i += 1;
    }
    if bare {
        let mut out: Vec<char> = Vec::new();
        push_all(&mut out, v);
        return out;
    }
    let mut out: Vec<char> = vec!['\''];
    push_escaped(&mut out, v, posix);
    out.push('\'');
    out
}

/// Quotes an argument for PowerShell.
pub fn quote_powershell_arg(value: &str) -> (r: String)
    ensures
        r@ == powershell_quoted(value@),
{
    string_of_chars(&quote_chars(&chars_of(value), false))
}

/// Quotes an argument for a POSIX shell.
pub fn quote_posix_arg(value: &str) -> (r: String)
    ensures
        r@ == posix_quoted(value@),
{
    string_of_chars(&quote_chars(&chars_of(value), true))
}

/// Quoted arguments joined by single spaces.
pub open spec fn joined(parts: Seq<Seq<char>>) -> Seq<char>
    decreases parts.len(),
{
    if parts.len() == 0 {
        Seq::empty()
    } else if parts.len() == 1 {
        parts[0]
    } else {
        joined(parts.drop_last()) + seq![' '] + parts.last()
    }
}

/// The command line that re-runs `argv` in the pane's interactive shell,
/// quoted for PowerShell when that shell is PowerShell and for a POSIX shell
/// otherwise; nothing for an empty argv.
pub open spec fn shell_command_line(argv: Seq<Seq<char>>, shell: Seq<char>) -> Option<Seq<char>> {
    if argv.len() == 0 {
        None
    } else {
        let ps = is_powershell_name(shell);
        Some(joined(argv.map_values(|a: Seq<char>| if ps { powershell_quoted(a) } else { posix_quoted(a) })))
    }
}

/// Builds the command line that re-runs `argv` from the pane's shell.
pub fn interactive_shell_command(argv: &Vec<String>, shell_name: &str) -> (r: Option<String>)
    ensures
        match shell_command_line(argv@.map_values(|a: String| a@), shell_name@) {
            Some(line) => r matches Some(s) && s@ == line,
            None => r is None,
        },
{
    let ghost args = argv@.map_values(|a: String| a@);
    let ps = is_powershell_process_name(shell_name);
    if argv.len() == 0 {
        return None;
    }
    let ghost quoted = args.map_values(|a: Seq<char>| if ps { powershell_quoted(a) } else { posix_quoted(a) });
    let mut out: Vec<char> = quote_chars(&chars_of(argv[0].as_str()), !ps);
    assert(quoted.subrange(0, 1) =~= seq![quoted[0]]);
    let mut i: usize = 1;
    while i < argv.len()
        invariant
            1 <= i <= argv@.len(),
            args == argv@.map_values(|a: String| a@),
            quoted == args.map_values(|a: Seq<char>| if ps { powershell_quoted(a) } else { posix_quoted(a) }),
            out@ == joined(quoted.subrange(0, i as int)),
        decreases argv@.len() - i,
    {
        out.push(' ');
        let q = quote_chars(&chars_of(argv[i].as_str()), !ps);
        push_all(&mut out, &q);
        assert(quoted.subrange(0, i + 1).drop_last() =~= quoted.subrange(0, i as int));
        i += 1;
    }
    assert(quoted.subrange(0, i as int) =~= quoted);
    Some(string_of_chars(&out))
}

pub open spec fn backslashes(n: nat) -> Seq<char> {
    Seq::new(n, |i: int| '\\')
}

pub open spec fn windows_special(c: char) -> bool {
    c == ' ' || c == '\t' || c == '\n' || c == '\x0b' || c == '"'
}

/// The inside of a quoted Windows argument, with `k` backslashes pending:
/// backslashes before a quote are doubled and the quote escaped, those at the
/// end are doubled (they precede the closing quote), the rest are literal.
pub open spec fn windows_body(v: Seq<char>, k: nat) -> Seq<char>
    decreases v.len(),
{
    if v.len() == 0 {
        backslashes(2 * k)
    } else if v[0] == '\\' {
        windows_body(v.drop_first(), k + 1)
    } else if v[0] == '"' {
        backslashes(2 * k + 1) + seq!['"'] + windows_body(v.drop_first(), 0)
    } else {
        backslashes(k) + seq![v[0]] + windows_body(v.drop_first(), 0)
    }
}

/// An argument for a Windows command line (`CommandLineToArgvW` rules):
/// bare unless empty or holding whitespace or a quote.
pub open spec fn windows_quoted(v: Seq<char>) -> Seq<char> {
    if v.len() > 0 && forall|i: int| 0 <= i < v.len() ==> !windows_special(#[trigger] v[i]) {
        v
    } else {
        seq!['"'] + windows_body(v, 0) + seq!['"']
    }
}

fn push_backslashes(out: &mut Vec<char>, n: usize)
    ensures
        final(out)@ == old(out)@ + backslashes(n as nat),
{
    let mut i: usize = 0;
    while i < n
        invariant
            i <= n,
            out@ == old(out)@ + backslashes(i as nat),
        decreases n - i,
    {
        out.push('\\');
        assert(out@ =~= old(out)@ + backslashes((i + 1) as nat));
        i += 1;
    }
}

/// Quotes an argument for a Windows command line.
pub fn quote_windows_command_line_arg(value: &str) -> (r: String)
    ensures
        r@ == windows_quoted(value@),
{
    let v = chars_of(value);
    let mut plain = v.len() > 0;
    let mut j: usize = 0;
    while plain && j < v.len()
        invariant
            j <= v@.len(),
            plain ==> v@.len() > 0 && forall|m: int| 0 <= m < j ==> !windows_special(#[trigger] v@[m]),
            !plain ==> !(v@.len() > 0 && forall|m: int| 0 <= m < v@.len() ==> !windows_special(#[trigger] v@[m])),
        decreases v@.len() - j,
    {
        let c = v[j];
        if c == ' ' || c == '\t' || c == '\n' || c == '\x0b' || c == '"' {
            plain = false;
        }
        j += 1;
    }
    if plain {
        return string_of_chars(&v);
    }
    let mut out: Vec<char> = vec!['"'];
    let mut k: usize = 0;
    let mut i: usize = 0;
    assert(v@.skip(0) =~= v@);
    while i < v.len()
        invariant
            i <= v@.len(),
            k <= i,
            out@ + windows_body(v@.skip(i as int), k as nat) == seq!['"'] + windows_body(v@, 0),
        decreases v@.len() - i,
    {
        let c = v[i];
        let ghost rest = v@.skip(i as int);
        assert(rest.drop_first() =~= v@.skip(i + 1));
        assert(rest[0] == c);
        if c == '\\' {
            k += 1;
        } else if c == '"' {
            let ghost pre = out@;
            push_backslashes(&mut out, k);
            push_backslashes(&mut out, k);
            out.push('\\');
            out.push('"');
            assert(out@ =~= pre + backslashes((2 * k + 1) as nat) + seq!['"']);
            k = 0;
        } else {
            let ghost pre = out@;
            push_backslashes(&mut out, k);
            out.push(c);
            assert(out@ =~= pre + backslashes(k as nat) + seq![c]);
            k = 0;
        }
        i += 1;
    }
    let ghost pre = out@;
    push_backslashes(&mut out, k);
    push_backslashes(&mut out, k);
    out.push('"');
    proof {
        assert(v@.skip(i as int) =~= Seq::<char>::empty());
        assert(backslashes(k as nat) + backslashes(k as nat) =~= backslashes((2 * k) as nat));
        assert(out@ =~= pre + windows_body(v@.skip(i as int), k as nat) + seq!['"']);
    }
    string_of_chars(&out)
}

/// `HERDR_AGENT=`, the environment entry a launcher sets to name its agent.
pub open spec fn hint_key() -> Seq<u8> {
    seq![72u8, 69, 82, 68, 82, 95, 65, 71, 69, 78, 84, 61]
}

/// The value of the first `HERDR_AGENT=` entry of a NUL-separated
/// environment block, scanning the entries from `from`.
pub open spec fn hint_value(env: Seq<u8>, from: int) -> Option<Seq<u8>>
    decreases env.len() - from,
{
    if from < 0 || from > env.len() {
        None
    } else {
        let end = find_byte(env, 0, from);
        let record = env.subrange(from, end);
        proof {
            lemma_find_byte_bounds(env, 0, from);
        }
        if record.len() >= 12 && record.take(12) == hint_key() {
            Some(record.skip(12))
        } else if end >= env.len() {
            None
        } else {
            hint_value(env, end + 1)
        }
    }
}

/// The agent the environment names: the first `HERDR_AGENT=` value, as UTF-8,
/// parsed as an agent label (alias or versioned process name, after trimming,
/// lowercasing, dropping a script suffix and any directory).
pub open spec fn agent_env_hint(reg: AgentRegistry, env: Seq<u8>) -> Option<Agent> {
    match hint_value(env, 0) {
        None => None,
        Some(v) => if vstd::utf8::valid_utf8(v) {
            spec_parse_label(reg, vstd::utf8::decode_utf8(v))
        } else {
            None
        },
    }
}

/// The agent named by a process environment block, against a registry.
pub fn parse_agent_env_hint_with_registry(registry: &AgentRegistry, environ: &[u8]) -> (r: Option<Agent>)
    ensures
        r == agent_env_hint(*registry, environ@),
{
    let mut env: Vec<u8> = Vec::new();
    let mut k: usize = 0;
    while k < environ.len()
        invariant
            k <= environ@.len(),
            env@ == environ@.take(k as int),
        decreases environ@.len() - k,
    {
        env.push(environ[k]);
        assert(env@ =~= environ@.take(k + 1));
        k += 1;
    }
    assert(env@ =~= environ@);
    let key: Vec<u8> = vec![72u8, 69, 82, 68, 82, 95, 65, 71, 69, 78, 84, 61];
    let mut from: usize = 0;
    while from <= env.len()
        invariant
            from <= env@.len() + 1,
            env@ == environ@,
            key@ == hint_key(),
            from <= env@.len() ==> hint_value(env@, from as int) == hint_value(env@, 0),
            from > env@.len() ==> hint_value(env@, 0) is None,
        decreases env@.len() + 1 - from,
    {
        let len = find_byte_range(&env, from, env.len(), 0);
        let end = from + len;
        proof {
            lemma_find_byte_bounds(env@.subrange(from as int, env@.len() as int), 0, 0);
            lemma_find_byte_range_shift(env@, from as int);
        }
        let ghost record = env@.subrange(from as int, end as int);
        if len >= 12 {
            let mut same = true;
            let mut j: usize = 0;
            while j < 12
                invariant
                    j <= 12,
                    from + 12 <= end <= env@.len(),
                    key@ == hint_key(),
                    record == env@.subrange(from as int, end as int),
                    same <==> forall|m: int| 0 <= m < j ==> record[m] == key@[m],
                decreases 12 - j,
            {
                assert(record[j as int] == env@[from + j]);
                if env[from + j] != key[j] {
                    same = false;
                }
                j += 1;
            }
            if same {
                assert(record.take(12) =~= hint_key());
                let mut value: Vec<u8> = Vec::new();
                let mut m: usize = from + 12;
                while m < end
                    invariant
                        from + 12 <= m <= end <= env@.len(),
                        value@ == env@.subrange(from + 12, m as int),
                    decreases end - m,
                {
                    value.push(env[m]);
                    assert(value@ =~= env@.subrange(from + 12, m + 1));
                    m += 1;
                }
                assert(value@ =~= record.skip(12));
                return match utf8_text(value.as_slice()) {
                    Some(text) => parse_agent_label(registry, text.as_str()),
                    None => None,
                };
            } else {
                assert(record.take(12) != hint_key()) by {
                    let m = choose|m: int| 0 <= m < 12 && record[m] != key@[m];
                    assert(record.take(12)[m] != hint_key()[m]);
                }
            }
        }
        if end >= env.len() {
            return None;
        }
        from = end + 1;
    }
    None
}

proof fn lemma_find_byte_range_shift(s: Seq<u8>, from: int)
    requires
        0 <= from <= s.len(),
    ensures
        find_byte(s, 0, from) == from + find_byte(s.subrange(from, s.len() as int), 0, 0),
    decreases s.len() - from,
{
    let t = s.subrange(from, s.len() as int);
    lemma_find_byte_shift(s, from, 0);
}

proof fn lemma_find_byte_shift(s: Seq<u8>, from: int, j: int)
    requires
        0 <= from <= s.len(),
        0 <= j <= s.len() - from,
    ensures
        find_byte(s, 0, from + j) == from + find_byte(s.subrange(from, s.len() as int), 0, j),
    decreases s.len() - from - j,
{
    let t = s.subrange(from, s.len() as int);
    if j < t.len() {
        assert(t[j] == s[from + j]);
        if s[from + j] != 0 {
            lemma_find_byte_shift(s, from, j + 1);
        }
    }
}

/// The agent named by a process environment block, against the built-in
/// registry.
pub fn parse_agent_env_hint(environ: &[u8]) -> (r: Option<Agent>)
    ensures
        exists|reg: AgentRegistry| crate::builtin_agents::is_builtin_registry(reg) && registry_wf(reg)
            && r == agent_env_hint(reg, environ@),
{
    let registry = crate::builtin_agents::registry();
    parse_agent_env_hint_with_registry(&registry, environ)
}

#[verifier::external_type_specification]
#[verifier::external_body]
pub struct ExIoError(std::io::Error);

/// What a bounded read produced.
#[derive(Debug, PartialEq, Eq)]
pub enum LimitedRead {
    Empty,
    Complete(Vec<u8>),
    Oversized,
}

/// The most bytes one read of a bounded read asks for.
pub const LIMITED_READ_CHUNK: usize = 8192;

/// How many bytes the next read asks for after `filled` of at most
/// `max_bytes` bytes: the rest of the allowance in chunks of at most
/// `LIMITED_READ_CHUNK`, then one byte to see whether more follows.
pub open spec fn limited_read_request_spec(filled: int, max_bytes: int) -> int {
    if filled < max_bytes {
        if max_bytes - filled < LIMITED_READ_CHUNK { max_bytes - filled } else { LIMITED_READ_CHUNK as int }
    } else {
        1
    }
}

/// The size of the next read of a bounded read.
pub fn limited_read_request(filled: usize, max_bytes: usize) -> (r: usize)
    requires
        filled <= max_bytes,
    ensures
        r == limited_read_request_spec(filled as int, max_bytes as int),
        r > 0,
{
    if filled < max_bytes {
        let remaining = max_bytes - filled;
        if remaining < LIMITED_READ_CHUNK { remaining } else { LIMITED_READ_CHUNK }
    } else {
        1
    }
}

/// What a bounded read does after one read.
#[derive(Debug, PartialEq, Eq)]
pub enum LimitedReadProgress {
    /// Read on, holding these bytes.
    Continue(Vec<u8>),
    /// The read is over.
    Done(LimitedRead),
}

/// The step of a bounded read after a read that returned `chunk` (empty at
/// end of input), `bytes` having been read before: at end of input the
/// bytes read so far, empty or complete; past the allowance, `Oversized`;
/// otherwise read on with `chunk` appended.
pub fn limited_read_progress(bytes: Vec<u8>, chunk: &Vec<u8>, max_bytes: usize) -> (r: LimitedReadProgress)
    requires
        bytes@.len() <= max_bytes,
    ensures
        chunk@.len() == 0 && bytes@.len() == 0 ==> r == LimitedReadProgress::Done(LimitedRead::Empty),
        chunk@.len() == 0 && bytes@.len() > 0 ==> (r matches LimitedReadProgress::Done(LimitedRead::Complete(v)) && v@ == bytes@),
        chunk@.len() > 0 && bytes@.len() == max_bytes ==> r == LimitedReadProgress::Done(LimitedRead::Oversized),
        chunk@.len() > 0 && bytes@.len() < max_bytes ==> (r matches LimitedReadProgress::Continue(v) && v@ == bytes@ + chunk@),
{
    if chunk.len() == 0 {
        if bytes.len() == 0 {
            LimitedReadProgress::Done(LimitedRead::Empty)
        } else {
            LimitedReadProgress::Done(LimitedRead::Complete(bytes))
        }
    } else if bytes.len() == max_bytes {
        LimitedReadProgress::Done(LimitedRead::Oversized)
    } else {
        let mut out = bytes;
        let ghost before = out@;
        let mut i: usize = 0;
        while i < chunk.len()
            invariant
                i <= chunk@.len(),
                out@ == before + chunk@.take(i as int),
            decreases chunk@.len() - i,
        {
            out.push(chunk[i]);
            proof {
                assert(chunk@.take(i + 1) =~= chunk@.take(i as int).push(chunk@[i as int]));
            }
            i += 1;
        }
        assert(chunk@.take(chunk@.len() as int) =~= chunk@);
        LimitedReadProgress::Continue(out)
    }
}

/// The bytes of the reads `cs`, in order.
#[verifier::opaque]
pub open spec fn flatten_reads(cs: Seq<Seq<u8>>) -> Seq<u8>
    decreases cs.len(),
{
    if cs.len() == 0 {
        Seq::empty()
    } else {
        flatten_reads(cs.drop_last()) + cs.last()
    }
}

/// Each read of `cs` returned data, at most what it asked for, while the
/// allowance `max_bytes` was not yet filled.
pub open spec fn filling_reads(cs: Seq<Seq<u8>>, max_bytes: int) -> bool {
    forall|j: int| 0 <= j < cs.len() ==> #[trigger] read_fits(cs, j, max_bytes)
}

/// Read `j` of `cs` came while the allowance was not yet filled, returned
/// data, and no more than it asked for.
pub open spec fn read_fits(cs: Seq<Seq<u8>>, j: int, max_bytes: int) -> bool {
    let before = flatten_reads(cs.take(j)).len() as int;
    &&& before < max_bytes
    &&& 0 < cs[j].len() <= limited_read_request_spec(before, max_bytes)
}

/// A bounded read that read `cs` and then a last read of `last` bytes that
/// ended it: end of input (`last == 0`), or the one byte past the allowance.
pub open spec fn limited_read_trace(cs: Seq<Seq<u8>>, last: int, max_bytes: int) -> bool {
    &&& filling_reads(cs, max_bytes)
    &&& flatten_reads(cs).len() <= max_bytes
    &&& flatten_reads(cs).len() < max_bytes ==> last == 0
    &&& flatten_reads(cs).len() == max_bytes ==> 0 <= last <= 1
}

/// What such a read gives: nothing, the complete input, or `Oversized`.
pub open spec fn limited_read_outcome(x: LimitedRead, cs: Seq<Seq<u8>>, last: int) -> bool {
    match x {
        LimitedRead::Empty => last == 0 && flatten_reads(cs).len() == 0,
        LimitedRead::Complete(v) => last == 0 && flatten_reads(cs).len() > 0 && v@ == flatten_reads(cs),
        LimitedRead::Oversized => last > 0,
    }
}

proof fn lemma_filling_push(cs: Seq<Seq<u8>>, c: Seq<u8>, max_bytes: int)
    requires
        filling_reads(cs, max_bytes),
        flatten_reads(cs).len() < max_bytes,
        0 < c.len() <= limited_read_request_spec(flatten_reads(cs).len() as int, max_bytes),
    ensures
        filling_reads(cs.push(c), max_bytes),
        flatten_reads(cs.push(c)) == flatten_reads(cs) + c,
{
    let ds = cs.push(c);
    assert(ds.drop_last() =~= cs);
    assert(flatten_reads(ds) == flatten_reads(cs) + c) by {
        reveal(flatten_reads);
    }
    assert forall|j: int| 0 <= j < ds.len() implies #[trigger] read_fits(ds, j, max_bytes) by {
        if j < cs.len() {
            assert(ds.take(j) =~= cs.take(j));
            assert(read_fits(cs, j, max_bytes));
        } else {
            assert(ds.take(j) =~= cs);
        }
    }
}

/// One read of `std::io::Read::read` into `buf`; an interruption is told
/// apart from other errors. `Read::read` documents that the count it
/// returns is at most the buffer's length; what lands in the buffer depends
/// on the reader and is not stated.
#[verifier::external_body]
fn read_once<R: std::io::Read>(reader: &mut R, buf: &mut Vec<u8>) -> (r: ReadAttempt)
    ensures
        final(buf)@.len() == old(buf)@.len(),
        r matches ReadAttempt::Read(n) ==> n <= old(buf)@.len(),
{
    match reader.read(buf.as_mut_slice()) {
        Ok(n) => ReadAttempt::Read(n),
        Err(error) => if error.kind() == std::io::ErrorKind::Interrupted {
            ReadAttempt::Interrupted(error)
        } else {
            ReadAttempt::Failed(error)
        },
    }
}

/// What one read gave: a count of bytes, an interruption, or an error.
pub enum ReadAttempt {
    Read(usize),
    Interrupted(std::io::Error),
    Failed(std::io::Error),
}

fn zeroed(len: usize) -> (r: Vec<u8>)
    ensures
        r@.len() == len,
{
    let mut out: Vec<u8> = Vec::new();
    let mut i: usize = 0;
    while i < len
        invariant
            i <= len,
            out@.len() == i,
        decreases len - i,
    {
        out.push(0);
        i += 1;
    }
    out
}

fn prefix(buf: &Vec<u8>, n: usize) -> (r: Vec<u8>)
    requires
        n <= buf@.len(),
    ensures
        r@ == buf@.take(n as int),
{
    let mut out: Vec<u8> = Vec::new();
    let mut i: usize = 0;
    while i < n
        invariant
            i <= n,
            n <= buf@.len(),
            out@ == buf@.take(i as int),
        decreases n - i,
    {
        out.push(buf[i]);
        proof {
            assert(buf@.take(i + 1) =~= buf@.take(i as int).push(buf@[i as int]));
        }
        i += 1;
    }
    out
}

/// Reads a whole input of at most `max_bytes` bytes: empty input, the
/// complete input, or `Oversized` when more than `max_bytes` bytes follow.
/// It reads the allowance in chunks of at most `LIMITED_READ_CHUNK` bytes
/// until end of input, then one byte more; interrupted reads are retried
/// (up to `u64::MAX` times in all, after which the interruption is
/// returned) and other errors are returned. Whatever the reader gives, the
/// result is the outcome of such a sequence of reads.
pub fn read_limited_reader<R: std::io::Read>(reader: R, max_bytes: usize) -> (r: Result<LimitedRead, std::io::Error>)
    ensures
        r matches Ok(x) ==> exists|cs: Seq<Seq<u8>>, last: int|
            limited_read_trace(cs, last, max_bytes as int) && limited_read_outcome(x, cs, last),
{
    let mut reader = reader;
    let mut bytes: Vec<u8> = Vec::new();
    let mut retries: u64 = u64::MAX;
    let ghost mut cs: Seq<Seq<u8>> = Seq::empty();
    assert(flatten_reads(cs) =~= Seq::<u8>::empty()) by {
        reveal(flatten_reads);
    }
    loop
        invariant
            bytes@.len() <= max_bytes,
            bytes@ == flatten_reads(cs),
            filling_reads(cs, max_bytes as int),
        decreases max_bytes - bytes@.len(), retries,
    {
        let request = limited_read_request(bytes.len(), max_bytes);
        let mut buf = zeroed(request);
        match read_once(&mut reader, &mut buf) {
            ReadAttempt::Read(n) => {
                let chunk = prefix(&buf, n);
                let ghost before = bytes@;
                match limited_read_progress(bytes, &chunk, max_bytes) {
                    LimitedReadProgress::Continue(v) => {
                        proof {
                            lemma_filling_push(cs, chunk@, max_bytes as int);
                            cs = cs.push(chunk@);
                        }
                        bytes = v;
                    },
                    LimitedReadProgress::Done(x) => {
                        proof {
                            assert(limited_read_trace(cs, chunk@.len() as int, max_bytes as int));
                            assert(limited_read_outcome(x, cs, chunk@.len() as int));
                        }
                        return Ok(x);
                    },
                }
            },
            ReadAttempt::Interrupted(error) => {
                if retries == 0 {
                    return Err(error);
                }
                retries = retries - 1;
            },
            ReadAttempt::Failed(error) => {
                return Err(error);
            },
        }
    }
}

/// The first index at or after `i` that does not hold white space.
pub open spec fn skip_ws(s: Seq<char>, i: int) -> int
    decreases s.len() - i,
{
    if 0 <= i < s.len() && is_ws(s[i]) {
        skip_ws(s, i + 1)
    } else {
        i
    }
}

/// The first index at or after `i` that holds white space, or the end.
pub open spec fn word_end(s: Seq<char>, i: int) -> int
    decreases s.len() - i,
{
    if 0 <= i < s.len() && !is_ws(s[i]) {
        word_end(s, i + 1)
    } else {
        i
    }
}

pub proof fn lemma_skip_ws_bounds(s: Seq<char>, i: int)
    requires
        0 <= i <= s.len(),
    ensures
        i <= skip_ws(s, i) <= s.len(),
        skip_ws(s, i) < s.len() ==> !is_ws(s[skip_ws(s, i)]),
    decreases s.len() - i,
{
    if i < s.len() && is_ws(s[i]) {
        lemma_skip_ws_bounds(s, i + 1);
    }
}

pub proof fn lemma_word_end_bounds(s: Seq<char>, i: int)
    requires
        0 <= i <= s.len(),
    ensures
        i <= word_end(s, i) <= s.len(),
        i < s.len() && !is_ws(s[i]) ==> i < word_end(s, i),
    decreases s.len() - i,
{
    if i < s.len() && !is_ws(s[i]) {
        lemma_word_end_bounds(s, i + 1);
    }
}

/// The `k`-th word of `s` from index `i` on, the words being the runs
/// between white space that `str::split_whitespace` yields.
pub open spec fn nth_word(s: Seq<char>, i: int, k: nat) -> Option<Seq<char>>
    decreases s.len() - i,
{
    if 0 <= i <= s.len() {
        let a = skip_ws(s, i);
        proof {
            lemma_skip_ws_bounds(s, i);
        }
        if a >= s.len() {
            None
        } else {
            let b = word_end(s, a);
            proof {
                lemma_word_end_bounds(s, a);
            }
            if k == 0 {
                Some(s.subrange(a, b))
            } else {
                nth_word(s, b, (k - 1) as nat)
            }
        }
    } else {
        None
    }
}

/// The parent pid in a `/proc/<pid>/stat` line: after the last `)` (which
/// closes the command name), the word after the state.
pub open spec fn stat_parent_pid(stat: Seq<char>) -> Option<u32> {
    match last_index_of(stat, ')') {
        Some(j) => match nth_word(stat, j + 1, 1) {
            Some(w) => parse_u32(w),
            None => None,
        },
        None => None,
    }
}

fn skip_ws_from(s: &Vec<char>, i: usize) -> (r: usize)
    requires
        i <= s@.len(),
    ensures
        r == skip_ws(s@, i as int),
        i <= r <= s@.len(),
{
    let mut j = i;
    while j < s.len() && is_whitespace(s[j])
        invariant
            i <= j <= s@.len(),
            skip_ws(s@, i as int) == skip_ws(s@, j as int),
        decreases s@.len() - j,
    {
        j += 1;
    }
    j
}

fn word_end_from(s: &Vec<char>, i: usize) -> (r: usize)
    requires
        i <= s@.len(),
    ensures
        r == word_end(s@, i as int),
        i <= r <= s@.len(),
{
    let mut j = i;
    while j < s.len() && !is_whitespace(s[j])
        invariant
            i <= j <= s@.len(),
            word_end(s@, i as int) == word_end(s@, j as int),
        decreases s@.len() - j,
    {
        j += 1;
    }
    j
}

/// The parent pid of a process from the text of its `/proc/<pid>/stat`.
pub fn parse_stat_parent_pid(stat: &str) -> (r: Option<u32>)
    ensures
        r == stat_parent_pid(stat@),
{
    let s = chars_of(stat);
    assert(s@.take(s@.len() as int) =~= s@);
    let close = match last_index(&s, s.len(), ')') {
        Some(j) => j,
        None => return None,
    };
    let mut i: usize = close + 1;
    let mut k: usize = 0;
    while k <= 1
        invariant
            close < s@.len(),
            s@ == stat@,
            k <= 1,
            close + 1 <= i <= s@.len(),
            nth_word(s@, close + 1, 1) == nth_word(s@, i as int, (1 - k) as nat),
            stat_parent_pid(stat@) == match nth_word(s@, close + 1, 1) {
                Some(w) => parse_u32(w),
                None => None,
            },
        decreases 2 - k,
    {
        let a = skip_ws_from(&s, i);
        if a >= s.len() {
            return None;
        }
        let b = word_end_from(&s, a);
        proof {
            lemma_word_end_bounds(s@, a as int);
        }
        if k == 1 {
            let word = slice_chars(&s, a, b);
            return parse_u32_chars(&word);
        }
        i = b;
        k += 1;
    }
    None
}

/// What the platform the server runs on supports.
#[derive(Debug, Clone, Copy, PartialEq, Eq, Structural)]
pub struct PlatformCapabilities {
    pub live_handoff: bool,
    pub direct_terminal_attach: bool,
    pub preserve_legacy_doubled_escape_input: bool,
}

/// Live handoff and direct terminal attach need Unix; the doubled-escape
/// input of older clients is kept on macOS.
pub fn capabilities(unix: bool, macos: bool) -> (r: PlatformCapabilities)
    ensures
        r.live_handoff == unix,
        r.direct_terminal_attach == unix,
        r.preserve_legacy_doubled_escape_input == macos,
{
    PlatformCapabilities {
        live_handoff: unix,
        direct_terminal_attach: unix,
        preserve_legacy_doubled_escape_input: macos,
    }
}

/// A terminal grid size as reported, refused when either side is zero.
pub fn usable_grid_size(cols: u16, rows: u16) -> (r: Option<(u16, u16)>)
    ensures
        r == if cols == 0 || rows == 0 {
            None::<(u16, u16)>
        } else {
            Some((cols, rows))
        },
{
    if cols == 0 || rows == 0 {
        None
    } else {
        Some((cols, rows))
    }
}

/// The kinds of I/O error the library's decisions depend on; every other
/// kind is `Other`.
#[derive(Debug, Clone, Copy, PartialEq, Eq, Structural)]
pub enum IoErrorKind {
    NotFound,
    PermissionDenied,
    ConnectionRefused,
    TimedOut,
    WouldBlock,
    Interrupted,
    ResourceBusy,
    CrossesDevices,
    BrokenPipe,
    ConnectionAborted,
    ConnectionReset,
    NotConnected,
    UnexpectedEof,
    WriteZero,
    Unsupported,
    AlreadyExists,
    InvalidInput,
    Other,
}

/// How a POSIX shell reads a word made of bare characters, single-quoted
/// runs and backslash escapes (`quoted`: inside single quotes).
pub open spec fn posix_word(t: Seq<char>, quoted: bool) -> Seq<char>
    decreases t.len(),
{
    if t.len() == 0 {
        Seq::empty()
    } else if quoted {
        if t[0] == '\'' {
            posix_word(t.skip(1), false)
        } else {
            seq![t[0]] + posix_word(t.skip(1), true)
        }
    } else if t[0] == '\'' {
        posix_word(t.skip(1), true)
    } else if t[0] == '\\' && t.len() >= 2 {
        seq![t[1]] + posix_word(t.skip(2), false)
    } else {
        seq![t[0]] + posix_word(t.skip(1), false)
    }
}

/// How PowerShell reads a word made of bare characters and single-quoted
/// strings in which `''` stands for one quote.
pub open spec fn powershell_word(t: Seq<char>, quoted: bool) -> Seq<char>
    decreases t.len(),
{
    if t.len() == 0 {
        Seq::empty()
    } else if quoted {
        if t[0] == '\'' {
            if t.len() >= 2 && t[1] == '\'' {
                seq!['\''] + powershell_word(t.skip(2), true)
            } else {
                powershell_word(t.skip(1), false)
            }
        } else {
            seq![t[0]] + powershell_word(t.skip(1), true)
        }
    } else if t[0] == '\'' {
        powershell_word(t.skip(1), true)
    } else {
        seq![t[0]] + powershell_word(t.skip(1), false)
    }
}

proof fn lemma_posix_bare_word(v: Seq<char>)
    requires
        all_posix_bare(v),
    ensures
        posix_word(v, false) == v,
    decreases v.len(),
{
    if v.len() > 0 {
        assert(posix_bare(v[0]));
        assert forall|i: int| 0 <= i < v.skip(1).len() implies posix_bare(#[trigger] v.skip(1)[i]) by {
            assert(v.skip(1)[i] == v[i + 1]);
        }
        lemma_posix_bare_word(v.skip(1));
        assert(seq![v[0]] + v.skip(1) =~= v);
    }
}

proof fn lemma_powershell_bare_word(v: Seq<char>)
    requires
        all_powershell_bare(v),
    ensures
        powershell_word(v, false) == v,
    decreases v.len(),
{
    if v.len() > 0 {
        assert(powershell_bare(v[0]));
        assert forall|i: int| 0 <= i < v.skip(1).len() implies powershell_bare(#[trigger] v.skip(1)[i]) by {
            assert(v.skip(1)[i] == v[i + 1]);
        }
        lemma_powershell_bare_word(v.skip(1));
        assert(seq![v[0]] + v.skip(1) =~= v);
    }
}

proof fn lemma_posix_escaped_word(v: Seq<char>, rest: Seq<char>)
    ensures
        posix_word(posix_escaped(v) + rest, true) == v + posix_word(rest, true),
    decreases v.len(),
{
    if v.len() == 0 {
        assert(posix_escaped(v) + rest =~= rest);
        assert(v + posix_word(rest, true) =~= posix_word(rest, true));
    } else {
        let init = v.drop_last();
        let c = v.last();
        let piece = if c == '\'' { seq!['\'', '\\', '\'', '\''] } else { seq![c] };
        assert(posix_escaped(v) + rest =~= posix_escaped(init) + (piece + rest));
        lemma_posix_escaped_word(init, piece + rest);
        let t = piece + rest;
        if c == '\'' {
            assert(t.skip(1) =~= seq!['\\', '\'', '\''] + rest);
            assert(t.skip(1).skip(2) =~= seq!['\''] + rest);
            assert((seq!['\''] + rest).skip(1) =~= rest);
            assert(posix_word(t, true) == posix_word(t.skip(1), false));
            assert(posix_word(t.skip(1), false) == seq![t.skip(1)[1]] + posix_word(t.skip(1).skip(2), false));
            assert(posix_word(seq!['\''] + rest, false) == posix_word(rest, true));
        } else {
            assert(t.skip(1) =~= rest);
        }
        assert(init + (seq![c] + posix_word(rest, true)) =~= v + posix_word(rest, true));
    }
}

proof fn lemma_powershell_escaped_word(v: Seq<char>, rest: Seq<char>)
    ensures
        powershell_word(powershell_escaped(v) + rest, true) == v + powershell_word(rest, true),
    decreases v.len(),
{
    if v.len() == 0 {
        assert(powershell_escaped(v) + rest =~= rest);
        assert(v + powershell_word(rest, true) =~= powershell_word(rest, true));
    } else {
        let init = v.drop_last();
        let c = v.last();
        let piece = if c == '\'' { seq!['\'', '\''] } else { seq![c] };
        assert(powershell_escaped(v) + rest =~= powershell_escaped(init) + (piece + rest));
        lemma_powershell_escaped_word(init, piece + rest);
        let t = piece + rest;
        if c == '\'' {
            assert(t.skip(2) =~= rest);
        } else {
            assert(t.skip(1) =~= rest);
        }
        assert(init + (seq![c] + powershell_word(rest, true)) =~= v + powershell_word(rest, true));
    }
}

/// A POSIX shell reads a quoted argument back as the text it was given.
pub proof fn lemma_posix_quote_roundtrip(v: Seq<char>)
    ensures
        posix_word(posix_quoted(v), false) == v,
{
    if v.len() > 0 && all_posix_bare(v) {
        lemma_posix_bare_word(v);
    } else {
        let q = seq!['\''] + posix_escaped(v) + seq!['\''];
        assert(q.skip(1) =~= posix_escaped(v) + seq!['\'']);
        assert(posix_word(q, false) == posix_word(q.skip(1), true));
        lemma_posix_escaped_word(v, seq!['\'']);
        assert(seq!['\''].skip(1) =~= Seq::<char>::empty());
        assert(posix_word(seq!['\''], true) == posix_word(Seq::<char>::empty(), false));
        assert(v + Seq::<char>::empty() =~= v);
    }
}

/// PowerShell reads a quoted argument back as the text it was given.
pub proof fn lemma_powershell_quote_roundtrip(v: Seq<char>)
    ensures
        powershell_word(powershell_quoted(v), false) == v,
{
    if v.len() > 0 && v[0] != '-' && all_powershell_bare(v) {
        lemma_powershell_bare_word(v);
    } else {
        let q = seq!['\''] + powershell_escaped(v) + seq!['\''];
        assert(q.skip(1) =~= powershell_escaped(v) + seq!['\'']);
        assert(powershell_word(q, false) == powershell_word(q.skip(1), true));
        lemma_powershell_escaped_word(v, seq!['\'']);
        assert(seq!['\''].skip(1) =~= Seq::<char>::empty());
        assert(powershell_word(seq!['\''], true) == powershell_word(Seq::<char>::empty(), false));
        assert(v + Seq::<char>::empty() =~= v);
    }
}

/// Backslashes at the start of `t` from `i`.
pub open spec fn backslash_run(t: Seq<char>, i: int) -> nat
    decreases t.len() - i,
{
    if 0 <= i < t.len() && t[i] == '\\' {
        1 + backslash_run(t, i + 1)
    } else {
        0
    }
}

pub proof fn lemma_backslash_run_bounds(t: Seq<char>, i: int)
    requires
        0 <= i <= t.len(),
    ensures
        i + backslash_run(t, i) <= t.len(),
    decreases t.len() - i,
{
    if i < t.len() && t[i] == '\\' {
        lemma_backslash_run_bounds(t, i + 1);
    }
}

/// How a Windows program's start-up code (`CommandLineToArgvW`) reads one
/// argument: backslashes are literal unless they precede a quote, where each
/// pair gives one backslash and an odd one escapes the quote; an unescaped
/// quote opens or closes quoting.
pub open spec fn windows_arg(t: Seq<char>, quoted: bool) -> Seq<char>
    decreases t.len(),
{
    if t.len() == 0 {
        Seq::empty()
    } else if t[0] == '\\' {
        let n = backslash_run(t, 0);
        proof {
            lemma_backslash_run_bounds(t, 0);
        }
        if n < t.len() && t[n as int] == '"' {
            if n % 2 == 0 {
                backslashes(n / 2) + windows_arg(t.skip(n + 1int), !quoted)
            } else {
                backslashes(n / 2) + seq!['"'] + windows_arg(t.skip(n + 1int), quoted)
            }
        } else {
            backslashes(n) + windows_arg(t.skip(n as int), quoted)
        }
    } else if t[0] == '"' {
        windows_arg(t.skip(1), !quoted)
    } else {
        seq![t[0]] + windows_arg(t.skip(1), quoted)
    }
}

proof fn lemma_backslash_run_of(m: nat, rest: Seq<char>, i: int)
    requires
        0 <= i <= m,
        rest.len() == 0 || rest[0] != '\\',
    ensures
        backslash_run(backslashes(m) + rest, i) == m - i,
    decreases m - i,
{
    let t = backslashes(m) + rest;
    if i < m {
        assert(t[i] == '\\');
        lemma_backslash_run_of(m, rest, i + 1);
    } else if rest.len() > 0 {
        assert(t[i] == rest[0]);
    }
}

/// A run of backslashes not followed by a quote reads literally.
proof fn lemma_windows_backslashes_then(m: nat, rest: Seq<char>, quoted: bool)
    requires
        m > 0,
        rest.len() > 0,
        rest[0] != '\\',
        rest[0] != '"',
    ensures
        windows_arg(backslashes(m) + rest, quoted) == backslashes(m) + windows_arg(rest, quoted),
{
    let t = backslashes(m) + rest;
    lemma_backslash_run_of(m, rest, 0);
    assert(t[0] == '\\');
    assert(t[m as int] == rest[0]);
    assert(t.skip(m as int) =~= rest);
}

/// A run of backslashes followed by a quote: pairs become backslashes, an odd
/// one escapes the quote.
proof fn lemma_windows_backslashes_quote(m: nat, rest: Seq<char>, quoted: bool)
    requires
        m > 0,
    ensures
        windows_arg(backslashes(m) + (seq!['"'] + rest), quoted) == if m % 2 == 0 {
            backslashes(m / 2) + windows_arg(rest, !quoted)
        } else {
            backslashes(m / 2) + seq!['"'] + windows_arg(rest, quoted)
        },
{
    let t = backslashes(m) + (seq!['"'] + rest);
    lemma_backslash_run_of(m, seq!['"'] + rest, 0);
    assert(t[0] == '\\');
    assert(t[m as int] == '"');
    assert(t.skip(m + 1int) =~= rest);
}

proof fn lemma_windows_plain(v: Seq<char>, quoted: bool)
    requires
        forall|i: int| 0 <= i < v.len() ==> #[trigger] v[i] != '"',
    ensures
        windows_arg(v, quoted) == v,
    decreases v.len(),
{
    if v.len() > 0 {
        if v[0] == '\\' {
            let n = backslash_run(v, 0);
            lemma_backslash_run_bounds(v, 0);
            lemma_backslash_run_prefix(v, 0);
            assert forall|i: int| 0 <= i < v.skip(n as int).len() implies #[trigger] v.skip(n as int)[i] != '"' by {
                assert(v.skip(n as int)[i] == v[n + i]);
            }
            lemma_windows_plain(v.skip(n as int), quoted);
            if n < v.len() {
                assert(v[n as int] != '"');
            }
            assert(backslashes(n) + v.skip(n as int) =~= v);
        } else {
            assert forall|i: int| 0 <= i < v.skip(1).len() implies #[trigger] v.skip(1)[i] != '"' by {
                assert(v.skip(1)[i] == v[i + 1]);
            }
            lemma_windows_plain(v.skip(1), quoted);
            assert(seq![v[0]] + v.skip(1) =~= v);
        }
    }
}

proof fn lemma_backslash_run_prefix(t: Seq<char>, i: int)
    requires
        0 <= i <= t.len(),
    ensures
        forall|j: int| i <= j < i + backslash_run(t, i) ==> #[trigger] t[j] == '\\',
    decreases t.len() - i,
{
    if i < t.len() && t[i] == '\\' {
        lemma_backslash_run_prefix(t, i + 1);
    }
}

proof fn lemma_windows_body_word(v: Seq<char>, k: nat)
    ensures
        windows_arg(windows_body(v, k) + seq!['"'], true) == backslashes(k) + v,
    decreases v.len(),
{
    if v.len() == 0 {
        let t = backslashes(2 * k) + seq!['"'];
        if k == 0 {
            assert(t =~= seq!['"']);
            assert(t.skip(1) =~= Seq::<char>::empty());
            assert(windows_arg(t, true) == windows_arg(t.skip(1), false));
            assert(backslashes(0) =~= Seq::<char>::empty());
        } else {
            assert(t =~= backslashes(2 * k) + (seq!['"'] + Seq::<char>::empty()));
            lemma_windows_backslashes_quote(2 * k, Seq::empty(), true);
            assert((2 * k) / 2 == k);
            assert((2 * k) % 2 == 0);
            assert(windows_arg(Seq::<char>::empty(), false) =~= Seq::<char>::empty());
            assert(backslashes(k) + Seq::<char>::empty() =~= backslashes(k));
        }
        assert(backslashes(k) + v =~= backslashes(k));
        assert(backslashes(0) =~= Seq::<char>::empty());
        assert(backslashes(k) + Seq::<char>::empty() =~= backslashes(k));
        assert(windows_body(v, k) == backslashes(2 * k));
        assert(windows_body(v, k) + seq!['"'] == t);
        assert(windows_arg(t, true) == backslashes(k));
    } else {
        let rest = v.drop_first();
        if v[0] == '\\' {
            lemma_windows_body_word(rest, k + 1);
            assert(backslashes(k + 1) + rest =~= backslashes(k) + v);
            assert(windows_body(v, k) == windows_body(rest, k + 1));
        } else if v[0] == '"' {
            lemma_windows_body_word(rest, 0);
            let t = backslashes(2 * k + 1) + (seq!['"'] + (windows_body(rest, 0) + seq!['"']));
            assert(windows_body(v, k) + seq!['"'] =~= t);
            lemma_windows_backslashes_quote(2 * k + 1, windows_body(rest, 0) + seq!['"'], true);
            assert((2 * k + 1) / 2 == k);
            assert((2 * k + 1) % 2 == 1);
            assert(backslashes(0) + rest =~= rest);
            assert(backslashes(k) + seq!['"'] + rest =~= backslashes(k) + v);
            assert(windows_arg(t, true) == backslashes(k) + seq!['"'] + windows_arg(windows_body(rest, 0) + seq!['"'], true));
        } else {
            lemma_windows_body_word(rest, 0);
            let tail = seq![v[0]] + (windows_body(rest, 0) + seq!['"']);
            assert(windows_body(v, k) + seq!['"'] =~= backslashes(k) + tail);
            if k > 0 {
                lemma_windows_backslashes_then(k, tail, true);
            } else {
                assert(backslashes(k) + tail =~= tail);
            }
            assert(tail.skip(1) =~= windows_body(rest, 0) + seq!['"']);
            assert(tail[0] == v[0]);
            assert(windows_arg(tail, true) == seq![v[0]] + windows_arg(tail.skip(1), true));
            assert(backslashes(0) + rest =~= rest);
            assert(backslashes(k) + (seq![v[0]] + rest) =~= backslashes(k) + v);
        }
    }
}

/// A Windows program reads a quoted command-line argument back as the
/// text it was given.
pub proof fn lemma_windows_quote_roundtrip(v: Seq<char>)
    ensures
        windows_arg(windows_quoted(v), false) == v,
{
    if v.len() > 0 && forall|i: int| 0 <= i < v.len() ==> !windows_special(#[trigger] v[i]) {
        assert forall|i: int| 0 <= i < v.len() implies #[trigger] v[i] != '"' by {
            assert(!windows_special(v[i]));
        }
        lemma_windows_plain(v, false);
    } else {
        let q = seq!['"'] + windows_body(v, 0) + seq!['"'];
        assert(q.skip(1) =~= windows_body(v, 0) + seq!['"']);
        lemma_windows_body_word(v, 0);
        assert(backslashes(0) + v =~= v);
    }
}

} // verus!
