//! Command-line handling of a server started in a signed-in Windows desktop:
//! the bootstrap argument that carries the SSH session's environment, and the
//! `remote-desktop` subcommand.

use vstd::prelude::*;
use crate::platform::{joined, quote_windows_command_line_arg, windows_quoted};
use crate::text::{chars_of, eq_lit, parse_u32, parse_u32_chars, push_all, string_of_chars};

verus! {

/// Carries the encoded environment of the session that started the server.
pub const BOOTSTRAP_ARG: &'static str = "--desktop-bootstrap";

pub open spec fn is_stop(a: Seq<char>) -> bool {
    a == BOOTSTRAP_ARG@ || a == "--"@
}

/// The first index at or after `from` that holds the bootstrap argument or
/// `--`, or the length.
pub open spec fn next_stop(args: Seq<String>, from: int) -> int
    decreases args.len() - from,
{
    if from < 0 || from >= args.len() {
        args.len() as int
    } else if is_stop(args[from]@) {
        from
    } else {
        next_stop(args, from + 1)
    }
}

proof fn lemma_next_stop(args: Seq<String>, from: int)
    requires
        0 <= from,
    ensures
        from <= next_stop(args, from) || next_stop(args, from) == args.len(),
        next_stop(args, from) <= args.len(),
        next_stop(args, from) < args.len() ==> is_stop(args[next_stop(args, from)]@),
        forall|k: int| from <= k < next_stop(args, from) ==> !is_stop(#[trigger] args[k]@),
    decreases args.len() - from,
{
    if from < args.len() && !is_stop(args[from]@) {
        lemma_next_stop(args, from + 1);
    }
}

/// Where the bootstrap argument stands among the arguments after the
/// program name (none after `--` counts).
#[derive(Debug, Clone, Copy, PartialEq, Eq, Structural)]
pub enum BootstrapArg {
    Absent,
    /// The argument is the last one: its value is missing.
    MissingValue,
    /// The argument is at this index; its value follows it.
    At(usize),
}

pub open spec fn bootstrap_position(args: Seq<String>) -> BootstrapArg {
    let i = next_stop(args, 1);
    if i >= args.len() || args[i]@ == "--"@ {
        BootstrapArg::Absent
    } else if i + 1 >= args.len() {
        BootstrapArg::MissingValue
    } else {
        BootstrapArg::At(i as usize)
    }
}

fn is_stop_arg(a: &String) -> (r: bool)
    ensures
        r == is_stop(a@),
{
    let c = chars_of(a.as_str());
    eq_lit(&c, BOOTSTRAP_ARG) || eq_lit(&c, "--")
}

fn next_stop_index(args: &Vec<String>, from: usize) -> (r: usize)
    requires
        1 <= from,
    ensures
        r == next_stop(args@, from as int),
{
    proof {
        lemma_next_stop(args@, from as int);
    }
    let mut k = from;
    if k > args.len() {
        return args.len();
    }
    while k < args.len() && !is_stop_arg(&args[k])
        invariant
            from <= k <= args@.len(),
            next_stop(args@, from as int) == next_stop(args@, k as int),
        decreases args@.len() - k,
    {
        k += 1;
    }
    k
}

/// Finds the bootstrap argument.
pub fn locate_bootstrap_arg(args: &Vec<String>) -> (r: BootstrapArg)
    ensures
        r == bootstrap_position(args@),
{
    let i = next_stop_index(args, 1);
    proof {
        lemma_next_stop(args@, 1);
    }
    if i >= args.len() {
        return BootstrapArg::Absent;
    }
    let dashes = eq_lit(&chars_of(args[i].as_str()), "--");
    if dashes {
        BootstrapArg::Absent
    } else if i + 1 >= args.len() {
        BootstrapArg::MissingValue
    } else {
        BootstrapArg::At(i)
    }
}

pub open spec fn duplicate_message() -> Seq<char> {
    "--desktop-bootstrap can only be specified once"@
}

pub open spec fn missing_message() -> Seq<char> {
    "missing value for --desktop-bootstrap"@
}

/// The arguments without the bootstrap pair at `i`, unless the bootstrap
/// argument appears again before `--`.
pub open spec fn without_bootstrap(args: Seq<String>, i: int) -> Result<Seq<String>, Seq<char>> {
    let j = next_stop(args, i + 2);
    if j < args.len() && args[j]@ == BOOTSTRAP_ARG@ {
        Err(duplicate_message())
    } else {
        Ok(args.take(i) + args.skip(i + 2))
    }
}

/// The message for a bootstrap argument without a value.
pub fn missing_bootstrap_value_message() -> (r: String)
    ensures
        r@ == missing_message(),
{
    String::from_str("missing value for --desktop-bootstrap")
}

/// Once the value after the bootstrap argument at `i` was decoded: the
/// arguments left for normal dispatch, or the error for a repeated argument.
pub fn remove_bootstrap_arg(args: &Vec<String>, i: usize) -> (r: Result<Vec<String>, String>)
    requires
        bootstrap_position(args@) == BootstrapArg::At(i),
    ensures
        match r {
            Ok(v) => without_bootstrap(args@, i as int) == Ok::<Seq<String>, Seq<char>>(v@),
            Err(e) => without_bootstrap(args@, i as int) == Err::<Seq<String>, Seq<char>>(e@),
        },
{
    let n = args.len();
    proof {
        lemma_next_stop(args@, 1);
        let gi = next_stop(args@, 1);
        assert(0 <= gi <= n);
        assert(gi as usize == gi);
        assert(i == gi);
    }
    let j = next_stop_index(args, i + 2);
    proof {
        lemma_next_stop(args@, i + 2);
    }
    if j < args.len() {
        let again = eq_lit(&chars_of(args[j].as_str()), BOOTSTRAP_ARG);
        if again {
            return Err(String::from_str("--desktop-bootstrap can only be specified once"));
        }
    }
    let mut out: Vec<String> = Vec::new();
    let mut k: usize = 0;
    while k < args.len()
        invariant
            i + 2 <= args@.len(),
            k <= args@.len(),
            k <= i ==> out@ == args@.take(k as int),
            i < k && k < i + 2 ==> out@ == args@.take(i as int),
            i + 2 <= k ==> out@ == args@.take(i as int) + args@.subrange(i + 2, k as int),
        decreases args@.len() - k,
    {
        if k < i || k >= i + 2 {
            out.push(args[k].clone());
        }
        proof {
            if k < i {
                assert(out@ =~= args@.take(k + 1));
            } else if k == i || k == i + 1 {
                if k + 1 <= i + 1 {
                    assert(out@ == args@.take(i as int));
                }
                if k + 1 == i + 2 {
                    assert(args@.subrange(i + 2, k + 1) =~= Seq::<String>::empty());
                    assert(out@ =~= args@.take(i as int) + args@.subrange(i + 2, k + 1));
                }
            } else {
                assert(out@ =~= args@.take(i as int) + args@.subrange(i + 2, k + 1));
            }
        }
        k += 1;
    }
    assert(args@.subrange(i + 2, args@.len() as int) =~= args@.skip(i + 2));
    Ok(out)
}

/// The arguments of a server started in the desktop: the bootstrap, the
/// session it belongs to if one is active, and the `server` subcommand.
pub open spec fn server_args(bootstrap: Seq<char>, active_session: Option<Seq<char>>) -> Seq<Seq<char>> {
    let head = seq![BOOTSTRAP_ARG@, bootstrap];
    let with_session = match active_session {
        Some(s) => head + seq!["--session"@, s],
        None => head,
    };
    with_session.push("server"@)
}

pub open spec fn views(v: Seq<String>) -> Seq<Seq<char>> {
    v.map_values(|s: String| s@)
}

pub open spec fn opt_view(o: Option<String>) -> Option<Seq<char>> {
    match o {
        Some(s) => Some(s@),
        None => None,
    }
}

/// Builds the arguments of a desktop server.
pub fn desktop_server_args(bootstrap: &str, active_session: Option<String>) -> (r: Vec<String>)
    ensures
        views(r@) == server_args(bootstrap@, opt_view(active_session)),
{
    let ghost session = opt_view(active_session);
    let mut args: Vec<String> = Vec::new();
    args.push(String::from_str(BOOTSTRAP_ARG));
    args.push(String::from_str(bootstrap));
    match active_session {
        Some(s) => {
            args.push(String::from_str("--session"));
            args.push(s);
        },
        None => {},
    }
    args.push(String::from_str("server"));
    assert(views(args@) =~= server_args(bootstrap@, session));
    args
}

/// The command line of the one-time task that starts a desktop server: its
/// arguments, each quoted for a Windows command line, joined by spaces.
pub fn desktop_task_arguments(bootstrap: &str, active_session: Option<String>) -> (r: String)
    ensures
        r@ == joined(server_args(bootstrap@, opt_view(active_session)).map_values(|a: Seq<char>| windows_quoted(a))),
{
    let args = desktop_server_args(bootstrap, active_session);
    let ghost quoted = views(args@).map_values(|a: Seq<char>| windows_quoted(a));
    let mut out: Vec<char> = Vec::new();
    let mut i: usize = 0;
    while i < args.len()
        invariant
            i <= args@.len(),
            quoted == views(args@).map_values(|a: Seq<char>| windows_quoted(a)),
            out@ == joined(quoted.subrange(0, i as int)),
        decreases args@.len() - i,
    {
        if i > 0 {
            out.push(' ');
        }
        let q = quote_windows_command_line_arg(args[i].as_str());
        push_all(&mut out, &chars_of(q.as_str()));
        proof {
            let sub = quoted.subrange(0, i + 1);
            assert(sub.last() == quoted[i as int]);
            if i > 0 {
                assert(sub.drop_last() =~= quoted.subrange(0, i as int));
            } else {
                assert(out@ =~= sub[0]);
            }
        }
        i += 1;
    }
    assert(quoted.subrange(0, i as int) =~= quoted);
    string_of_chars(&out)
}

/// The `remote-desktop` subcommand.
#[derive(Debug, Clone, Copy, PartialEq, Eq, Structural)]
pub enum RemoteDesktopCommand {
    /// Report where the desktop server runs or would run.
    Inspect,
    /// Start the server in the given Windows session.
    Start(u32),
}

pub open spec fn usage_message() -> Seq<char> {
    "usage: herdr remote-desktop <inspect|start --windows-session <id>>"@
}

pub open spec fn session_number_message() -> Seq<char> {
    "--windows-session must be an unsigned integer"@
}

/// `inspect`, or `start --windows-session <u32>`; anything else is refused
/// with the usage, and a session that is not a `u32` with its own message
/// (both are invalid input).
pub open spec fn remote_desktop_command(args: Seq<String>) -> Result<RemoteDesktopCommand, Seq<char>> {
    if args.len() == 1 && args[0]@ == "inspect"@ {
        Ok(RemoteDesktopCommand::Inspect)
    } else if args.len() == 3 && args[0]@ == "start"@ && args[1]@ == "--windows-session"@ {
        match parse_u32(args[2]@) {
            Some(n) => Ok(RemoteDesktopCommand::Start(n)),
            None => Err(session_number_message()),
        }
    } else {
        Err(usage_message())
    }
}

/// Reads the arguments of `remote-desktop`.
pub fn parse_remote_desktop_command(args: &Vec<String>) -> (r: Result<RemoteDesktopCommand, String>)
    ensures
        match r {
            Ok(c) => remote_desktop_command(args@) == Ok::<RemoteDesktopCommand, Seq<char>>(c),
            Err(e) => remote_desktop_command(args@) == Err::<RemoteDesktopCommand, Seq<char>>(e@),
        },
{
    if args.len() == 1 && eq_lit(&chars_of(args[0].as_str()), "inspect") {
        return Ok(RemoteDesktopCommand::Inspect);
    }
    if args.len() == 3 && eq_lit(&chars_of(args[0].as_str()), "start")
        && eq_lit(&chars_of(args[1].as_str()), "--windows-session") {
        let raw = chars_of(args[2].as_str());
        return match parse_u32_chars(&raw) {
            Some(n) => Ok(RemoteDesktopCommand::Start(n)),
            None => Err(String::from_str("--windows-session must be an unsigned integer")),
        };
    }
    Err(String::from_str("usage: herdr remote-desktop <inspect|start --windows-session <id>>"))
}

} // verus!
