//! Attaching to a server in a signed-in Windows desktop over SSH: where the
//! remote host reported its Herdr binaries, and what its placement report
//! means.

use vstd::prelude::*;
use crate::path_links::{lemma_next_char, next_char};
use crate::platform::IoErrorKind;
use crate::protocol::codec::{base64_padded_decoding, decode_padded};
use crate::text::{
    chars_of, decimal_text, eq_chars, has_prefix, push_decimal, slice_chars, starts_with_chars, string_of_chars,
    trim_by, trim_chars, utf8_text, CharClass,
};

verus! {

/// Precedes each base64-encoded binary path the discovery script prints.
pub const WINDOWS_REMOTE_PATH_MARKER: &'static str = "herdr-remote-path:1:";

/// A reported path: the base64 text decodes to non-empty UTF-8.
pub open spec fn decoded_path(encoded: Seq<char>) -> Option<Seq<char>> {
    match base64_padded_decoding(encoded) {
        Some(bytes) => if vstd::utf8::valid_utf8(bytes) && vstd::utf8::decode_utf8(bytes).len() > 0 {
            Some(vstd::utf8::decode_utf8(bytes))
        } else {
            None
        },
        None => None,
    }
}

/// Decodes one reported path.
pub fn decode_windows_remote_path(encoded: &str) -> (r: Option<String>)
    ensures
        match r {
            Some(p) => decoded_path(encoded@) == Some(p@),
            None => decoded_path(encoded@) is None,
        },
{
    let bytes = match decode_padded(encoded) {
        Ok(bytes) => bytes,
        Err(_) => return None,
    };
    let text = match utf8_text(bytes.as_slice()) {
        Some(text) => text,
        None => return None,
    };
    if text.unicode_len() == 0 {
        None
    } else {
        Some(text)
    }
}

/// The path a line of discovery output reports, if it reports one.
pub open spec fn line_path(line: Seq<char>) -> Option<Seq<char>> {
    let t = trim_by(line, CharClass::Whitespace);
    if has_prefix(t, WINDOWS_REMOTE_PATH_MARKER@) {
        decoded_path(t.skip(WINDOWS_REMOTE_PATH_MARKER@.len() as int))
    } else {
        None
    }
}

/// `seen` with `p` added unless it is already there.
pub open spec fn add_new(seen: Seq<Seq<char>>, p: Option<Seq<char>>) -> Seq<Seq<char>> {
    match p {
        Some(p) => if seen.contains(p) {
            seen
        } else {
            seen.push(p)
        },
        None => seen,
    }
}

/// The paths reported by the lines starting at `from` or later, after
/// `seen`, each once, in the order they first appear.
pub open spec fn reported_paths(s: Seq<char>, from: int, seen: Seq<Seq<char>>) -> Seq<Seq<char>>
    decreases s.len() - from,
{
    if from < 0 || from > s.len() {
        seen
    } else {
        let e = next_char(s, '\n', from);
        let next = add_new(seen, line_path(s.subrange(from, e)));
        if e < s.len() {
            proof {
                lemma_next_char(s, '\n', from);
            }
            reported_paths(s, e + 1, next)
        } else {
            next
        }
    }
}

pub open spec fn views(v: Seq<String>) -> Seq<Seq<char>> {
    v.map_values(|s: String| s@)
}

fn line_path_chars(line: &Vec<char>, marker: &Vec<char>) -> (r: Option<String>)
    requires
        marker@ == WINDOWS_REMOTE_PATH_MARKER@,
    ensures
        match r {
            Some(p) => line_path(line@) == Some(p@),
            None => line_path(line@) is None,
        },
{
    let t = trim_chars(line, CharClass::Whitespace);
    if !starts_with_chars(&t, marker) {
        return None;
    }
    let rest = slice_chars(&t, marker.len(), t.len());
    assert(rest@ =~= t@.skip(marker@.len() as int));
    let encoded = string_of_chars(&rest);
    decode_windows_remote_path(encoded.as_str())
}

fn contains_text(v: &Vec<String>, s: &String) -> (r: bool)
    ensures
        r == views(v@).contains(s@),
{
    let mut i: usize = 0;
    while i < v.len()
        invariant
            i <= v@.len(),
            forall|k: int| 0 <= k < i ==> v@[k]@ != s@,
        decreases v@.len() - i,
    {
        if eq_chars(&chars_of(v[i].as_str()), &chars_of(s.as_str())) {
            assert(views(v@)[i as int] == s@);
            return true;
        }
        i += 1;
    }
    assert forall|k: int| 0 <= k < views(v@).len() implies views(v@)[k] != s@ by {
        assert(views(v@)[k] == v@[k]@);
    }
    false
}

/// The binary paths the discovery script on a Windows host reported, each
/// once, in the order first reported.
pub fn windows_remote_binary_paths(stdout: &str) -> (r: Vec<String>)
    ensures
        views(r@) == reported_paths(stdout@, 0, Seq::empty()),
{
    let s = chars_of(stdout);
    let marker = chars_of(WINDOWS_REMOTE_PATH_MARKER);
    let mut out: Vec<String> = Vec::new();
    let mut start: usize = 0;
    assert(views(out@) =~= Seq::<Seq<char>>::empty());
    loop
        invariant
            start <= s@.len(),
            s@ == stdout@,
            marker@ == WINDOWS_REMOTE_PATH_MARKER@,
            reported_paths(s@, 0, Seq::empty()) == reported_paths(s@, start as int, views(out@)),
        decreases s@.len() - start,
    {
        let mut e: usize = start;
        while e < s.len() && s[e] != '\n'
            invariant
                start <= e <= s@.len(),
                forall|j: int| start <= j < e ==> s@[j] != '\n',
            decreases s@.len() - e,
        {
            e += 1;
        }
        proof {
            lemma_next_char(s@, '\n', start as int);
        }
        assert(e == next_char(s@, '\n', start as int));
        let line = slice_chars(&s, start, e);
        let found = line_path_chars(&line, &marker);
        let ghost before = views(out@);
        match found {
            Some(p) => {
                if !contains_text(&out, &p) {
                    out.push(p);
                    assert(views(out@) =~= before.push(p@));
                }
            },
            None => {},
        }
        assert(views(out@) == add_new(before, line_path(s@.subrange(start as int, e as int))));
        if e >= s.len() {
            return out;
        }
        start = e + 1;
    }
}

/// Where a Windows host says its desktop server runs or would run.
#[derive(Debug, Clone, Copy, PartialEq, Eq, Structural)]
pub enum RemoteDesktopInspection {
    /// A server runs in the signed-in desktop.
    Ready { pid: u32, windows_session: u32 },
    /// No server runs yet; it would start in this session.
    Start { windows_session: u32 },
    /// A server runs in another Windows session.
    Conflict { pid: u32, windows_session: u32 },
    /// Nobody is signed in to a desktop.
    NoLogin,
    /// More than one desktop login exists for the account.
    MultipleLogins,
}

/// Whether the placement lets the attach go on: a server that is ready, or
/// one that can be started.
pub fn placement_allowed(inspection: RemoteDesktopInspection) -> (r: bool)
    ensures
        r == (inspection is Ready || inspection is Start),
{
    match inspection {
        RemoteDesktopInspection::Ready { .. } => true,
        RemoteDesktopInspection::Start { .. } => true,
        _ => false,
    }
}

/// Whether a server started for `windows_session` is now ready in it.
pub fn started_in_session(inspection: RemoteDesktopInspection, windows_session: u32) -> (r: bool)
    ensures
        r == (inspection matches RemoteDesktopInspection::Ready { windows_session: actual, .. } && actual
            == windows_session),
{
    match inspection {
        RemoteDesktopInspection::Ready { windows_session: actual, .. } => actual == windows_session,
        _ => false,
    }
}

/// The error kind and message for a placement the attach cannot use.
pub open spec fn inspection_failure(inspection: RemoteDesktopInspection) -> (IoErrorKind, Seq<char>) {
    match inspection {
        RemoteDesktopInspection::Conflict { pid, windows_session } => (
            IoErrorKind::AlreadyExists,
            "remote Herdr server process "@ + decimal_text(pid as nat) + " is running in nonqualifying Windows session "@
                + decimal_text(windows_session as nat) + "; use another --session or stop it explicitly"@,
        ),
        RemoteDesktopInspection::NoLogin => (
            IoErrorKind::NotFound,
            "no active desktop login exists for this Windows account; sign in to Windows first"@,
        ),
        RemoteDesktopInspection::MultipleLogins => (
            IoErrorKind::Unsupported,
            "more than one active desktop login exists for this Windows account; disconnect the extra login before starting Herdr"@,
        ),
        RemoteDesktopInspection::Start { .. } => (
            IoErrorKind::TimedOut,
            "the Windows desktop Herdr server did not become ready"@,
        ),
        RemoteDesktopInspection::Ready { .. } => (
            IoErrorKind::Other,
            "the Windows desktop Herdr server started in a different login"@,
        ),
    }
}

/// Explains why a placement cannot be used.
pub fn desktop_inspection_error(inspection: RemoteDesktopInspection) -> (r: (IoErrorKind, String))
    ensures
        r.0 == inspection_failure(inspection).0,
        r.1@ == inspection_failure(inspection).1,
{
    match inspection {
        RemoteDesktopInspection::Conflict { pid, windows_session } => {
            let mut message = String::from_str("remote Herdr server process ");
            push_decimal(&mut message, pid as u64);
            let ghost a = message@;
            message.append(" is running in nonqualifying Windows session ");
            push_decimal(&mut message, windows_session as u64);
            message.append("; use another --session or stop it explicitly");
            assert(message@ =~= inspection_failure(inspection).1);
            (IoErrorKind::AlreadyExists, message)
        },
        RemoteDesktopInspection::NoLogin => (
            IoErrorKind::NotFound,
            String::from_str("no active desktop login exists for this Windows account; sign in to Windows first"),
        ),
        RemoteDesktopInspection::MultipleLogins => (
            IoErrorKind::Unsupported,
            String::from_str(
                "more than one active desktop login exists for this Windows account; disconnect the extra login before starting Herdr",
            ),
        ),
        RemoteDesktopInspection::Start { .. } => (
            IoErrorKind::TimedOut,
            String::from_str("the Windows desktop Herdr server did not become ready"),
        ),
        RemoteDesktopInspection::Ready { .. } => (
            IoErrorKind::Other,
            String::from_str("the Windows desktop Herdr server started in a different login"),
        ),
    }
}

/// Strictly increasing, so without repeats.
pub open spec fn strictly_increasing(s: Seq<u32>) -> bool {
    forall|i: int, j: int| 0 <= i < j < s.len() ==> s[i] < s[j]
}

/// The session identifiers in increasing order, each once.
pub fn sorted_unique(ids: &Vec<u32>) -> (r: Vec<u32>)
    ensures
        strictly_increasing(r@),
        forall|x: u32| r@.contains(x) <==> ids@.contains(x),
{
    let mut out: Vec<u32> = Vec::new();
    let mut i: usize = 0;
    while i < ids.len()
        invariant
            i <= ids@.len(),
            strictly_increasing(out@),
            forall|v: u32| out@.contains(v) <==> ids@.subrange(0, i as int).contains(v),
        decreases ids@.len() - i,
    {
        let x = ids[i];
        let mut k: usize = 0;
        while k < out.len() && out[k] < x
            invariant
                k <= out@.len(),
                forall|q: int| 0 <= q < k ==> out@[q] < x,
            decreases out@.len() - k,
        {
            k += 1;
        }
        let ghost before = out@;
        if k < out.len() && out[k] == x {
            assert(before[k as int] == x);
            assert(before.contains(x));
            assert forall|y: u32| out@.contains(y) <==> (before.contains(y) || y == x) by {}
        } else {
            out.insert(k, x);
            assert(out@ == before.insert(k as int, x));
            assert forall|a: int, b: int| 0 <= a < b < out@.len() implies out@[a] < out@[b] by {
                if b < k {
                    assert(out@[a] == before[a] && out@[b] == before[b]);
                } else if b == k {
                    assert(out@[a] == before[a]);
                } else if a < k {
                    assert(out@[b] == before[b - 1]);
                    assert(out@[a] == before[a]);
                    if k < before.len() {
                        assert(before[k as int] >= x);
                        assert(before[k as int] <= before[b - 1]);
                    }
                } else if a == k {
                    assert(out@[b] == before[b - 1]);
                    assert(before[k as int] >= x && before[k as int] != x);
                    assert(before[k as int] <= before[b - 1]);
                } else {
                    assert(out@[a] == before[a - 1] && out@[b] == before[b - 1]);
                }
            }
            assert forall|y: u32| out@.contains(y) <==> (before.contains(y) || y == x) by {
                if out@.contains(y) {
                    let j = choose|j: int| 0 <= j < out@.len() && out@[j] == y;
                    if j < k {
                        assert(before[j] == y);
                    } else if j > k {
                        assert(before[j - 1] == y);
                    }
                }
                if before.contains(y) {
                    let j = choose|j: int| 0 <= j < before.len() && before[j] == y;
                    if j < k {
                        assert(out@[j] == y);
                    } else {
                        assert(out@[j + 1] == y);
                    }
                }
                if y == x {
                    assert(out@[k as int] == x);
                }
            }
        }
        assert forall|y: u32| ids@.subrange(0, i + 1).contains(y) <==> (ids@.subrange(0, i as int).contains(y) || y == x) by {
            let next = ids@.subrange(0, i + 1);
            let prev = ids@.subrange(0, i as int);
            if next.contains(y) {
                let j = choose|j: int| 0 <= j < next.len() && next[j] == y;
                if j < i {
                    assert(prev[j] == y);
                }
            }
            if prev.contains(y) {
                let j = choose|j: int| 0 <= j < prev.len() && prev[j] == y;
                assert(next[j] == y);
            }
            if y == x {
                assert(next[i as int] == x);
            }
        }
        assert forall|y: u32| out@.contains(y) <==> ids@.subrange(0, i + 1).contains(y) by {
            assert(out@.contains(y) <==> (before.contains(y) || y == x));
            assert(before.contains(y) <==> ids@.subrange(0, i as int).contains(y));
        }
        let ghost grown = ids@.subrange(0, i + 1);
        i += 1;
        assert(ids@.subrange(0, i as int) == grown);
    }
    assert(ids@.subrange(0, i as int) =~= ids@);
    out
}

/// What a Windows host reports of its desktop server: with a server
/// listening, ready when it runs under this account in an eligible login and
/// in conflict otherwise; without one, it would start in the only eligible
/// login, and there is none or more than one.
pub open spec fn host_inspection(eligible: Seq<u32>, server: Option<(u32, bool, u32)>) -> RemoteDesktopInspection {
    match server {
        Some((pid, same_account, session)) => if same_account && eligible.contains(session) {
            RemoteDesktopInspection::Ready { pid, windows_session: session }
        } else {
            RemoteDesktopInspection::Conflict { pid, windows_session: session }
        },
        None => if eligible.len() == 0 {
            RemoteDesktopInspection::NoLogin
        } else if eligible.len() == 1 {
            RemoteDesktopInspection::Start { windows_session: eligible[0] }
        } else {
            RemoteDesktopInspection::MultipleLogins
        },
    }
}

fn contains_id(ids: &Vec<u32>, x: u32) -> (r: bool)
    ensures
        r == ids@.contains(x),
{
    let mut i: usize = 0;
    while i < ids.len()
        invariant
            i <= ids@.len(),
            forall|k: int| 0 <= k < i ==> ids@[k] != x,
        decreases ids@.len() - i,
    {
        if ids[i] == x {
            return true;
        }
        i += 1;
    }
    false
}

/// Inspects a Windows host from its eligible desktop logins and, when a
/// server is listening, that server's process, whether it runs under this
/// account, and its session.
pub fn inspect_desktop_host(eligible: &Vec<u32>, server: Option<(u32, bool, u32)>) -> (r: RemoteDesktopInspection)
    ensures
        r == host_inspection(eligible@, server),
{
    match server {
        Some((pid, same_account, session)) => if same_account && contains_id(eligible, session) {
            RemoteDesktopInspection::Ready { pid, windows_session: session }
        } else {
            RemoteDesktopInspection::Conflict { pid, windows_session: session }
        },
        None => if eligible.len() == 0 {
            RemoteDesktopInspection::NoLogin
        } else if eligible.len() == 1 {
            RemoteDesktopInspection::Start { windows_session: eligible[0] }
        } else {
            RemoteDesktopInspection::MultipleLogins
        },
    }
}

/// Whether the login a start was planned for is still the only eligible one.
pub fn selected_login_is_unique(eligible: &Vec<u32>, windows_session: u32) -> (r: bool)
    ensures
        r == (eligible@ == seq![windows_session]),
{
    let r = eligible.len() == 1 && eligible[0] == windows_session;
    proof {
        if r {
            assert(eligible@ =~= seq![windows_session]);
        }
    }
    r
}

/// Why a connection to a desktop server is refused: a server of another
/// account, or one outside the eligible logins of this one.
pub open spec fn stream_refusal(pid: u32, same_account: bool, session: u32, eligible: Seq<u32>) -> Option<(IoErrorKind, Seq<char>)> {
    if !same_account {
        Some((
            IoErrorKind::PermissionDenied,
            "remote Herdr server process "@ + decimal_text(pid as nat) + " belongs to a different Windows account"@,
        ))
    } else if !eligible.contains(session) {
        Some((
            IoErrorKind::AlreadyExists,
            "remote Herdr server process "@ + decimal_text(pid as nat)
                + " is not in an active desktop login for this Windows account; use another --session or stop it explicitly"@,
        ))
    } else {
        None
    }
}

/// Checks the server at the other end of a desktop connection.
pub fn verify_desktop_peer(pid: u32, same_account: bool, session: u32, eligible: &Vec<u32>) -> (r: Option<(IoErrorKind, String)>)
    ensures
        match stream_refusal(pid, same_account, session, eligible@) {
            Some((kind, message)) => r matches Some((k, m)) && k == kind && m@ == message,
            None => r is None,
        },
{
    if !same_account {
        let mut message = String::from_str("remote Herdr server process ");
        push_decimal(&mut message, pid as u64);
        message.append(" belongs to a different Windows account");
        return Some((IoErrorKind::PermissionDenied, message));
    }
    if !contains_id(eligible, session) {
        let mut message = String::from_str("remote Herdr server process ");
        push_decimal(&mut message, pid as u64);
        message.append(
            " is not in an active desktop login for this Windows account; use another --session or stop it explicitly",
        );
        return Some((IoErrorKind::AlreadyExists, message));
    }
    None
}

/// A Windows session identifier is passed on as a 32-bit signed integer.
pub fn task_session_id(windows_session: u32) -> (r: Option<i32>)
    ensures
        r == if windows_session <= i32::MAX as u32 {
            Some(windows_session as i32)
        } else {
            None::<i32>
        },
{
    if windows_session <= 2147483647u32 {
        Some(windows_session as i32)
    } else {
        None
    }
}

/// What a poll of a starting desktop server decides.
#[derive(Debug, Clone, Copy, PartialEq, Eq, Structural)]
pub enum DesktopStartPoll {
    /// The server is ready in the selected session; stop the process the
    /// task launched when it is not that server.
    Ready { stop_owned_process: bool },
    /// The launched process runs in another desktop.
    WrongDesktop,
    /// Look again shortly.
    Wait,
    TimedOut,
    /// The inspection itself failed after the deadline.
    Failed,
}

/// Decides from one inspection (`None` when it failed), the process the
/// task launched (0 while unknown) and whether the deadline is still ahead.
pub open spec fn start_poll(inspection: Option<RemoteDesktopInspection>, windows_session: u32, owned_pid: u32, before_deadline: bool) -> DesktopStartPoll {
    match inspection {
        Some(RemoteDesktopInspection::Ready { pid, windows_session: actual }) if actual == windows_session && owned_pid != 0 =>
            DesktopStartPoll::Ready { stop_owned_process: pid != owned_pid },
        Some(RemoteDesktopInspection::Conflict { pid, .. }) if pid == owned_pid => DesktopStartPoll::WrongDesktop,
        Some(_) => if before_deadline {
            DesktopStartPoll::Wait
        } else {
            DesktopStartPoll::TimedOut
        },
        None => if before_deadline {
            DesktopStartPoll::Wait
        } else {
            DesktopStartPoll::Failed
        },
    }
}

/// Polls a starting desktop server.
pub fn desktop_start_poll(inspection: Option<RemoteDesktopInspection>, windows_session: u32, owned_pid: u32, before_deadline: bool) -> (r: DesktopStartPoll)
    ensures
        r == start_poll(inspection, windows_session, owned_pid, before_deadline),
{
    match inspection {
        Some(RemoteDesktopInspection::Ready { pid, windows_session: actual }) if actual == windows_session && owned_pid != 0 =>
            DesktopStartPoll::Ready { stop_owned_process: pid != owned_pid },
        Some(RemoteDesktopInspection::Conflict { pid, .. }) if pid == owned_pid => DesktopStartPoll::WrongDesktop,
        Some(_) => if before_deadline {
            DesktopStartPoll::Wait
        } else {
            DesktopStartPoll::TimedOut
        },
        None => if before_deadline {
            DesktopStartPoll::Wait
        } else {
            DesktopStartPoll::Failed
        },
    }
}

/// Why starting a desktop server failed.
#[derive(Debug, Clone, Copy, PartialEq, Eq, Structural)]
pub enum DesktopStartFailure {
    /// The selected login is no longer the only eligible one.
    LoginNotUnique,
    /// The Windows session identifier does not fit a task's session argument.
    SessionIdTooLarge,
    /// The selected login changed after the task was registered.
    LoginChanged,
    /// The step just taken failed; its own error is reported.
    StepFailed,
    /// Removing the registered task failed; that error is reported.
    CleanupFailed,
}

/// Where a start of a desktop server through a one-time scheduled task stands.
#[derive(Debug, Clone, Copy, PartialEq, Eq, Structural)]
pub enum DesktopStart {
    /// Checking that the selected login is the only eligible one.
    CheckingLogin { windows_session: u32 },
    /// Registering the one-time task.
    Registering { session_id: i32 },
    /// Checking the login again, right before the task runs.
    Rechecking { session_id: i32 },
    /// Running the task in the selected session.
    Running,
    /// Removing the registered task before reporting `after`.
    Deleting { after: DesktopStartFailure },
    /// The task runs; the server is polled until it is ready.
    Polling,
    /// The start failed.
    Failed(DesktopStartFailure),
}

/// What the host reports of the step it took.
#[derive(Debug, Clone, Copy, PartialEq, Eq, Structural)]
pub enum DesktopStartEvent {
    /// The login check answered: whether the selected login is the only eligible one.
    LoginChecked { unique: bool },
    /// The login check itself failed.
    LoginCheckFailed,
    TaskRegistered,
    TaskRegistrationFailed,
    TaskStarted,
    TaskStartFailed,
    TaskDeleted,
    TaskDeletionFailed,
}

/// What the host does next.
#[derive(Debug, Clone, Copy, PartialEq, Eq, Structural)]
pub enum DesktopStartAction {
    CheckLogin,
    RegisterTask { session_id: i32 },
    RunTask { session_id: i32 },
    DeleteTask,
    StartPolling,
    Fail(DesktopStartFailure),
}

/// The action a stage stands for.
pub open spec fn start_action(state: DesktopStart) -> DesktopStartAction {
    match state {
        DesktopStart::CheckingLogin { .. } => DesktopStartAction::CheckLogin,
        DesktopStart::Registering { session_id } => DesktopStartAction::RegisterTask { session_id },
        DesktopStart::Rechecking { .. } => DesktopStartAction::CheckLogin,
        DesktopStart::Running => DesktopStartAction::StartPolling,
        DesktopStart::Deleting { .. } => DesktopStartAction::DeleteTask,
        DesktopStart::Polling => DesktopStartAction::StartPolling,
        DesktopStart::Failed(f) => DesktopStartAction::Fail(f),
    }
}

/// The next stage and action: check the login, refuse a session identifier
/// that does not fit, register the task, check the login again, run the
/// task, then poll; once the task is registered, every failure removes it
/// first. An event that does not answer the stage leaves it as it is.
pub open spec fn start_next(state: DesktopStart, event: DesktopStartEvent) -> (DesktopStart, DesktopStartAction) {
    match (state, event) {
        (DesktopStart::CheckingLogin { windows_session }, DesktopStartEvent::LoginChecked { unique }) => {
            if !unique {
                (DesktopStart::Failed(DesktopStartFailure::LoginNotUnique), DesktopStartAction::Fail(DesktopStartFailure::LoginNotUnique))
            } else if windows_session <= i32::MAX as u32 {
                let id = windows_session as i32;
                (DesktopStart::Registering { session_id: id }, DesktopStartAction::RegisterTask { session_id: id })
            } else {
                (DesktopStart::Failed(DesktopStartFailure::SessionIdTooLarge), DesktopStartAction::Fail(DesktopStartFailure::SessionIdTooLarge))
            }
        },
        (DesktopStart::CheckingLogin { .. }, DesktopStartEvent::LoginCheckFailed) =>
            (DesktopStart::Failed(DesktopStartFailure::StepFailed), DesktopStartAction::Fail(DesktopStartFailure::StepFailed)),
        (DesktopStart::Registering { session_id }, DesktopStartEvent::TaskRegistered) =>
            (DesktopStart::Rechecking { session_id }, DesktopStartAction::CheckLogin),
        (DesktopStart::Registering { .. }, DesktopStartEvent::TaskRegistrationFailed) =>
            (DesktopStart::Failed(DesktopStartFailure::StepFailed), DesktopStartAction::Fail(DesktopStartFailure::StepFailed)),
        (DesktopStart::Rechecking { session_id }, DesktopStartEvent::LoginChecked { unique }) => {
            if unique {
                (DesktopStart::Running, DesktopStartAction::RunTask { session_id })
            } else {
                (DesktopStart::Deleting { after: DesktopStartFailure::LoginChanged }, DesktopStartAction::DeleteTask)
            }
        },
        (DesktopStart::Rechecking { .. }, DesktopStartEvent::LoginCheckFailed) =>
            (DesktopStart::Deleting { after: DesktopStartFailure::StepFailed }, DesktopStartAction::DeleteTask),
        (DesktopStart::Running, DesktopStartEvent::TaskStarted) => (DesktopStart::Polling, DesktopStartAction::StartPolling),
        (DesktopStart::Running, DesktopStartEvent::TaskStartFailed) =>
            (DesktopStart::Deleting { after: DesktopStartFailure::StepFailed }, DesktopStartAction::DeleteTask),
        (DesktopStart::Deleting { after }, DesktopStartEvent::TaskDeleted) => (DesktopStart::Failed(after), DesktopStartAction::Fail(after)),
        (DesktopStart::Deleting { .. }, DesktopStartEvent::TaskDeletionFailed) =>
            (DesktopStart::Failed(DesktopStartFailure::CleanupFailed), DesktopStartAction::Fail(DesktopStartFailure::CleanupFailed)),
        _ => (state, start_action(state)),
    }
}

/// The first step of a start: check the selected login.
pub fn desktop_start_begin(windows_session: u32) -> (r: (DesktopStart, DesktopStartAction))
    ensures
        r == (DesktopStart::CheckingLogin { windows_session }, DesktopStartAction::CheckLogin),
{
    (DesktopStart::CheckingLogin { windows_session }, DesktopStartAction::CheckLogin)
}

fn action_of(state: DesktopStart) -> (r: DesktopStartAction)
    ensures
        r == start_action(state),
{
    match state {
        DesktopStart::CheckingLogin { .. } => DesktopStartAction::CheckLogin,
        DesktopStart::Registering { session_id } => DesktopStartAction::RegisterTask { session_id },
        DesktopStart::Rechecking { .. } => DesktopStartAction::CheckLogin,
        DesktopStart::Running => DesktopStartAction::StartPolling,
        DesktopStart::Deleting { .. } => DesktopStartAction::DeleteTask,
        DesktopStart::Polling => DesktopStartAction::StartPolling,
        DesktopStart::Failed(f) => DesktopStartAction::Fail(f),
    }
}

/// One step of a desktop server start.
pub fn desktop_start_step(state: DesktopStart, event: DesktopStartEvent) -> (r: (DesktopStart, DesktopStartAction))
    ensures
        r == start_next(state, event),
{
    match (state, event) {
        (DesktopStart::CheckingLogin { windows_session }, DesktopStartEvent::LoginChecked { unique }) => {
            if !unique {
                (DesktopStart::Failed(DesktopStartFailure::LoginNotUnique), DesktopStartAction::Fail(DesktopStartFailure::LoginNotUnique))
            } else {
                match task_session_id(windows_session) {
                    Some(id) => (DesktopStart::Registering { session_id: id }, DesktopStartAction::RegisterTask { session_id: id }),
                    None => (DesktopStart::Failed(DesktopStartFailure::SessionIdTooLarge), DesktopStartAction::Fail(DesktopStartFailure::SessionIdTooLarge)),
                }
            }
        },
        (DesktopStart::CheckingLogin { .. }, DesktopStartEvent::LoginCheckFailed) =>
            (DesktopStart::Failed(DesktopStartFailure::StepFailed), DesktopStartAction::Fail(DesktopStartFailure::StepFailed)),
        (DesktopStart::Registering { session_id }, DesktopStartEvent::TaskRegistered) =>
            (DesktopStart::Rechecking { session_id }, DesktopStartAction::CheckLogin),
        (DesktopStart::Registering { .. }, DesktopStartEvent::TaskRegistrationFailed) =>
            (DesktopStart::Failed(DesktopStartFailure::StepFailed), DesktopStartAction::Fail(DesktopStartFailure::StepFailed)),
        (DesktopStart::Rechecking { session_id }, DesktopStartEvent::LoginChecked { unique }) => {
            if unique {
                (DesktopStart::Running, DesktopStartAction::RunTask { session_id })
            } else {
                (DesktopStart::Deleting { after: DesktopStartFailure::LoginChanged }, DesktopStartAction::DeleteTask)
            }
        },
        (DesktopStart::Rechecking { .. }, DesktopStartEvent::LoginCheckFailed) =>
            (DesktopStart::Deleting { after: DesktopStartFailure::StepFailed }, DesktopStartAction::DeleteTask),
        (DesktopStart::Running, DesktopStartEvent::TaskStarted) => (DesktopStart::Polling, DesktopStartAction::StartPolling),
        (DesktopStart::Running, DesktopStartEvent::TaskStartFailed) =>
            (DesktopStart::Deleting { after: DesktopStartFailure::StepFailed }, DesktopStartAction::DeleteTask),
        (DesktopStart::Deleting { after }, DesktopStartEvent::TaskDeleted) => (DesktopStart::Failed(after), DesktopStartAction::Fail(after)),
        (DesktopStart::Deleting { .. }, DesktopStartEvent::TaskDeletionFailed) =>
            (DesktopStart::Failed(DesktopStartFailure::CleanupFailed), DesktopStartAction::Fail(DesktopStartFailure::CleanupFailed)),
        _ => (state, action_of(state)),
    }
}

/// The error kind and message of a failure the start itself decides;
/// `None` where the failed step's own error is reported.
pub open spec fn start_failure_error(f: DesktopStartFailure) -> Option<(IoErrorKind, Seq<char>)> {
    match f {
        DesktopStartFailure::LoginNotUnique => Some((
            IoErrorKind::NotFound,
            "the selected Windows desktop login is no longer the only active login for this account"@,
        )),
        DesktopStartFailure::SessionIdTooLarge => Some((IoErrorKind::InvalidInput, "the selected Windows session identifier is too large"@)),
        DesktopStartFailure::LoginChanged => Some((
            IoErrorKind::NotFound,
            "the selected Windows desktop login changed before Herdr could start"@,
        )),
        _ => None,
    }
}

/// The error a failed start reports, where the start decides it.
pub fn desktop_start_error(f: DesktopStartFailure) -> (r: Option<(IoErrorKind, String)>)
    ensures
        match (r, start_failure_error(f)) {
            (Some((k, m)), Some((k2, m2))) => k == k2 && m@ == m2,
            (None, None) => true,
            _ => false,
        },
{
    match f {
        DesktopStartFailure::LoginNotUnique => Some((
            IoErrorKind::NotFound,
            String::from_str("the selected Windows desktop login is no longer the only active login for this account"),
        )),
        DesktopStartFailure::SessionIdTooLarge => Some((
            IoErrorKind::InvalidInput,
            String::from_str("the selected Windows session identifier is too large"),
        )),
        DesktopStartFailure::LoginChanged => Some((
            IoErrorKind::NotFound,
            String::from_str("the selected Windows desktop login changed before Herdr could start"),
        )),
        _ => None,
    }
}

/// Once the task is registered, a start never fails without removing it
/// first: from the recheck or the run, every event leads to running,
/// polling, removal of the task, or the stage itself.
pub proof fn lemma_registered_task_removed_before_failure(state: DesktopStart, event: DesktopStartEvent)
    requires
        state is Rechecking || state is Running,
    ensures
        !(start_next(state, event).0 is Failed),
        !(start_next(state, event).1 is Fail),
{
}

/// The task runs only right after a recheck found the selected login still
/// the only eligible one, and in the session it was registered for.
pub proof fn lemma_task_runs_only_after_recheck(state: DesktopStart, event: DesktopStartEvent, session_id: i32)
    requires
        start_next(state, event).1 == (DesktopStartAction::RunTask { session_id }),
    ensures
        state == (DesktopStart::Rechecking { session_id }),
        event == (DesktopStartEvent::LoginChecked { unique: true }),
{
}

} // verus!
