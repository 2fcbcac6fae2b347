//! Local socket rules that do not depend on the transport.

use vstd::prelude::*;
use crate::platform::IoErrorKind;

verus! {

/// A failed connection to a leftover socket path means no server is
/// listening: refused, missing or timed out, and on Windows also a busy pipe
/// reported as `WouldBlock`.
pub fn stale_socket_connect_error(kind: IoErrorKind, windows: bool) -> (r: bool)
    ensures
        r <==> (kind == IoErrorKind::ConnectionRefused || kind == IoErrorKind::NotFound
            || kind == IoErrorKind::TimedOut || (windows && kind == IoErrorKind::WouldBlock)),
{
    match kind {
        IoErrorKind::ConnectionRefused => true,
        IoErrorKind::NotFound => true,
        IoErrorKind::TimedOut => true,
        IoErrorKind::WouldBlock => windows,
        _ => false,
    }
}

/// A peer that went away: broken pipe, aborted or reset connection, no
/// connection, unexpected end of input, or a write that wrote nothing.
pub open spec fn closed_kind(kind: IoErrorKind) -> bool {
    ||| kind == IoErrorKind::BrokenPipe
    ||| kind == IoErrorKind::ConnectionAborted
    ||| kind == IoErrorKind::ConnectionReset
    ||| kind == IoErrorKind::NotConnected
    ||| kind == IoErrorKind::UnexpectedEof
    ||| kind == IoErrorKind::WriteZero
}

/// Whether an error means the other end of a local stream closed.
pub fn is_connection_closed_error(kind: IoErrorKind) -> (r: bool)
    ensures
        r == closed_kind(kind),
{
    match kind {
        IoErrorKind::BrokenPipe => true,
        IoErrorKind::ConnectionAborted => true,
        IoErrorKind::ConnectionReset => true,
        IoErrorKind::NotConnected => true,
        IoErrorKind::UnexpectedEof => true,
        IoErrorKind::WriteZero => true,
        _ => false,
    }
}

/// Windows error codes of a named pipe whose peer is gone: an invalid
/// handle (6), a broken pipe (109), a pipe being closed (232) and a pipe
/// with no process at the other end (233).
pub fn windows_named_pipe_closed_error(raw_os_error: Option<i32>) -> (r: bool)
    ensures
        r <==> (raw_os_error == Some(6i32) || raw_os_error == Some(109i32) || raw_os_error == Some(232i32)
            || raw_os_error == Some(233i32)),
{
    match raw_os_error {
        Some(code) => code == 6 || code == 109 || code == 232 || code == 233,
        None => false,
    }
}

/// What a non-blocking read of a local stream found, with the byte count.
#[derive(Debug, Clone, Copy, PartialEq, Eq, Structural)]
pub enum LocalStreamReadCount {
    Data(usize),
    Pending,
    Closed,
}

/// What a non-blocking read of a local stream found.
#[derive(Debug, Clone, Copy, PartialEq, Eq, Structural)]
pub enum LocalStreamRead {
    Data,
    Pending,
    Closed,
}

impl LocalStreamRead {
    /// Forgets the byte count.
    pub fn from_count(count: LocalStreamReadCount) -> (r: LocalStreamRead)
        ensures
            r == match count {
                LocalStreamReadCount::Data(_) => LocalStreamRead::Data,
                LocalStreamReadCount::Pending => LocalStreamRead::Pending,
                LocalStreamReadCount::Closed => LocalStreamRead::Closed,
            },
    {
        match count {
            LocalStreamReadCount::Data(_) => LocalStreamRead::Data,
            LocalStreamReadCount::Pending => LocalStreamRead::Pending,
            LocalStreamReadCount::Closed => LocalStreamRead::Closed,
        }
    }
}

/// What a read result means. Zero bytes is a closed stream and any other
/// count is data. On Unix a read that would block is pending; on Windows
/// (where the read only happens once the pipe reported bytes) an error that
/// means the peer left is a closed stream. Every other error is passed on.
pub open spec fn read_outcome(read: Result<usize, IoErrorKind>, windows: bool) -> Result<LocalStreamReadCount, IoErrorKind> {
    match read {
        Ok(n) => if n == 0 {
            Ok(LocalStreamReadCount::Closed)
        } else {
            Ok(LocalStreamReadCount::Data(n))
        },
        Err(kind) => if !windows && kind == IoErrorKind::WouldBlock {
            Ok(LocalStreamReadCount::Pending)
        } else if windows && closed_kind(kind) {
            Ok(LocalStreamReadCount::Closed)
        } else {
            Err(kind)
        },
    }
}

/// Classifies the result of one non-blocking read of a local stream.
pub fn classify_stream_read(read: Result<usize, IoErrorKind>, windows: bool) -> (r: Result<LocalStreamReadCount, IoErrorKind>)
    ensures
        r == read_outcome(read, windows),
{
    match read {
        Ok(n) => if n == 0 {
            Ok(LocalStreamReadCount::Closed)
        } else {
            Ok(LocalStreamReadCount::Data(n))
        },
        Err(kind) => {
            let closed = is_connection_closed_error(kind);
            if !windows && kind == IoErrorKind::WouldBlock {
                Ok(LocalStreamReadCount::Pending)
            } else if windows && closed {
                Ok(LocalStreamReadCount::Closed)
            } else {
                Err(kind)
            }
        },
    }
}

/// What the bytes a Windows named pipe reports as available mean before any
/// read: no pipe is a closed stream, nothing available is pending, and
/// `None` here means there is something to read.
pub fn named_pipe_availability(available: Option<u32>) -> (r: Option<LocalStreamReadCount>)
    ensures
        r == match available {
            None => Some(LocalStreamReadCount::Closed),
            Some(n) => if n == 0 {
                Some(LocalStreamReadCount::Pending)
            } else {
                None::<LocalStreamReadCount>
            },
        },
{
    match available {
        None => Some(LocalStreamReadCount::Closed),
        Some(n) => if n == 0 {
            Some(LocalStreamReadCount::Pending)
        } else {
            None
        },
    }
}

/// What a one-byte probe read says of a Unix stream: any read result means
/// the peer closed or sent data (both end the wait), a read that would block
/// or was interrupted means it is still open, an error of a departed peer
/// means closed, and other errors are passed on.
pub open spec fn probe_outcome(read: Result<usize, IoErrorKind>) -> Result<bool, IoErrorKind> {
    match read {
        Ok(_) => Ok(true),
        Err(kind) => if kind == IoErrorKind::WouldBlock || kind == IoErrorKind::Interrupted {
            Ok(false)
        } else if closed_kind(kind) {
            Ok(true)
        } else {
            Err(kind)
        },
    }
}

/// Classifies the result of a probe read.
pub fn classify_probe_read(read: Result<usize, IoErrorKind>) -> (r: Result<bool, IoErrorKind>)
    ensures
        r == probe_outcome(read),
{
    match read {
        Ok(_) => Ok(true),
        Err(kind) => {
            let closed = is_connection_closed_error(kind);
            if kind == IoErrorKind::WouldBlock || kind == IoErrorKind::Interrupted {
                Ok(false)
            } else if closed {
                Ok(true)
            } else {
                Err(kind)
            }
        },
    }
}

/// The steps of binding a socket that only its owner may use.
#[derive(Debug, Clone, Copy, PartialEq, Eq, Structural)]
pub enum PrivateBindAction {
    /// Bind with the owner-only mode set on the descriptor.
    BindWithMode,
    /// Bind without a mode (the filesystem refused one).
    BindPlain,
    /// Record the identity of the bound pathname.
    ReadIdentity,
    /// Restrict the permissions of the bound pathname.
    Restrict,
    /// Release the socket and unlink the pathname if it is still ours, then
    /// fail with the given error.
    Unpublish(IoErrorKind),
    /// The socket is bound and private.
    Succeed,
    /// Stop with the given error.
    Fail(IoErrorKind),
}

/// The step after `done` finished with `outcome`. Only a mode the
/// filesystem does not support falls back to binding without one; a failed
/// restriction unpublishes the socket before its error is reported; any
/// other failure stops.
pub open spec fn private_bind_next(done: PrivateBindAction, outcome: Result<(), IoErrorKind>) -> PrivateBindAction {
    match done {
        PrivateBindAction::BindWithMode => match outcome {
            Ok(()) => PrivateBindAction::Succeed,
            Err(kind) => if kind == IoErrorKind::Unsupported {
                PrivateBindAction::BindPlain
            } else {
                PrivateBindAction::Fail(kind)
            },
        },
        PrivateBindAction::BindPlain => match outcome {
            Ok(()) => PrivateBindAction::ReadIdentity,
            Err(kind) => PrivateBindAction::Fail(kind),
        },
        PrivateBindAction::ReadIdentity => match outcome {
            Ok(()) => PrivateBindAction::Restrict,
            Err(kind) => PrivateBindAction::Fail(kind),
        },
        PrivateBindAction::Restrict => match outcome {
            Ok(()) => PrivateBindAction::Succeed,
            Err(kind) => PrivateBindAction::Unpublish(kind),
        },
        PrivateBindAction::Unpublish(kind) => PrivateBindAction::Fail(kind),
        PrivateBindAction::Succeed => PrivateBindAction::Succeed,
        PrivateBindAction::Fail(kind) => PrivateBindAction::Fail(kind),
    }
}

/// Decides the next step of a private bind from the step just performed and
/// how it went (the outcome of an unpublish is ignored).
pub fn next_private_bind_action(done: PrivateBindAction, outcome: Result<(), IoErrorKind>) -> (r: PrivateBindAction)
    ensures
        r == private_bind_next(done, outcome),
{
    match done {
        PrivateBindAction::BindWithMode => match outcome {
            Ok(()) => PrivateBindAction::Succeed,
            Err(kind) => if kind == IoErrorKind::Unsupported {
                PrivateBindAction::BindPlain
            } else {
                PrivateBindAction::Fail(kind)
            },
        },
        PrivateBindAction::BindPlain => match outcome {
            Ok(()) => PrivateBindAction::ReadIdentity,
            Err(kind) => PrivateBindAction::Fail(kind),
        },
        PrivateBindAction::ReadIdentity => match outcome {
            Ok(()) => PrivateBindAction::Restrict,
            Err(kind) => PrivateBindAction::Fail(kind),
        },
        PrivateBindAction::Restrict => match outcome {
            Ok(()) => PrivateBindAction::Succeed,
            Err(kind) => PrivateBindAction::Unpublish(kind),
        },
        PrivateBindAction::Unpublish(kind) => PrivateBindAction::Fail(kind),
        PrivateBindAction::Succeed => PrivateBindAction::Succeed,
        PrivateBindAction::Fail(kind) => PrivateBindAction::Fail(kind),
    }
}

/// The steps a private bind takes from its first bind, given the outcome of
/// each step in turn; it stops at the first `Succeed` or `Fail`.
pub open spec fn private_bind_run(done: PrivateBindAction, outcomes: Seq<Result<(), IoErrorKind>>) -> PrivateBindAction
    decreases outcomes.len(),
{
    if outcomes.len() == 0 {
        done
    } else {
        match done {
            PrivateBindAction::Succeed => done,
            PrivateBindAction::Fail(_) => done,
            _ => private_bind_run(private_bind_next(done, outcomes[0]), outcomes.drop_first()),
        }
    }
}

/// A private bind never ends bound with the owner-only permissions missing:
/// whenever it succeeds, either the bind with the mode succeeded or the
/// restriction of the pathname did; and whenever the restriction fails the
/// socket is unpublished and the restriction's error is what is reported.
pub proof fn lemma_private_bind_never_leaves_an_unrestricted_socket(outcomes: Seq<Result<(), IoErrorKind>>)
    ensures
        private_bind_run(PrivateBindAction::BindWithMode, outcomes) == PrivateBindAction::Succeed ==> (
            outcomes.len() >= 1 && outcomes[0] is Ok
            || outcomes.len() >= 4 && outcomes[0] == Err::<(), IoErrorKind>(IoErrorKind::Unsupported)
                && outcomes[1] is Ok && outcomes[2] is Ok && outcomes[3] is Ok),
        forall|kind: IoErrorKind|
            outcomes.len() >= 4 && outcomes[0] == Err::<(), IoErrorKind>(IoErrorKind::Unsupported) && outcomes[1] is Ok
                && outcomes[2] is Ok && outcomes[3] == Err::<(), IoErrorKind>(kind) ==> {
                &&& outcomes.len() == 4 ==> #[trigger] private_bind_run(PrivateBindAction::BindWithMode, outcomes)
                    == PrivateBindAction::Unpublish(kind)
                &&& outcomes.len() >= 5 ==> private_bind_run(PrivateBindAction::BindWithMode, outcomes)
                    == PrivateBindAction::Fail(kind)
            },
{
    reveal_with_fuel(private_bind_run, 6);
    let o = outcomes;
    if o.len() >= 1 {
        let t1 = o.drop_first();
        if o.len() >= 2 {
            let t2 = t1.drop_first();
            assert(t1[0] == o[1]);
            if o.len() >= 3 {
                let t3 = t2.drop_first();
                assert(t2[0] == o[2]);
                if o.len() >= 4 {
                    let t4 = t3.drop_first();
                    assert(t3[0] == o[3]);
                    if o.len() >= 5 {
                        assert(t4[0] == o[4]);
                    }
                }
            }
        }
    }
}

} // verus!
