//! Lifecycle of a pane's PTY workers across a live handoff to another
//! server: which work each state admits, how requests and worker reports
//! move it, and the timing rules of a prompt submission.

use vstd::prelude::*;
use crate::platform::IoErrorKind;

verus! {

/// The state the PTY workers share.
#[derive(Debug, Clone, Copy, PartialEq, Eq, Structural)]
pub enum ActorState {
    Running,
    /// A handoff asked the workers to pause and drain.
    Quiescing,
    /// The workers are paused and all accepted writes are out.
    Quiesced,
    /// The PTY now belongs to the server the handoff went to.
    Released,
    Shutdown,
}

/// An imported runtime starts paused until the handoff is activated.
pub fn initial_actor_state(initially_quiesced: bool) -> (r: ActorState)
    ensures
        r == if initially_quiesced {
            ActorState::Quiesced
        } else {
            ActorState::Running
        },
{
    if initially_quiesced {
        ActorState::Quiesced
    } else {
        ActorState::Running
    }
}

pub open spec fn spec_admits_io(state: ActorState) -> bool {
    state == ActorState::Running
}

/// Whether user input, terminal responses and resizes are accepted.
pub fn admits_io(state: ActorState) -> (r: bool)
    ensures
        r == spec_admits_io(state),
{
    state == ActorState::Running
}

/// Whether the workers are held where they are.
pub fn workers_paused(state: ActorState) -> (r: bool)
    ensures
        r == (state == ActorState::Quiescing || state == ActorState::Quiesced),
{
    state == ActorState::Quiescing || state == ActorState::Quiesced
}

/// Whether the PTY's handles may be duplicated for the receiving server.
pub fn may_duplicate_for_handoff(state: ActorState) -> (r: bool)
    ensures
        r == (state == ActorState::Quiesced),
{
    state == ActorState::Quiesced
}

/// Why a lifecycle request was refused.
#[derive(Debug, Clone, Copy, PartialEq, Eq, Structural)]
pub enum LifecycleRefusal {
    HandoffUnsupported,
    NotRunning,
    CannotResume,
    NotQuiescedForActivation,
    NotQuiescedForRelease,
}

impl LifecycleRefusal {
    /// The error kind a refusal is reported with.
    pub fn kind(self) -> (r: IoErrorKind)
        ensures
            r == match self {
                LifecycleRefusal::HandoffUnsupported => IoErrorKind::Unsupported,
                LifecycleRefusal::CannotResume => IoErrorKind::BrokenPipe,
                _ => IoErrorKind::Other,
            },
    {
        match self {
            LifecycleRefusal::HandoffUnsupported => IoErrorKind::Unsupported,
            LifecycleRefusal::CannotResume => IoErrorKind::BrokenPipe,
            _ => IoErrorKind::Other,
        }
    }

    /// The message a refusal is reported with.
    pub fn message(self) -> (r: String)
        ensures
            r@ == match self {
                LifecycleRefusal::HandoffUnsupported => "Windows PTY backend cannot be transferred"@,
                LifecycleRefusal::NotRunning => "PTY actor is not running"@,
                LifecycleRefusal::CannotResume => "PTY actor cannot resume"@,
                LifecycleRefusal::NotQuiescedForActivation => "PTY actor must be quiesced before activation"@,
                LifecycleRefusal::NotQuiescedForRelease => "PTY actor must be quiesced before release"@,
            },
    {
        match self {
            LifecycleRefusal::HandoffUnsupported => String::from_str("Windows PTY backend cannot be transferred"),
            LifecycleRefusal::NotRunning => String::from_str("PTY actor is not running"),
            LifecycleRefusal::CannotResume => String::from_str("PTY actor cannot resume"),
            LifecycleRefusal::NotQuiescedForActivation => String::from_str(
                "PTY actor must be quiesced before activation",
            ),
            LifecycleRefusal::NotQuiescedForRelease => String::from_str("PTY actor must be quiesced before release"),
        }
    }
}

/// What moves the lifecycle: requests of the server, and reports of the
/// handoff's progress.
#[derive(Debug, Clone, Copy, PartialEq, Eq, Structural)]
pub enum LifecycleEvent {
    /// Start handing the PTY off (`supported`: the backend can be transferred).
    BeginHandoff { supported: bool },
    /// The input worker could not be told to pause before the deadline.
    PauseUndeliverable,
    /// The control worker is gone.
    ControlClosed,
    /// Both workers paused and the writes drained.
    QuiesceSucceeded,
    /// Pausing or draining failed or timed out.
    QuiesceFailed,
    /// Abandon the handoff and resume.
    Rollback,
    /// The handoff was refused by the receiver: resume here.
    Activate,
    /// The receiver committed: give the PTY up.
    Release,
    Shutdown,
}

/// The requests a server makes, as opposed to reports of a handoff in
/// progress.
pub open spec fn is_request(event: LifecycleEvent) -> bool {
    match event {
        LifecycleEvent::BeginHandoff { .. } => true,
        LifecycleEvent::Rollback => true,
        LifecycleEvent::Activate => true,
        LifecycleEvent::Release => true,
        LifecycleEvent::Shutdown => true,
        LifecycleEvent::ControlClosed => true,
        _ => false,
    }
}

/// The state after `event`, and the refusal if the request was refused (a
/// refused request leaves the state as it was).
pub open spec fn lifecycle_next(state: ActorState, event: LifecycleEvent) -> (ActorState, Option<LifecycleRefusal>) {
    match event {
        LifecycleEvent::BeginHandoff { supported } => if !supported {
            (state, Some(LifecycleRefusal::HandoffUnsupported))
        } else if state != ActorState::Running {
            (state, Some(LifecycleRefusal::NotRunning))
        } else {
            (ActorState::Quiescing, None)
        },
        LifecycleEvent::PauseUndeliverable => (ActorState::Running, None),
        LifecycleEvent::ControlClosed => (ActorState::Shutdown, None),
        LifecycleEvent::QuiesceSucceeded => (ActorState::Quiesced, None),
        LifecycleEvent::QuiesceFailed => (ActorState::Running, None),
        LifecycleEvent::Rollback => if state == ActorState::Released || state == ActorState::Shutdown {
            (state, Some(LifecycleRefusal::CannotResume))
        } else {
            (ActorState::Running, None)
        },
        LifecycleEvent::Activate => if state == ActorState::Quiesced {
            (ActorState::Running, None)
        } else {
            (state, Some(LifecycleRefusal::NotQuiescedForActivation))
        },
        LifecycleEvent::Release => if state == ActorState::Quiesced {
            (ActorState::Released, None)
        } else {
            (state, Some(LifecycleRefusal::NotQuiescedForRelease))
        },
        LifecycleEvent::Shutdown => if state == ActorState::Released {
            (ActorState::Released, None)
        } else {
            (ActorState::Shutdown, None)
        },
    }
}

/// Applies one event.
pub fn lifecycle_step(state: ActorState, event: LifecycleEvent) -> (r: (ActorState, Option<LifecycleRefusal>))
    ensures
        r == lifecycle_next(state, event),
{
    match event {
        LifecycleEvent::BeginHandoff { supported } => if !supported {
            (state, Some(LifecycleRefusal::HandoffUnsupported))
        } else if state != ActorState::Running {
            (state, Some(LifecycleRefusal::NotRunning))
        } else {
            (ActorState::Quiescing, None)
        },
        LifecycleEvent::PauseUndeliverable => (ActorState::Running, None),
        LifecycleEvent::ControlClosed => (ActorState::Shutdown, None),
        LifecycleEvent::QuiesceSucceeded => (ActorState::Quiesced, None),
        LifecycleEvent::QuiesceFailed => (ActorState::Running, None),
        LifecycleEvent::Rollback => if state == ActorState::Released || state == ActorState::Shutdown {
            (state, Some(LifecycleRefusal::CannotResume))
        } else {
            (ActorState::Running, None)
        },
        LifecycleEvent::Activate => if state == ActorState::Quiesced {
            (ActorState::Running, None)
        } else {
            (state, Some(LifecycleRefusal::NotQuiescedForActivation))
        },
        LifecycleEvent::Release => if state == ActorState::Quiesced {
            (ActorState::Released, None)
        } else {
            (state, Some(LifecycleRefusal::NotQuiescedForRelease))
        },
        LifecycleEvent::Shutdown => if state == ActorState::Released {
            (ActorState::Released, None)
        } else {
            (ActorState::Shutdown, None)
        },
    }
}

/// The state after a sequence of events.
pub open spec fn lifecycle_run(state: ActorState, events: Seq<LifecycleEvent>) -> ActorState
    decreases events.len(),
{
    if events.len() == 0 {
        state
    } else {
        lifecycle_run(lifecycle_next(state, events[0]).0, events.drop_first())
    }
}

/// The events that end a pause: a rollback, an activation, or a handoff
/// that could not start or could not quiesce.
pub open spec fn resumes(event: LifecycleEvent) -> bool {
    ||| event == LifecycleEvent::Rollback
    ||| event == LifecycleEvent::Activate
    ||| event == LifecycleEvent::QuiesceFailed
    ||| event == LifecycleEvent::PauseUndeliverable
}

/// Once a handoff has begun, no user input, terminal response or resize is
/// admitted until something resumes the workers.
pub proof fn lemma_handoff_closes_admission(state: ActorState, events: Seq<LifecycleEvent>)
    requires
        !spec_admits_io(state),
        forall|i: int| 0 <= i < events.len() ==> !resumes(#[trigger] events[i]),
    ensures
        !spec_admits_io(lifecycle_run(state, events)),
    decreases events.len(),
{
    if events.len() > 0 {
        assert(!resumes(events[0]));
        let rest = events.drop_first();
        assert forall|i: int| 0 <= i < rest.len() implies !resumes(#[trigger] rest[i]) by {
            assert(rest[i] == events[i + 1]);
        }
        lemma_handoff_closes_admission(lifecycle_next(state, events[0]).0, rest);
    }
}

/// A released or shut-down PTY never runs, pauses or is quiesced again by
/// any request of the server; only a late report of a handoff that was in
/// flight can still move it.
pub proof fn lemma_released_and_shutdown_are_final(state: ActorState, events: Seq<LifecycleEvent>)
    requires
        state == ActorState::Released || state == ActorState::Shutdown,
        forall|i: int| 0 <= i < events.len() ==> is_request(#[trigger] events[i]),
    ensures
        lifecycle_run(state, events) == ActorState::Released || lifecycle_run(state, events) == ActorState::Shutdown,
        state == ActorState::Released && (forall|i: int| 0 <= i < events.len() ==> events[i] != LifecycleEvent::ControlClosed)
            ==> lifecycle_run(state, events) == ActorState::Released,
    decreases events.len(),
{
    if events.len() > 0 {
        assert(is_request(events[0]));
        let rest = events.drop_first();
        assert forall|i: int| 0 <= i < rest.len() implies is_request(#[trigger] rest[i]) by {
            assert(rest[i] == events[i + 1]);
        }
        if state == ActorState::Released && (forall|i: int| 0 <= i < events.len() ==> events[i] != LifecycleEvent::ControlClosed) {
            assert(events[0] != LifecycleEvent::ControlClosed);
            assert forall|i: int| 0 <= i < rest.len() implies rest[i] != LifecycleEvent::ControlClosed by {
                assert(rest[i] == events[i + 1]);
            }
        }
        lemma_released_and_shutdown_are_final(lifecycle_next(state, events[0]).0, rest);
    }
}

/// When a prompt is submitted with a deadline: with `remaining` time left
/// and `delay` between the text and Enter, a submission that cannot finish
/// before the deadline times out unwritten; otherwise the text is written
/// with the deadline moved earlier by the delay, and Enter without one.
#[derive(Debug, Clone, Copy, PartialEq, Eq, Structural)]
pub enum SubmissionPlan {
    TimedOut,
    /// Write the text if it can start within this much time (no limit for
    /// `None`), wait the delay, then write Enter.
    Write { text_remaining: Option<u128> },
}

/// Plans a submission from the time left before its deadline (nanoseconds;
/// `None`: no deadline) and the delay before Enter.
pub fn plan_submission(remaining: Option<u128>, delay: u128) -> (r: SubmissionPlan)
    ensures
        r == match remaining {
            Some(left) => if left <= delay {
                SubmissionPlan::TimedOut
            } else {
                SubmissionPlan::Write { text_remaining: Some((left - delay) as u128) }
            },
            None => SubmissionPlan::Write { text_remaining: None },
        },
{
    match remaining {
        Some(left) => if left <= delay {
            SubmissionPlan::TimedOut
        } else {
            SubmissionPlan::Write { text_remaining: Some(left - delay) }
        },
        None => SubmissionPlan::Write { text_remaining: None },
    }
}

/// A queued part of a submission is dropped unwritten once its deadline has
/// passed (no time left).
pub fn submission_part_expired(remaining: Option<u128>) -> (r: bool)
    ensures
        r == (remaining == Some(0u128)),
{
    match remaining {
        Some(left) => left == 0,
        None => false,
    }
}

/// A failed submission stops the worker that wrote it, unless it only timed
/// out.
pub fn submission_failure_stops_worker(result: Result<(), IoErrorKind>) -> (r: bool)
    ensures
        r == (result matches Err(kind) && kind != IoErrorKind::TimedOut),
{
    match result {
        Ok(()) => false,
        Err(kind) => kind != IoErrorKind::TimedOut,
    }
}

/// What the handoff does while it waits for both workers to pause.
#[derive(Debug, Clone, Copy, PartialEq, Eq, Structural)]
pub enum QuiesceStep {
    /// Both paused: drain the writes that were accepted.
    Drain,
    /// The deadline passed first.
    GiveUp,
    /// Interrupt the reader's blocking read, then look again.
    CancelReaderThenWait,
    /// Look again shortly.
    Wait,
}

/// Decides the next step of quiescing from which workers acknowledged the
/// pause and whether the deadline has passed.
pub fn quiesce_step(input_paused: bool, reader_paused: bool, deadline_passed: bool) -> (r: QuiesceStep)
    ensures
        r == if input_paused && reader_paused {
            QuiesceStep::Drain
        } else if deadline_passed {
            QuiesceStep::GiveUp
        } else if !reader_paused {
            QuiesceStep::CancelReaderThenWait
        } else {
            QuiesceStep::Wait
        },
{
    if input_paused && reader_paused {
        QuiesceStep::Drain
    } else if deadline_passed {
        QuiesceStep::GiveUp
    } else if !reader_paused {
        QuiesceStep::CancelReaderThenWait
    } else {
        QuiesceStep::Wait
    }
}

} // verus!
