use herdr_core::platform::IoErrorKind;
use herdr_core::pty_lifecycle::{
    admits_io, initial_actor_state, lifecycle_step, may_duplicate_for_handoff, plan_submission, quiesce_step,
    submission_failure_stops_worker, submission_part_expired, workers_paused, ActorState, LifecycleEvent,
    LifecycleRefusal, QuiesceStep, SubmissionPlan,
};

#[test]
fn handoff_pauses_then_releases_or_resumes() {
    let running = initial_actor_state(false);
    assert_eq!(running, ActorState::Running);
    assert!(admits_io(running));
    let (quiescing, refusal) = lifecycle_step(running, LifecycleEvent::BeginHandoff { supported: true });
    assert_eq!((quiescing, refusal), (ActorState::Quiescing, None));
    assert!(!admits_io(quiescing) && workers_paused(quiescing));
    let (quiesced, _) = lifecycle_step(quiescing, LifecycleEvent::QuiesceSucceeded);
    assert!(may_duplicate_for_handoff(quiesced));
    assert_eq!(lifecycle_step(quiesced, LifecycleEvent::Activate), (ActorState::Running, None));
    assert_eq!(lifecycle_step(quiesced, LifecycleEvent::Release), (ActorState::Released, None));
    assert_eq!(lifecycle_step(quiescing, LifecycleEvent::QuiesceFailed), (ActorState::Running, None));
}

#[test]
fn lifecycle_requests_are_refused_in_the_wrong_state() {
    let refused = lifecycle_step(ActorState::Running, LifecycleEvent::BeginHandoff { supported: false });
    assert_eq!(refused, (ActorState::Running, Some(LifecycleRefusal::HandoffUnsupported)));
    assert_eq!(refused.1.unwrap().kind(), IoErrorKind::Unsupported);
    assert_eq!(refused.1.unwrap().message(), "Windows PTY backend cannot be transferred");
    assert_eq!(
        lifecycle_step(ActorState::Quiesced, LifecycleEvent::BeginHandoff { supported: true }),
        (ActorState::Quiesced, Some(LifecycleRefusal::NotRunning))
    );
    assert_eq!(
        lifecycle_step(ActorState::Released, LifecycleEvent::Rollback),
        (ActorState::Released, Some(LifecycleRefusal::CannotResume))
    );
    assert_eq!(LifecycleRefusal::CannotResume.kind(), IoErrorKind::BrokenPipe);
    assert_eq!(
        lifecycle_step(ActorState::Running, LifecycleEvent::Activate),
        (ActorState::Running, Some(LifecycleRefusal::NotQuiescedForActivation))
    );
    assert_eq!(
        lifecycle_step(ActorState::Quiescing, LifecycleEvent::Release),
        (ActorState::Quiescing, Some(LifecycleRefusal::NotQuiescedForRelease))
    );
    assert_eq!(lifecycle_step(ActorState::Released, LifecycleEvent::Shutdown), (ActorState::Released, None));
    assert_eq!(lifecycle_step(ActorState::Quiesced, LifecycleEvent::Shutdown), (ActorState::Shutdown, None));
    assert_eq!(initial_actor_state(true), ActorState::Quiesced);
}

#[test]
fn submissions_time_out_when_enter_cannot_follow_in_time() {
    assert_eq!(plan_submission(None, 50), SubmissionPlan::Write { text_remaining: None });
    assert_eq!(plan_submission(Some(50), 50), SubmissionPlan::TimedOut);
    assert_eq!(plan_submission(Some(80), 50), SubmissionPlan::Write { text_remaining: Some(30) });
    assert!(submission_part_expired(Some(0)));
    assert!(!submission_part_expired(Some(1)));
    assert!(!submission_part_expired(None));
    assert!(!submission_failure_stops_worker(Ok(())));
    assert!(!submission_failure_stops_worker(Err(IoErrorKind::TimedOut)));
    assert!(submission_failure_stops_worker(Err(IoErrorKind::BrokenPipe)));
}

#[test]
fn quiescing_waits_for_both_workers_until_the_deadline() {
    assert_eq!(quiesce_step(true, true, true), QuiesceStep::Drain);
    assert_eq!(quiesce_step(true, false, true), QuiesceStep::GiveUp);
    assert_eq!(quiesce_step(true, false, false), QuiesceStep::CancelReaderThenWait);
    assert_eq!(quiesce_step(false, true, false), QuiesceStep::Wait);
}
