use herdr_core::platform::IoErrorKind;
use herdr_core::platform::desktop_bootstrap::desktop_task_arguments;
use herdr_core::remote_desktop::{
    decode_windows_remote_path, desktop_inspection_error, desktop_start_poll, inspect_desktop_host,
    placement_allowed, selected_login_is_unique, sorted_unique, started_in_session, task_session_id,
    verify_desktop_peer, windows_remote_binary_paths, DesktopStartPoll, RemoteDesktopInspection,
};
use herdr_core::remote_desktop::{
    desktop_start_begin, desktop_start_error, desktop_start_step, DesktopStart, DesktopStartAction,
    DesktopStartEvent, DesktopStartFailure,
};

#[test]
fn reported_paths_are_decoded_once_each_in_order() {
    // "C:\Herdr Test\herdr.exe" and "D:\h.exe" in standard base64.
    let first = "QzpcSGVyZHIgVGVzdFxoZXJkci5leGU=";
    let second = "RDpcaC5leGU=";
    let stdout = format!(
        "noise\r\nherdr-remote-path:1:{first}\r\n  herdr-remote-path:1:{second}\nherdr-remote-path:1:{first}\nherdr-remote-path:1:!!\n"
    );
    assert_eq!(
        windows_remote_binary_paths(&stdout),
        vec!["C:\\Herdr Test\\herdr.exe".to_string(), "D:\\h.exe".to_string()]
    );
    assert!(windows_remote_binary_paths("").is_empty());
}

#[test]
fn reported_path_must_be_non_empty_utf8() {
    assert_eq!(decode_windows_remote_path("RDpcaC5leGU="), Some("D:\\h.exe".to_string()));
    assert_eq!(decode_windows_remote_path(""), None);
    assert_eq!(decode_windows_remote_path("/w=="), None);
    assert_eq!(decode_windows_remote_path("not base64!"), None);
}

#[test]
fn desktop_placement_decisions() {
    let ready = RemoteDesktopInspection::Ready { pid: 10, windows_session: 2 };
    let start = RemoteDesktopInspection::Start { windows_session: 2 };
    assert!(placement_allowed(ready));
    assert!(placement_allowed(start));
    assert!(!placement_allowed(RemoteDesktopInspection::NoLogin));
    assert!(started_in_session(ready, 2));
    assert!(!started_in_session(ready, 3));
    assert!(!started_in_session(start, 2));
}

#[test]
fn desktop_placement_errors_name_the_problem() {
    assert_eq!(
        desktop_inspection_error(RemoteDesktopInspection::Conflict { pid: 4321, windows_session: 7 }),
        (
            IoErrorKind::AlreadyExists,
            "remote Herdr server process 4321 is running in nonqualifying Windows session 7; use another --session or stop it explicitly".to_string()
        )
    );
    assert_eq!(desktop_inspection_error(RemoteDesktopInspection::NoLogin).0, IoErrorKind::NotFound);
    assert_eq!(desktop_inspection_error(RemoteDesktopInspection::MultipleLogins).0, IoErrorKind::Unsupported);
    assert_eq!(
        desktop_inspection_error(RemoteDesktopInspection::Start { windows_session: 1 }),
        (IoErrorKind::TimedOut, "the Windows desktop Herdr server did not become ready".to_string())
    );
    assert_eq!(
        desktop_inspection_error(RemoteDesktopInspection::Ready { pid: 1, windows_session: 1 }).0,
        IoErrorKind::Other
    );
}

#[test]
fn eligible_sessions_are_sorted_without_repeats() {
    assert_eq!(sorted_unique(&vec![5, 2, 5, 9, 2, 1]), vec![1, 2, 5, 9]);
    assert_eq!(sorted_unique(&vec![]), Vec::<u32>::new());
    assert!(selected_login_is_unique(&vec![3], 3));
    assert!(!selected_login_is_unique(&vec![3, 4], 3));
    assert!(!selected_login_is_unique(&vec![4], 3));
}

#[test]
fn host_inspection_follows_logins_and_the_listening_server() {
    assert_eq!(inspect_desktop_host(&vec![], None), RemoteDesktopInspection::NoLogin);
    assert_eq!(inspect_desktop_host(&vec![2], None), RemoteDesktopInspection::Start { windows_session: 2 });
    assert_eq!(inspect_desktop_host(&vec![2, 3], None), RemoteDesktopInspection::MultipleLogins);
    assert_eq!(
        inspect_desktop_host(&vec![2], Some((40, true, 2))),
        RemoteDesktopInspection::Ready { pid: 40, windows_session: 2 }
    );
    assert_eq!(
        inspect_desktop_host(&vec![2], Some((40, false, 2))),
        RemoteDesktopInspection::Conflict { pid: 40, windows_session: 2 }
    );
    assert_eq!(
        inspect_desktop_host(&vec![2], Some((40, true, 0))),
        RemoteDesktopInspection::Conflict { pid: 40, windows_session: 0 }
    );
}

#[test]
fn desktop_peer_must_be_this_account_in_an_eligible_login() {
    assert_eq!(verify_desktop_peer(7, true, 2, &vec![2]), None);
    assert_eq!(
        verify_desktop_peer(7, false, 2, &vec![2]),
        Some((IoErrorKind::PermissionDenied, "remote Herdr server process 7 belongs to a different Windows account".to_string()))
    );
    assert_eq!(verify_desktop_peer(7, true, 1, &vec![2]).unwrap().0, IoErrorKind::AlreadyExists);
}

#[test]
fn desktop_start_polls_until_ready_or_deadline() {
    let ready = RemoteDesktopInspection::Ready { pid: 10, windows_session: 2 };
    assert_eq!(desktop_start_poll(Some(ready), 2, 10, true), DesktopStartPoll::Ready { stop_owned_process: false });
    assert_eq!(desktop_start_poll(Some(ready), 2, 11, true), DesktopStartPoll::Ready { stop_owned_process: true });
    assert_eq!(desktop_start_poll(Some(ready), 2, 0, true), DesktopStartPoll::Wait);
    assert_eq!(desktop_start_poll(Some(ready), 3, 10, false), DesktopStartPoll::TimedOut);
    let conflict = RemoteDesktopInspection::Conflict { pid: 10, windows_session: 1 };
    assert_eq!(desktop_start_poll(Some(conflict), 2, 10, true), DesktopStartPoll::WrongDesktop);
    assert_eq!(desktop_start_poll(None, 2, 10, true), DesktopStartPoll::Wait);
    assert_eq!(desktop_start_poll(None, 2, 10, false), DesktopStartPoll::Failed);
    assert_eq!(task_session_id(5), Some(5));
    assert_eq!(task_session_id(u32::MAX), None);
}

#[test]
fn desktop_task_arguments_are_quoted_for_windows() {
    assert_eq!(
        desktop_task_arguments("abc", Some("my agents".to_string())),
        "--desktop-bootstrap abc --session \"my agents\" server"
    );
    assert_eq!(desktop_task_arguments("abc", None), "--desktop-bootstrap abc server");
}

#[test]
fn desktop_start_registers_rechecks_and_runs_in_the_selected_session() {
    let (state, action) = desktop_start_begin(3);
    assert_eq!(action, DesktopStartAction::CheckLogin);
    let (state, action) = desktop_start_step(state, DesktopStartEvent::LoginChecked { unique: true });
    assert_eq!(action, DesktopStartAction::RegisterTask { session_id: 3 });
    let (state, action) = desktop_start_step(state, DesktopStartEvent::TaskRegistered);
    assert_eq!(action, DesktopStartAction::CheckLogin);
    let (state, action) = desktop_start_step(state, DesktopStartEvent::LoginChecked { unique: true });
    assert_eq!(action, DesktopStartAction::RunTask { session_id: 3 });
    let (state, action) = desktop_start_step(state, DesktopStartEvent::TaskStarted);
    assert_eq!((state, action), (DesktopStart::Polling, DesktopStartAction::StartPolling));
}

#[test]
fn desktop_start_failures_remove_a_registered_task_first() {
    let (state, _) = desktop_start_begin(3);
    let (_, action) = desktop_start_step(state, DesktopStartEvent::LoginChecked { unique: false });
    assert_eq!(action, DesktopStartAction::Fail(DesktopStartFailure::LoginNotUnique));
    let (_, action) = desktop_start_step(desktop_start_begin(u32::MAX).0, DesktopStartEvent::LoginChecked { unique: true });
    assert_eq!(action, DesktopStartAction::Fail(DesktopStartFailure::SessionIdTooLarge));

    let (state, _) = desktop_start_step(state, DesktopStartEvent::LoginChecked { unique: true });
    let (state, _) = desktop_start_step(state, DesktopStartEvent::TaskRegistered);
    let (changed, action) = desktop_start_step(state, DesktopStartEvent::LoginChecked { unique: false });
    assert_eq!(action, DesktopStartAction::DeleteTask);
    let (_, action) = desktop_start_step(changed, DesktopStartEvent::TaskDeleted);
    assert_eq!(action, DesktopStartAction::Fail(DesktopStartFailure::LoginChanged));
    let (_, action) = desktop_start_step(changed, DesktopStartEvent::TaskDeletionFailed);
    assert_eq!(action, DesktopStartAction::Fail(DesktopStartFailure::CleanupFailed));

    let (running, _) = desktop_start_step(state, DesktopStartEvent::LoginChecked { unique: true });
    let (_, action) = desktop_start_step(running, DesktopStartEvent::TaskStartFailed);
    assert_eq!(action, DesktopStartAction::DeleteTask);

    let (kind, message) = desktop_start_error(DesktopStartFailure::LoginChanged).unwrap();
    assert_eq!(kind, IoErrorKind::NotFound);
    assert_eq!(message, "the selected Windows desktop login changed before Herdr could start");
    let (kind, _) = desktop_start_error(DesktopStartFailure::SessionIdTooLarge).unwrap();
    assert_eq!(kind, IoErrorKind::InvalidInput);
    assert!(desktop_start_error(DesktopStartFailure::StepFailed).is_none());
}
