use herdr_core::ipc::{
    classify_probe_read, classify_stream_read, is_connection_closed_error, named_pipe_availability,
    next_private_bind_action, stale_socket_connect_error, windows_named_pipe_closed_error, LocalStreamReadCount,
    PrivateBindAction,
};
use herdr_core::persist::{
    classify_load, is_cross_filesystem_rename_error, load_with_recovery, next_backup_action, BackupAction, LoadOutcome,
    SessionWriterState, BACKUP_NAME_ATTEMPTS,
};
use herdr_core::platform::IoErrorKind;
use std::cell::Cell;

#[test]
fn cross_filesystem_rename_error_detection() {
    assert!(is_cross_filesystem_rename_error(IoErrorKind::ResourceBusy));
    assert!(is_cross_filesystem_rename_error(IoErrorKind::CrossesDevices));
    assert!(!is_cross_filesystem_rename_error(IoErrorKind::PermissionDenied));
}

#[test]
fn stale_socket_connect_errors_keep_unix_would_block_strict() {
    let windows = false;
    assert!(stale_socket_connect_error(IoErrorKind::ConnectionRefused, windows));
    assert!(stale_socket_connect_error(IoErrorKind::NotFound, windows));
    assert!(stale_socket_connect_error(IoErrorKind::TimedOut, windows));
    assert_eq!(stale_socket_connect_error(IoErrorKind::WouldBlock, windows), windows);
}

#[test]
fn would_block_is_stale_only_for_windows_pipes() {
    assert!(stale_socket_connect_error(IoErrorKind::WouldBlock, true));
    assert!(!stale_socket_connect_error(IoErrorKind::PermissionDenied, true));
}

#[test]
fn recovery_copy_is_read_only_when_the_main_file_is_unavailable() {
    let reads = Cell::new(0);
    let loaded = load_with_recovery(|tmp: bool| {
        reads.set(reads.get() + 1);
        if tmp { LoadOutcome::Loaded("recovered") } else { LoadOutcome::Loaded("main") }
    });
    assert_eq!(loaded, Some("main"));
    assert_eq!(reads.get(), 1);

    let loaded = load_with_recovery(|tmp: bool| if tmp { LoadOutcome::Loaded(2) } else { LoadOutcome::Unavailable });
    assert_eq!(loaded, Some(2));

    let loaded = load_with_recovery(|tmp: bool| if tmp { LoadOutcome::Loaded(2) } else { LoadOutcome::UnsupportedVersion });
    assert_eq!(loaded, None);

    let loaded = load_with_recovery(|tmp: bool| {
        if tmp { LoadOutcome::<u8>::UnsupportedVersion } else { LoadOutcome::Unavailable }
    });
    assert_eq!(loaded, None);
}

#[test]
fn newer_files_are_unsupported_not_unavailable() {
    assert_eq!(classify_load(Some(7), Some(99), 3), LoadOutcome::Loaded(7));
    assert_eq!(classify_load::<u8>(None, Some(4), 3), LoadOutcome::UnsupportedVersion);
    assert_eq!(classify_load::<u8>(None, Some(3), 3), LoadOutcome::Unavailable);
    assert_eq!(classify_load::<u8>(None, None, 3), LoadOutcome::Unavailable);
}

#[test]
fn departed_peers_are_recognised_by_error_kind_and_pipe_code() {
    for kind in [
        IoErrorKind::BrokenPipe,
        IoErrorKind::ConnectionAborted,
        IoErrorKind::ConnectionReset,
        IoErrorKind::NotConnected,
        IoErrorKind::UnexpectedEof,
        IoErrorKind::WriteZero,
    ] {
        assert!(is_connection_closed_error(kind));
    }
    assert!(!is_connection_closed_error(IoErrorKind::WouldBlock));
    assert!(!is_connection_closed_error(IoErrorKind::TimedOut));
    for code in [6, 109, 232, 233] {
        assert!(windows_named_pipe_closed_error(Some(code)));
    }
    assert!(!windows_named_pipe_closed_error(Some(5)));
    assert!(!windows_named_pipe_closed_error(None));
}

#[test]
fn stream_reads_are_classified_per_platform() {
    assert_eq!(classify_stream_read(Ok(0), false), Ok(LocalStreamReadCount::Closed));
    assert_eq!(classify_stream_read(Ok(5), false), Ok(LocalStreamReadCount::Data(5)));
    assert_eq!(classify_stream_read(Err(IoErrorKind::WouldBlock), false), Ok(LocalStreamReadCount::Pending));
    assert_eq!(classify_stream_read(Err(IoErrorKind::BrokenPipe), false), Err(IoErrorKind::BrokenPipe));
    assert_eq!(classify_stream_read(Err(IoErrorKind::BrokenPipe), true), Ok(LocalStreamReadCount::Closed));
    assert_eq!(classify_stream_read(Err(IoErrorKind::WouldBlock), true), Err(IoErrorKind::WouldBlock));
    assert_eq!(named_pipe_availability(None), Some(LocalStreamReadCount::Closed));
    assert_eq!(named_pipe_availability(Some(0)), Some(LocalStreamReadCount::Pending));
    assert_eq!(named_pipe_availability(Some(3)), None);
    assert_eq!(classify_probe_read(Ok(0)), Ok(true));
    assert_eq!(classify_probe_read(Ok(1)), Ok(true));
    assert_eq!(classify_probe_read(Err(IoErrorKind::Interrupted)), Ok(false));
    assert_eq!(classify_probe_read(Err(IoErrorKind::ConnectionReset)), Ok(true));
    assert_eq!(classify_probe_read(Err(IoErrorKind::PermissionDenied)), Err(IoErrorKind::PermissionDenied));
}

#[test]
fn private_bind_falls_back_only_when_the_mode_is_unsupported() {
    let start = PrivateBindAction::BindWithMode;
    assert_eq!(next_private_bind_action(start, Ok(())), PrivateBindAction::Succeed);
    assert_eq!(next_private_bind_action(start, Err(IoErrorKind::Unsupported)), PrivateBindAction::BindPlain);
    for kind in [IoErrorKind::PermissionDenied, IoErrorKind::Other, IoErrorKind::NotFound] {
        assert_eq!(next_private_bind_action(start, Err(kind)), PrivateBindAction::Fail(kind));
    }
    assert_eq!(next_private_bind_action(PrivateBindAction::BindPlain, Ok(())), PrivateBindAction::ReadIdentity);
    assert_eq!(next_private_bind_action(PrivateBindAction::ReadIdentity, Ok(())), PrivateBindAction::Restrict);
    assert_eq!(next_private_bind_action(PrivateBindAction::Restrict, Ok(())), PrivateBindAction::Succeed);
    assert_eq!(
        next_private_bind_action(PrivateBindAction::Restrict, Err(IoErrorKind::PermissionDenied)),
        PrivateBindAction::Unpublish(IoErrorKind::PermissionDenied)
    );
    assert_eq!(
        next_private_bind_action(PrivateBindAction::Unpublish(IoErrorKind::PermissionDenied), Err(IoErrorKind::NotFound)),
        PrivateBindAction::Fail(IoErrorKind::PermissionDenied)
    );
}

#[test]
fn startup_session_is_backed_up_until_preserved_or_overwritten_by_a_save() {
    let mut state = SessionWriterState::new();
    assert!(state.backup_needed());
    assert_eq!(state.backup_finished(Err(IoErrorKind::PermissionDenied)), Err(IoErrorKind::PermissionDenied));
    assert!(state.backup_needed());
    assert_eq!(state.backup_finished(Ok(false)), Ok(()));
    assert!(state.backup_needed());
    state.save_finished(false);
    assert!(state.backup_needed());
    state.save_finished(true);
    assert!(!state.backup_needed());

    let mut state = SessionWriterState::new();
    assert_eq!(state.backup_finished(Ok(true)), Ok(()));
    assert!(!state.backup_needed());
    state.save_finished(false);
    assert!(!state.backup_needed());
}

#[test]
fn backup_never_overwrites_and_removes_an_incomplete_copy() {
    assert_eq!(next_backup_action(BackupAction::Open, Err(IoErrorKind::NotFound)), BackupAction::Finished(Ok(false)));
    assert_eq!(
        next_backup_action(BackupAction::Open, Err(IoErrorKind::PermissionDenied)),
        BackupAction::Finished(Err(IoErrorKind::PermissionDenied))
    );
    assert_eq!(next_backup_action(BackupAction::Open, Ok(false)), BackupAction::Finished(Err(IoErrorKind::Other)));
    assert_eq!(next_backup_action(BackupAction::Open, Ok(true)), BackupAction::CreateDirectory);
    assert_eq!(next_backup_action(BackupAction::CreateDirectory, Ok(true)), BackupAction::Create(0));
    assert_eq!(next_backup_action(BackupAction::Create(0), Err(IoErrorKind::AlreadyExists)), BackupAction::Create(1));
    assert_eq!(
        next_backup_action(BackupAction::Create(BACKUP_NAME_ATTEMPTS - 1), Err(IoErrorKind::AlreadyExists)),
        BackupAction::Finished(Err(IoErrorKind::AlreadyExists))
    );
    assert_eq!(next_backup_action(BackupAction::Create(3), Ok(true)), BackupAction::Copy);
    assert_eq!(next_backup_action(BackupAction::Copy, Ok(true)), BackupAction::Finished(Ok(true)));
    assert_eq!(
        next_backup_action(BackupAction::Copy, Err(IoErrorKind::Other)),
        BackupAction::RemoveIncomplete(IoErrorKind::Other)
    );
    assert_eq!(
        next_backup_action(BackupAction::RemoveIncomplete(IoErrorKind::Other), Ok(true)),
        BackupAction::Finished(Err(IoErrorKind::Other))
    );
}
