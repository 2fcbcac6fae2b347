//! Session persistence decisions: when a rename may fall back to a direct
//! write, which file a load is recovered from, and how the session file found
//! at startup is backed up before the first write.

use vstd::prelude::*;
use crate::platform::IoErrorKind;

verus! {

/// `rename` cannot replace the target across filesystems (or onto a busy
/// mount point); the write then goes to the target directly.
pub fn is_cross_filesystem_rename_error(kind: IoErrorKind) -> (r: bool)
    ensures
        r <==> (kind == IoErrorKind::ResourceBusy || kind == IoErrorKind::CrossesDevices),
{
    match kind {
        IoErrorKind::ResourceBusy => true,
        IoErrorKind::CrossesDevices => true,
        _ => false,
    }
}

/// The result of loading one file.
#[derive(Debug, Clone, PartialEq, Eq)]
pub enum LoadOutcome<T> {
    Loaded(T),
    /// A valid file from a newer version: never replaced by a recovery copy.
    UnsupportedVersion,
    /// Missing, unreadable or invalid.
    Unavailable,
}

/// What reading one file gave: a parsed value, or else the version the file
/// declares (if it declares one) against the supported version.
pub fn classify_load<T>(parsed: Option<T>, file_version: Option<u32>, supported: u32) -> (r: LoadOutcome<T>)
    ensures
        match parsed {
            Some(v) => r == LoadOutcome::Loaded(v),
            None => match file_version {
                Some(version) => if version > supported {
                    r == LoadOutcome::<T>::UnsupportedVersion
                } else {
                    r == LoadOutcome::<T>::Unavailable
                },
                None => r == LoadOutcome::<T>::Unavailable,
            },
        },
{
    match parsed {
        Some(v) => LoadOutcome::Loaded(v),
        None => match file_version {
            Some(version) => if version > supported {
                LoadOutcome::UnsupportedVersion
            } else {
                LoadOutcome::Unavailable
            },
            None => LoadOutcome::Unavailable,
        },
    }
}

/// The value a load with recovery yields from the main file's outcome and,
/// where one was read, the recovery copy's.
pub open spec fn recovered<T>(main: LoadOutcome<T>, recovery: LoadOutcome<T>) -> Option<T> {
    match main {
        LoadOutcome::Loaded(v) => Some(v),
        LoadOutcome::UnsupportedVersion => None,
        LoadOutcome::Unavailable => match recovery {
            LoadOutcome::Loaded(v) => Some(v),
            _ => None,
        },
    }
}

/// Loads the main file (`try_load(false)`) and falls back to its recovery
/// copy (`try_load(true)`) only when the main file is unavailable, never when
/// it is from a newer version.
pub fn load_with_recovery<T, F: Fn(bool) -> LoadOutcome<T>>(try_load: F) -> (r: Option<T>)
    requires
        forall|b: bool| try_load.requires((b,)),
    ensures
        exists|main: LoadOutcome<T>| #[trigger] try_load.ensures((false,), main) && match main {
            LoadOutcome::Unavailable => exists|rec: LoadOutcome<T>| #[trigger] try_load.ensures((true,), rec)
                && r == recovered(main, rec),
            _ => r == recovered(main, LoadOutcome::Unavailable),
        },
{
    let main = try_load(false);
    match main {
        LoadOutcome::Loaded(value) => Some(value),
        LoadOutcome::UnsupportedVersion => None,
        LoadOutcome::Unavailable => {
            let rec = try_load(true);
            proof {
                assert(try_load.ensures((true,), rec));
            }
            match rec {
                LoadOutcome::Loaded(value) => Some(value),
                _ => None,
            }
        },
    }
}

/// What a session writer has secured of the session file that was on disk
/// when the server started; its view is whether that file is safe.
pub struct SessionWriterState {
    startup_preserved: bool,
}

impl View for SessionWriterState {
    type V = bool;

    closed spec fn view(&self) -> bool {
        self.startup_preserved
    }
}

impl SessionWriterState {
    /// A writer that has not yet looked at the startup file.
    pub fn new() -> (r: Self)
        ensures
            !r@,
    {
        SessionWriterState { startup_preserved: false }
    }

    /// Whether the next save or clear must first try to back up the file
    /// found at startup; a file missing at startup is looked for again,
    /// since it may have become readable since.
    pub fn backup_needed(&self) -> (r: bool)
        ensures
            r == !self@,
    {
        !self.startup_preserved
    }

    /// Records the backup attempt made before a mutation: `Ok(true)` when the
    /// startup file was copied, `Ok(false)` when there was none. A failed
    /// backup changes nothing and is passed on, so that the save or clear it
    /// guarded does not happen.
    pub fn backup_finished(&mut self, outcome: Result<bool, IoErrorKind>) -> (r: Result<(), IoErrorKind>)
        requires
            !old(self)@,
        ensures
            match outcome {
                Ok(found) => r is Ok && final(self)@ == found,
                Err(kind) => r == Err::<(), IoErrorKind>(kind) && final(self)@ == old(self)@,
            },
    {
        match outcome {
            Ok(found) => {
                self.startup_preserved = found;
                Ok(())
            },
            Err(kind) => Err(kind),
        }
    }

    /// Records a save: once one succeeded, the file on disk is the writer's
    /// own and is never backed up again.
    pub fn save_finished(&mut self, succeeded: bool)
        ensures
            final(self)@ == (old(self)@ || succeeded),
    {
        if succeeded {
            self.startup_preserved = true;
        }
    }
}

/// One step of backing up the startup session file.
#[derive(Debug, Clone, Copy, PartialEq, Eq)]
pub enum BackupAction {
    /// Open the session file and look at its type.
    Open,
    /// Create the backup directory.
    CreateDirectory,
    /// Create, exclusively, the backup file under the name of this attempt.
    Create(u32),
    /// Copy the bytes into the backup and sync it and its directories.
    Copy,
    /// Remove the incomplete backup, then fail with the given error.
    RemoveIncomplete(IoErrorKind),
    /// Finished: whether a file was preserved, or the error.
    Finished(Result<bool, IoErrorKind>),
}

/// How many backup names are tried before giving up.
pub const BACKUP_NAME_ATTEMPTS: u32 = 128;

/// The step after `done` finished with `outcome` (for `Open`, `Ok(b)` says
/// whether the session path is a regular file; other steps ignore `b`).
/// A missing session file needs no backup; any other failure to open it,
/// or a path that is not a regular file, stops the backup and so the
/// mutation it guards. An existing backup name is never overwritten: the
/// next name is tried, up to the limit. An incomplete copy is removed.
pub open spec fn backup_next(done: BackupAction, outcome: Result<bool, IoErrorKind>) -> BackupAction {
    match done {
        BackupAction::Open => match outcome {
            Ok(is_file) => if is_file {
                BackupAction::CreateDirectory
            } else {
                BackupAction::Finished(Err(IoErrorKind::Other))
            },
            Err(kind) => if kind == IoErrorKind::NotFound {
                BackupAction::Finished(Ok(false))
            } else {
                BackupAction::Finished(Err(kind))
            },
        },
        BackupAction::CreateDirectory => match outcome {
            Ok(_) => BackupAction::Create(0),
            Err(kind) => BackupAction::Finished(Err(kind)),
        },
        BackupAction::Create(n) => match outcome {
            Ok(_) => BackupAction::Copy,
            Err(kind) => if kind == IoErrorKind::AlreadyExists {
                if n + 1 < BACKUP_NAME_ATTEMPTS {
                    BackupAction::Create((n + 1) as u32)
                } else {
                    BackupAction::Finished(Err(IoErrorKind::AlreadyExists))
                }
            } else {
                BackupAction::Finished(Err(kind))
            },
        },
        BackupAction::Copy => match outcome {
            Ok(_) => BackupAction::Finished(Ok(true)),
            Err(kind) => BackupAction::RemoveIncomplete(kind),
        },
        BackupAction::RemoveIncomplete(kind) => BackupAction::Finished(Err(kind)),
        BackupAction::Finished(result) => BackupAction::Finished(result),
    }
}

/// Decides the next step of backing up the startup session file.
pub fn next_backup_action(done: BackupAction, outcome: Result<bool, IoErrorKind>) -> (r: BackupAction)
    ensures
        r == backup_next(done, outcome),
{
    match done {
        BackupAction::Open => match outcome {
            Ok(is_file) => if is_file {
                BackupAction::CreateDirectory
            } else {
                BackupAction::Finished(Err(IoErrorKind::Other))
            },
            Err(kind) => if kind == IoErrorKind::NotFound {
                BackupAction::Finished(Ok(false))
            } else {
                BackupAction::Finished(Err(kind))
            },
        },
        BackupAction::CreateDirectory => match outcome {
            Ok(_) => BackupAction::Create(0),
            Err(kind) => BackupAction::Finished(Err(kind)),
        },
        BackupAction::Create(n) => match outcome {
            Ok(_) => BackupAction::Copy,
            Err(kind) => if kind == IoErrorKind::AlreadyExists {
                if n < BACKUP_NAME_ATTEMPTS - 1 {
                    BackupAction::Create(n + 1)
                } else {
                    BackupAction::Finished(Err(IoErrorKind::AlreadyExists))
                }
            } else {
                BackupAction::Finished(Err(kind))
            },
        },
        BackupAction::Copy => match outcome {
            Ok(_) => BackupAction::Finished(Ok(true)),
            Err(kind) => BackupAction::RemoveIncomplete(kind),
        },
        BackupAction::RemoveIncomplete(kind) => BackupAction::Finished(Err(kind)),
        BackupAction::Finished(result) => BackupAction::Finished(result),
    }
}

/// The state of a backup after the outcomes of its steps, in turn.
pub open spec fn backup_run(done: BackupAction, outcomes: Seq<Result<bool, IoErrorKind>>) -> BackupAction
    decreases outcomes.len(),
{
    if outcomes.len() == 0 || done is Finished {
        done
    } else {
        backup_run(backup_next(done, outcomes[0]), outcomes.drop_first())
    }
}

/// A backup only reports the startup file preserved after a copy into a
/// freshly created file succeeded, and only tries names below the limit.
pub proof fn lemma_backup_reports_preserved_only_after_a_copy(
    done: BackupAction,
    outcomes: Seq<Result<bool, IoErrorKind>>,
)
    requires
        done matches BackupAction::Create(n) ==> n < BACKUP_NAME_ATTEMPTS,
    ensures
        backup_run(done, outcomes) matches BackupAction::Create(n) ==> n < BACKUP_NAME_ATTEMPTS,
        backup_run(done, outcomes) == BackupAction::Finished(Ok(true)) && done != BackupAction::Finished(Ok(true)) ==> exists|i: int|
            0 <= i < outcomes.len() && outcomes[i] is Ok && #[trigger] backup_run(done, outcomes.take(i)) == BackupAction::Copy,
    decreases outcomes.len(),
{
    if outcomes.len() == 0 || done is Finished {
    } else {
        let next = backup_next(done, outcomes[0]);
        lemma_backup_reports_preserved_only_after_a_copy(next, outcomes.drop_first());
        assert(outcomes.take(0) =~= Seq::<Result<bool, IoErrorKind>>::empty());
        if backup_run(done, outcomes) == BackupAction::Finished(Ok(true)) && done != BackupAction::Finished(Ok(true)) {
            if next == BackupAction::Finished(Ok(true)) {
                assert(backup_run(done, outcomes.take(0)) == done);
                assert(done == BackupAction::Copy);
            } else {
                let i = choose|i: int| 0 <= i < outcomes.drop_first().len() && outcomes.drop_first()[i] is Ok
                    && #[trigger] backup_run(next, outcomes.drop_first().take(i)) == BackupAction::Copy;
                assert(outcomes.take(i + 1).drop_first() =~= outcomes.drop_first().take(i));
                assert(outcomes.take(i + 1)[0] == outcomes[0]);
                assert(backup_run(done, outcomes.take(i + 1)) == BackupAction::Copy);
                assert(outcomes[i + 1] is Ok);
            }
        }
    }
}

} // verus!
