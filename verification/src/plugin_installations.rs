//! Leases on managed plugin installations: which installation a path
//! belongs to, which installations a starting server keeps, and which
//! retired ones cleanup may remove.

use vstd::prelude::*;
use crate::platform::IoErrorKind;
use crate::text::{chars_of, eq_lit};

verus! {

/// The installation a path belongs to, from the path's components below
/// the installations root: the plugin and generation directories, when the
/// path lies inside that installation's `checkout`.
pub open spec fn lease_installation_of(components: Seq<String>) -> Option<(String, String)> {
    if components.len() >= 3 && components[2]@ == "checkout"@ {
        Some((components[0], components[1]))
    } else {
        None
    }
}

/// Finds the installation a path's components name.
pub fn lease_installation(components: &Vec<String>) -> (r: Option<(String, String)>)
    ensures
        r == lease_installation_of(components@),
{
    if components.len() >= 3 && eq_lit(&chars_of(components[2].as_str()), "checkout") {
        Some((components[0].clone(), components[1].clone()))
    } else {
        None
    }
}

/// What trying an installation's lock found.
#[derive(Debug, Clone, Copy, PartialEq, Eq, Structural)]
pub enum LeaseLock {
    /// Nobody else holds it.
    Free,
    /// Another server or command holds it.
    HeldElsewhere,
    Failed(IoErrorKind),
}

/// Whether a starting server looks at an installation's lock at all: only
/// for one a restored pane works in, or during a handoff, when the outgoing
/// server may hold it.
pub fn startup_probe_needed(referenced: bool, handoff: bool) -> (r: bool)
    ensures
        r == (referenced || handoff),
{
    referenced || handoff
}

/// Whether a starting server keeps a lease on an installation it probed:
/// one a restored pane works in always, and otherwise one the outgoing
/// server still holds.
pub fn startup_retains(referenced: bool, lock: LeaseLock) -> (r: Result<bool, IoErrorKind>)
    ensures
        r == match lock {
            LeaseLock::Free => Ok::<bool, IoErrorKind>(referenced),
            LeaseLock::HeldElsewhere => Ok::<bool, IoErrorKind>(true),
            LeaseLock::Failed(kind) => Err::<bool, IoErrorKind>(kind),
        },
{
    match lock {
        LeaseLock::Free => Ok(referenced),
        LeaseLock::HeldElsewhere => Ok(true),
        LeaseLock::Failed(kind) => Err(kind),
    }
}

/// What cleanup does with an installation after trying one of its locks.
#[derive(Debug, Clone, Copy, PartialEq, Eq, Structural)]
pub enum CleanupStep {
    /// Someone still uses it: leave it.
    Skip,
    /// Go on towards removing it.
    Proceed,
    Fail(IoErrorKind),
}

/// Cleanup goes on only with the lock free: first the installer's mutation
/// lock, then the installation's lease.
pub fn cleanup_step(lock: LeaseLock) -> (r: CleanupStep)
    ensures
        r == match lock {
            LeaseLock::Free => CleanupStep::Proceed,
            LeaseLock::HeldElsewhere => CleanupStep::Skip,
            LeaseLock::Failed(kind) => CleanupStep::Fail(kind),
        },
{
    match lock {
        LeaseLock::Free => CleanupStep::Proceed,
        LeaseLock::HeldElsewhere => CleanupStep::Skip,
        LeaseLock::Failed(kind) => CleanupStep::Fail(kind),
    }
}

/// Whether cleanup removes a retired installation: it is not registered,
/// its mutation lock and its lease are both free, and it has a lease file
/// at all (one without is not tracked). Errors come in the order the locks
/// are tried.
pub open spec fn cleanup_removes(registered: bool, mutation: LeaseLock, lease: Option<LeaseLock>) -> Result<bool, IoErrorKind> {
    if registered {
        Ok(false)
    } else {
        match mutation {
            LeaseLock::HeldElsewhere => Ok(false),
            LeaseLock::Failed(kind) => Err(kind),
            LeaseLock::Free => match lease {
                None => Ok(false),
                Some(LeaseLock::HeldElsewhere) => Ok(false),
                Some(LeaseLock::Failed(kind)) => Err(kind),
                Some(LeaseLock::Free) => Ok(true),
            },
        }
    }
}

/// Decides whether cleanup removes an installation, from what was found in
/// the order cleanup looks (`lease`: `None` when there is no lease file).
pub fn cleanup_decision(registered: bool, mutation: LeaseLock, lease: Option<LeaseLock>) -> (r: Result<bool, IoErrorKind>)
    ensures
        r == cleanup_removes(registered, mutation, lease),
{
    if registered {
        return Ok(false);
    }
    match cleanup_step(mutation) {
        CleanupStep::Skip => Ok(false),
        CleanupStep::Fail(kind) => Err(kind),
        CleanupStep::Proceed => match lease {
            None => Ok(false),
            Some(lock) => match cleanup_step(lock) {
                CleanupStep::Skip => Ok(false),
                CleanupStep::Fail(kind) => Err(kind),
                CleanupStep::Proceed => Ok(true),
            },
        },
    }
}

} // verus!
