//! The status record that the legacy manifest interface reports for an agent
//! whose registry entry was accepted.

use vstd::prelude::*;

verus! {

/// What the legacy status interface reports of one agent.
#[derive(Debug, Clone, PartialEq, Eq)]
pub struct AgentRemoteStatus {
    pub cached_version: Option<String>,
    pub attempted_version: Option<String>,
    pub last_checked_unix: Option<u64>,
    pub last_result: String,
    pub last_error: Option<String>,
}

/// A cached registry version becomes an accepted status with that version and
/// nothing attempted, checked or failed; no version gives no status.
pub fn status_for_version(version: Option<String>) -> (r: Option<AgentRemoteStatus>)
    ensures
        r is Some <==> version is Some,
        r matches Some(status) ==> {
            &&& status.cached_version == version
            &&& status.attempted_version is None
            &&& status.last_checked_unix is None
            &&& status.last_result@ == "accepted_registry"@
            &&& status.last_error is None
        },
{
    match version {
        Some(v) => Some(AgentRemoteStatus {
            cached_version: Some(v),
            attempted_version: None,
            last_checked_unix: None,
            last_result: String::from_str("accepted_registry"),
            last_error: None,
        }),
        None => None,
    }
}

} // verus!
