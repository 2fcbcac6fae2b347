use herdr_core::platform::IoErrorKind;
use herdr_core::plugin_installations::{
    cleanup_decision, cleanup_step, lease_installation, startup_probe_needed, startup_retains, CleanupStep, LeaseLock,
};

fn parts(items: &[&str]) -> Vec<String> {
    items.iter().map(|item| item.to_string()).collect()
}

#[test]
fn only_paths_inside_a_checkout_name_an_installation() {
    assert_eq!(
        lease_installation(&parts(&["example.plugin", "gen-2", "checkout", "src"])),
        Some(("example.plugin".to_string(), "gen-2".to_string()))
    );
    assert_eq!(lease_installation(&parts(&["example.plugin", "gen-2", "checkout"])).is_some(), true);
    assert_eq!(lease_installation(&parts(&["example.plugin", "gen-2", "build"])), None);
    assert_eq!(lease_installation(&parts(&["example.plugin", "gen-2"])), None);
}

#[test]
fn startup_keeps_referenced_and_handed_off_installations() {
    assert!(!startup_probe_needed(false, false));
    assert!(startup_probe_needed(true, false));
    assert!(startup_probe_needed(false, true));
    assert_eq!(startup_retains(true, LeaseLock::Free), Ok(true));
    assert_eq!(startup_retains(false, LeaseLock::Free), Ok(false));
    assert_eq!(startup_retains(false, LeaseLock::HeldElsewhere), Ok(true));
    assert_eq!(
        startup_retains(true, LeaseLock::Failed(IoErrorKind::PermissionDenied)),
        Err(IoErrorKind::PermissionDenied)
    );
}

#[test]
fn cleanup_removes_only_unused_tracked_installations() {
    assert_eq!(cleanup_step(LeaseLock::Free), CleanupStep::Proceed);
    assert_eq!(cleanup_decision(true, LeaseLock::Free, Some(LeaseLock::Free)), Ok(false));
    assert_eq!(cleanup_decision(false, LeaseLock::HeldElsewhere, Some(LeaseLock::Free)), Ok(false));
    assert_eq!(cleanup_decision(false, LeaseLock::Free, None), Ok(false));
    assert_eq!(cleanup_decision(false, LeaseLock::Free, Some(LeaseLock::HeldElsewhere)), Ok(false));
    assert_eq!(cleanup_decision(false, LeaseLock::Free, Some(LeaseLock::Free)), Ok(true));
    assert_eq!(
        cleanup_decision(false, LeaseLock::Failed(IoErrorKind::Other), Some(LeaseLock::Free)),
        Err(IoErrorKind::Other)
    );
    assert_eq!(
        cleanup_decision(false, LeaseLock::Free, Some(LeaseLock::Failed(IoErrorKind::NotFound))),
        Err(IoErrorKind::NotFound)
    );
}
