use herdr_core::detect::manifest_compat::status_for_version;
use herdr_core::integration::{
    integration_status_kind, integration_update_instructions, parse_integration_version, IntegrationStatusKind,
};

#[test]
fn version_marker_is_read_from_comment_lines() {
    assert_eq!(parse_integration_version("#!/bin/sh\n# HERDR_INTEGRATION_VERSION=7\necho hi\n"), Some(7));
    assert_eq!(parse_integration_version("// HERDR_INTEGRATION_VERSION= 12 \r\n"), Some(12));
    assert_eq!(parse_integration_version("  ###HERDR_INTEGRATION_VERSION=3"), Some(3));
    assert_eq!(parse_integration_version("//# HERDR_INTEGRATION_VERSION=+4\n"), Some(4));
}

#[test]
fn version_marker_takes_the_first_readable_line() {
    let text = "HERDR_INTEGRATION_VERSION=x\nHERDR_INTEGRATION_VERSION=5\nHERDR_INTEGRATION_VERSION=6\n";
    assert_eq!(parse_integration_version(text), Some(5));
}

#[test]
fn version_marker_refuses_what_is_not_a_u32() {
    assert_eq!(parse_integration_version(""), None);
    assert_eq!(parse_integration_version("no marker here\n"), None);
    assert_eq!(parse_integration_version("HERDR_INTEGRATION_VERSION="), None);
    assert_eq!(parse_integration_version("HERDR_INTEGRATION_VERSION=-1"), None);
    assert_eq!(parse_integration_version("HERDR_INTEGRATION_VERSION=4294967296"), None);
    assert_eq!(parse_integration_version("HERDR_INTEGRATION_VERSION=4294967295"), Some(u32::MAX));
    assert_eq!(parse_integration_version("x HERDR_INTEGRATION_VERSION=2"), None);
}

#[test]
fn installation_state_follows_file_version_and_companions() {
    assert_eq!(integration_status_kind(false, Some(9), 3, true), IntegrationStatusKind::NotInstalled);
    assert_eq!(integration_status_kind(true, None, 3, true), IntegrationStatusKind::Outdated);
    assert_eq!(integration_status_kind(true, Some(2), 3, true), IntegrationStatusKind::Outdated);
    assert_eq!(integration_status_kind(true, Some(3), 3, true), IntegrationStatusKind::Current);
    assert_eq!(integration_status_kind(true, Some(4), 3, true), IntegrationStatusKind::Current);
    assert_eq!(integration_status_kind(true, Some(4), 3, false), IntegrationStatusKind::Outdated);
}

#[test]
fn update_instructions_list_install_commands() {
    assert_eq!(integration_update_instructions(&vec![]), "");
    assert_eq!(
        integration_update_instructions(&vec![Some("codex".to_string())]),
        "run `herdr integration install codex`"
    );
    assert_eq!(
        integration_update_instructions(&vec![Some("codex".to_string()), None]),
        "run `herdr integration install codex` and `herdr integration install unknown`"
    );
    assert_eq!(
        integration_update_instructions(&vec![
            Some("pi".to_string()),
            Some("omp".to_string()),
            Some("kilo".to_string())
        ]),
        "run `herdr integration install pi`, `herdr integration install omp` and `herdr integration install kilo`"
    );
}

#[test]
fn accepted_registry_version_becomes_a_status() {
    assert!(status_for_version(None).is_none());
    let status = status_for_version(Some("1.4.0".to_string())).unwrap();
    assert_eq!(status.cached_version.as_deref(), Some("1.4.0"));
    assert_eq!(status.attempted_version, None);
    assert_eq!(status.last_checked_unix, None);
    assert_eq!(status.last_result, "accepted_registry");
    assert_eq!(status.last_error, None);
}

#[test]
fn recommendations_offer_installed_or_available_integrations() {
    assert!(herdr_core::integration::integration_available(true, true, false));
    assert!(herdr_core::integration::integration_available(true, false, true));
    assert!(!herdr_core::integration::integration_available(false, true, true));
    assert!(!herdr_core::integration::integration_available(true, false, false));
    assert!(herdr_core::integration::recommendation_available(false, IntegrationStatusKind::Outdated));
    assert!(!herdr_core::integration::recommendation_available(false, IntegrationStatusKind::NotInstalled));
    assert!(herdr_core::integration::recommendation_available(true, IntegrationStatusKind::NotInstalled));
}
