use herdr_core::kiro_session::{
    classify_lock_entry, descends_from, discover_in, parse_lock_owner_pid, KiroSessionLock, LockEntry,
};
use std::collections::HashMap;

#[test]
fn parses_kiro_lock_bodies() {
    assert_eq!(
        parse_lock_owner_pid(r#"{"pid":90458,"started_at":"2026-09-18T15:19:03.669459Z"}"#),
        Some(90458)
    );
    assert_eq!(parse_lock_owner_pid(r#"{ "started_at": "x", "pid" : 7 }"#), Some(7));
    assert_eq!(parse_lock_owner_pid(r#"{"pid":0}"#), None);
    assert_eq!(parse_lock_owner_pid(""), None);
    assert_eq!(parse_lock_owner_pid("not json"), None);
}

#[test]
fn v3_ids_are_prefixed() {
    assert!(KiroSessionLock::session_id_is_v3("sess_ad83e258-4a35"));
    assert!(!KiroSessionLock::session_id_is_v3("b6d55962-0abc-4064"));
}

#[test]
fn ancestry_walk_is_bounded_and_matches_descendants() {
    let mut parents: HashMap<u32, u32> = HashMap::new();
    // 500 <- 400 <- 300 <- 200 (pane child)
    parents.insert(500, 400);
    parents.insert(400, 300);
    parents.insert(300, 200);
    parents.insert(200, 100);
    let parent_of = |pid: u32| parents.get(&pid).copied();
    assert!(descends_from(500, 200, parent_of));
    assert!(descends_from(200, 200, parent_of));
    assert!(!descends_from(500, 999, parent_of));
    // self-loop must terminate
    let looping = |_pid: u32| Some(5u32);
    assert!(!descends_from(5, 6, looping));
}

#[test]
fn lock_pid_rejects_overflow_and_missing_colon() {
    assert_eq!(parse_lock_owner_pid(r#"{"pid":4294967295}"#), Some(4294967295));
    assert_eq!(parse_lock_owner_pid(r#"{"pid":4294967296}"#), None);
    assert_eq!(parse_lock_owner_pid(r#"{"pid" 12}"#), None);
    assert_eq!(parse_lock_owner_pid("{\"pid\":   \t 31, \"pid\": 5}"), Some(31));
    assert_eq!(parse_lock_owner_pid(r#"{"pid":"12"}"#), None);
}

#[test]
fn ancestry_walk_stops_after_its_depth_bound() {
    // A chain 1000 -> 999 -> ... -> 2: the ancestor 32 steps up is out of reach.
    let parent_of = |pid: u32| if pid > 2 { Some(pid - 1) } else { None };
    assert!(descends_from(1000, 969, parent_of));
    assert!(!descends_from(1000, 968, parent_of));
    // Pid 1 ends the walk.
    let to_init = |_pid: u32| Some(1u32);
    assert!(!descends_from(10, 1, to_init));
}

#[test]
fn discovery_picks_the_first_lock_owned_in_the_pane() {
    let locks = vec![
        KiroSessionLock { session_id: "b6d55962-v2".into(), owner_pid: 901 },
        KiroSessionLock { session_id: "sess_ad83e258-v3".into(), owner_pid: 902 },
    ];
    let mut parents: HashMap<u32, u32> = HashMap::new();
    parents.insert(901, 10);
    parents.insert(902, 20);
    let parent_of = |pid: u32| parents.get(&pid).copied();
    assert_eq!(discover_in(&locks, 10, parent_of).map(|l| l.session_id), Some("b6d55962-v2".into()));
    let found = discover_in(&locks, 20, parent_of).unwrap();
    assert_eq!(found.session_id, "sess_ad83e258-v3");
    assert!(found.is_v3());
    assert!(discover_in(&locks, 30, parent_of).is_none());
}

#[test]
fn lock_entries_are_told_apart_by_name() {
    assert_eq!(classify_lock_entry("abc.lock"), LockEntry::SessionLock("abc".to_string()));
    assert_eq!(classify_lock_entry(".lock"), LockEntry::Ignored);
    assert_eq!(classify_lock_entry("sess_1.lock"), LockEntry::SessionLock("sess_1".to_string()));
    assert_eq!(classify_lock_entry("sess_42"), LockEntry::SessionDirectory);
    assert_eq!(classify_lock_entry("notes.txt"), LockEntry::Ignored);
}
