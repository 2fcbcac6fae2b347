use herdr_core::input::ModifyOtherKeysMode;
use herdr_core::pane::kitty_keyboard::KittyKeyboardTracker;
use herdr_core::pane::state::{PaneState, TerminalId};

#[test]
fn tracks_exact_modify_other_keys_mode() {
    let mut tracker = KittyKeyboardTracker::default();

    tracker.observe(b"\x1b[>4;1m");
    assert_eq!(tracker.modify_other_keys_mode(), Some(ModifyOtherKeysMode::Mode1));
    tracker.observe(b"\x1b[>4;2m");
    assert_eq!(tracker.modify_other_keys_mode(), Some(ModifyOtherKeysMode::Mode2));
    for malformed in [b"\x1b[>4;999999m".as_slice(), b"\x1b[>4;+1m", b"\x1b[>+4;1m"] {
        tracker.observe(malformed);
        assert_eq!(tracker.modify_other_keys_mode(), Some(ModifyOtherKeysMode::Mode2));
    }
    tracker.observe(b"\x1b[>4;0m");
    assert_eq!(tracker.modify_other_keys_mode(), None);
}

#[test]
fn interrupted_split_csi_does_not_hide_following_reset_or_mode() {
    let mut tracker = KittyKeyboardTracker::default();
    tracker.observe(b"\x1b[>4;2m\x1b[>4;");

    tracker.observe(b"\x1bc");
    assert_eq!(tracker.modify_other_keys_mode(), None);

    tracker.observe(b"\x1b[>4;\x1b[>4;1m");
    assert_eq!(tracker.modify_other_keys_mode(), Some(ModifyOtherKeysMode::Mode1));
}

#[test]
fn buffers_split_csi_sequences() {
    let mut tracker = KittyKeyboardTracker::default();

    tracker.observe(b"\x1b[>1u\x1b[>4;");
    tracker.observe(b"01m\x1b[>5u\x1b[<");
    tracker.observe(b"u");

    assert_eq!(tracker.flags(), 1);
    assert_eq!(*tracker.stack(), vec![0]);
    assert_eq!(tracker.modify_other_keys_mode(), Some(ModifyOtherKeysMode::Mode1));
    tracker.observe(b"\x1b[>1m");
    assert_eq!(tracker.modify_other_keys_mode(), Some(ModifyOtherKeysMode::Mode1));
    tracker.observe(b"\x1b[>04n");
    assert_eq!(tracker.modify_other_keys_mode(), None);
}

#[test]
fn split_reads_match_a_single_read_at_every_cut() {
    let stream: &[u8] = b"ab\x1b[>3u\x1b[>4;2m\x1b[=7u\x1b[>9u\x1b[<u\x1b[>4n\x1b[>4;1mz";
    let mut whole = KittyKeyboardTracker::default();
    whole.observe(stream);
    for cut in 0..=stream.len() {
        let mut split = KittyKeyboardTracker::default();
        split.observe(&stream[..cut]);
        split.observe(&stream[cut..]);
        assert_eq!(split.flags(), whole.flags(), "cut {cut}");
        assert_eq!(split.stack(), whole.stack(), "cut {cut}");
        assert_eq!(split.modify_other_keys_mode(), whole.modify_other_keys_mode(), "cut {cut}");
    }
    assert_eq!(whole.flags(), 7);
    assert_eq!(*whole.stack(), vec![0]);
    assert_eq!(whole.modify_other_keys_mode(), Some(ModifyOtherKeysMode::Mode1));
}

#[test]
fn overlong_unfinished_sequence_is_dropped() {
    let mut tracker = KittyKeyboardTracker::default();
    let mut long = b"\x1b[>".to_vec();
    long.extend(std::iter::repeat(b'1').take(80));
    tracker.observe(&long);
    tracker.observe(b"u");
    assert_eq!(tracker.flags(), 0);
    assert!(tracker.stack().is_empty());
}

#[test]
fn pops_past_the_bottom_reset_flags_to_zero() {
    let mut tracker = KittyKeyboardTracker::default();
    tracker.observe(b"\x1b[>1u\x1b[>2u\x1b[<5u");
    assert_eq!(tracker.flags(), 0);
    assert!(tracker.stack().is_empty());
    tracker.observe(b"\x1b[=3u\x1b[>5u\x1b[<0u");
    assert_eq!(tracker.flags(), 3);
}

#[test]
fn replay_restores_the_flags_stack() {
    let mut tracker = KittyKeyboardTracker::default();
    assert_eq!(tracker.replay_ansi(), None);
    tracker.observe(b"\x1b[=12u");
    assert_eq!(tracker.replay_ansi().as_deref(), Some("\x1b[=12u"));
    tracker.observe(b"\x1b[>1u\x1b[>31u");
    let replay = tracker.replay_ansi().unwrap();
    assert_eq!(replay, "\x1b[=12u\x1b[>1u\x1b[>31u");
    let mut fresh = KittyKeyboardTracker::default();
    fresh.observe(replay.as_bytes());
    assert_eq!(fresh.flags(), tracker.flags());
    assert_eq!(fresh.stack(), tracker.stack());
    let mut zero_base = KittyKeyboardTracker::default();
    zero_base.observe(b"\x1b[>8u");
    assert_eq!(zero_base.replay_ansi().as_deref(), Some("\x1b[>8u"));
}

#[test]
fn pane_labels_count_from_one() {
    let pane = PaneState::new(TerminalId(7));
    assert_eq!(pane.auto_name(), "pane 1");
    assert!(pane.seen);
    let pane = pane.with_auto_name_number(0);
    assert_eq!(pane.auto_name_number, 1);
    let pane = pane.with_auto_name_number(120);
    assert_eq!(pane.auto_name(), "pane 120");
    assert_eq!(pane.attached_terminal_id, TerminalId(7));
}

#[test]
fn modify_other_keys_enabled_follows_the_selected_mode() {
    let mut tracker = KittyKeyboardTracker::default();
    assert!(!tracker.modify_other_keys_enabled());
    tracker.observe(b"\x1b[>4;1m");
    assert!(tracker.modify_other_keys_enabled());
    tracker.observe(b"\x1b[>4;0m");
    assert!(!tracker.modify_other_keys_enabled());
}
