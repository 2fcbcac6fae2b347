use herdr_core::protocol::field::FieldUpdate;
use herdr_core::protocol::snapshot::{validate_snapshot_seed, ClientShellCommandDelta, ClientShellSnapshotDelta};
use herdr_core::protocol::tokens::ClientShellTokenDelta;
use herdr_core::protocol::wire::{
    AgentStatus, ClientShellAgent, ClientShellCommand, ClientShellCommandAction, ClientShellPane, ClientShellSnapshot,
    ClientShellTab, ClientShellWorkspace,
};

fn workspace(id: &str, label: &str) -> ClientShellWorkspace {
    ClientShellWorkspace {
        workspace_id: id.into(),
        label: label.into(),
        tokens: vec![("k".into(), "v".into())],
        agent_status: AgentStatus::Idle,
        ..Default::default()
    }
}

fn tab(id: &str, workspace: &str) -> ClientShellTab {
    ClientShellTab { tab_id: id.into(), workspace_id: workspace.into(), number: 1, ..Default::default() }
}

fn pane(id: &str) -> ClientShellPane {
    ClientShellPane { pane_id: id.into(), workspace_id: "w1".into(), tab_id: "t1".into(), ..Default::default() }
}

fn base() -> ClientShellSnapshot {
    ClientShellSnapshot {
        boot_id: "boot".into(),
        revision: 3,
        workspaces: vec![workspace("w1", "one"), workspace("w2", "two")],
        tabs: vec![tab("t1", "w1"), tab("t2", "w2")],
        panes: vec![pane("p1")],
        ..Default::default()
    }
}

#[test]
fn metadata_diff_applies_back_to_the_later_snapshot() {
    let base = base();
    let mut next = base.clone();
    next.revision = 7;
    next.workspaces[0].label = "renamed".into();
    next.workspaces[1].tokens = vec![("k".into(), "w".into()), ("n".into(), "1".into())];
    next.tabs.remove(1);
    next.panes.push(pane("p2"));
    next.focused_pane_id = Some("p2".into());
    next.agent_order = vec!["p2".into()];
    let delta = ClientShellSnapshotDelta::diff(&base, &next).expect("later revision differs");
    assert_eq!(delta.base_revision, 3);
    assert_eq!(delta.revision, 7);
    assert!(!delta.is_noop());
    assert!(delta.validate(&base).is_ok());
    let mut target = base.clone();
    assert!(delta.apply_to(&mut target).is_ok());
    assert_eq!(target, next);
}

#[test]
fn revision_only_change_gives_a_noop_delta() {
    let base = base();
    let mut next = base.clone();
    next.revision = 4;
    let delta = ClientShellSnapshotDelta::diff(&base, &next).unwrap();
    assert!(delta.is_noop());
    let mut target = base.clone();
    assert!(delta.apply_to(&mut target).is_ok());
    assert_eq!(target, next);
}

#[test]
fn diff_needs_the_same_boot_and_a_later_revision() {
    let base = base();
    let mut other_boot = base.clone();
    other_boot.boot_id = "other".into();
    other_boot.revision = 9;
    assert!(ClientShellSnapshotDelta::diff(&base, &other_boot).is_none());
    assert!(ClientShellSnapshotDelta::diff(&base, &base).is_none());
    let mut older = base.clone();
    older.revision = 2;
    older.workspaces[0].label = "x".into();
    assert!(ClientShellSnapshotDelta::diff(&base, &older).is_none());
}

#[test]
fn applied_delta_is_not_accepted_twice_and_failures_leave_the_snapshot_alone() {
    let base = base();
    let mut next = base.clone();
    next.revision = 5;
    next.workspaces[1].label = "changed".into();
    let delta = ClientShellSnapshotDelta::diff(&base, &next).unwrap();
    let mut target = base.clone();
    delta.apply_to(&mut target).unwrap();
    let before = target.clone();
    assert!(delta.apply_to(&mut target).is_err());
    assert_eq!(target, before);

    let mut wrong_base = base.clone();
    wrong_base.revision = 4;
    assert!(delta.validate(&wrong_base).is_err());
}

#[test]
fn order_changes_do_not_resend_records() {
    let base = base();
    let mut next = base.clone();
    next.revision = 4;
    next.workspaces.reverse();
    let delta = ClientShellSnapshotDelta::diff(&base, &next).unwrap();
    assert!(delta.workspaces.added.is_empty());
    assert!(delta.workspaces.updated.is_empty());
    assert!(delta.workspaces.removed.is_empty());
    assert_eq!(delta.workspaces.order, Some(vec!["w2".to_string(), "w1".to_string()]));
    assert_eq!(delta.config_diagnostic, FieldUpdate::Unchanged);
    let mut target = base.clone();
    delta.apply_to(&mut target).unwrap();
    assert_eq!(target, next);
}

#[test]
fn seeds_with_duplicate_keys_are_refused() {
    let mut seed = base();
    assert!(validate_snapshot_seed(&seed).is_ok());
    seed.tabs.push(tab("t1", "w2"));
    assert!(validate_snapshot_seed(&seed).is_err());
    let mut seed = base();
    seed.workspaces[0].tokens.push(("k".into(), "again".into()));
    assert!(validate_snapshot_seed(&seed).is_err());
}

fn fixture_snapshot() -> ClientShellSnapshot {
    let workspace = ClientShellWorkspace {
        workspace_id: "workspace-1".into(),
        active_tab_id: "tab-1".into(),
        number: 1,
        label: "herdr".into(),
        tokens: vec![("model".into(), "sonnet".into())],
        focused: true,
        agent_status: AgentStatus::Working,
        ..Default::default()
    };
    let tab = ClientShellTab {
        tab_id: "tab-1".into(),
        workspace_id: "workspace-1".into(),
        number: 1,
        label: "main".into(),
        focused: true,
        ..Default::default()
    };
    let pane = ClientShellPane {
        pane_id: "pane-1".into(),
        workspace_id: "workspace-1".into(),
        tab_id: "tab-1".into(),
        label: Some("editor".into()),
        cwd: Some("/home/user/herdr".into()),
        focused: true,
        ..Default::default()
    };
    let agent = ClientShellAgent {
        pane_id: "pane-1".into(),
        workspace_id: "workspace-1".into(),
        tab_id: "tab-1".into(),
        name: Some("codex".into()),
        agent: Some("codex".into()),
        agent_status: AgentStatus::Working,
        state_change_seq: 4,
        tokens: vec![("model".into(), "gpt".into())],
        focused: true,
        ..Default::default()
    };
    let command = ClientShellCommand {
        command_id: "split-right".into(),
        binding_label: "prefix v".into(),
        binding_labels: vec!["prefix v".into()],
        action: ClientShellCommandAction { kind: "split".into(), argument: Some("right".into()) },
        description: Some("Split the pane to the right".into()),
    };
    ClientShellSnapshot {
        boot_id: "boot-1".into(),
        revision: 12,
        config_diagnostic: Some("unknown key `theme.x`".into()),
        update_install_command: "herdr update".into(),
        focused_workspace_id: Some("workspace-1".into()),
        focused_tab_id: Some("tab-1".into()),
        focused_pane_id: Some("pane-1".into()),
        agent_order: vec!["pane-1".into()],
        workspaces: vec![workspace],
        tabs: vec![tab],
        panes: vec![pane],
        agents: vec![agent],
        commands: vec![command],
        ..Default::default()
    }
}

#[test]
fn revision_only_snapshot_diff_is_noop() {
    let base = fixture_snapshot();
    let mut next = base.clone();
    next.revision += 1;
    let delta = ClientShellSnapshotDelta::diff(&base, &next).unwrap();
    assert!(delta.is_noop());
    next.agent_order.push("extra".into());
    let delta = ClientShellSnapshotDelta::diff(&base, &next).unwrap();
    assert!(!delta.is_noop());
}

#[test]
fn metadata_delta_preserves_token_insertion_reorder_and_nullable_clears() {
    let mut base = fixture_snapshot();
    base.agents[0].tokens = vec![
        ("alpha".into(), "unchanged-a".into()),
        ("zeta".into(), "unchanged-z".into()),
    ];
    let mut next = base.clone();
    next.revision += 1;
    next.config_diagnostic = None;
    next.panes[0].label = None;
    next.workspaces[0].tokens.insert(0, ("alpha".into(), "new value".into()));
    next.agents[0].tokens.reverse();
    let delta = ClientShellSnapshotDelta::diff(&base, &next).unwrap();
    let workspace_tokens = delta.workspaces.updated[0].tokens.as_ref().unwrap();
    assert_eq!(workspace_tokens.set, vec![("alpha".to_owned(), "new value".to_owned())]);
    assert_eq!(
        workspace_tokens.order.as_deref(),
        Some(["alpha".to_owned(), "model".to_owned()].as_slice())
    );
    let agent_tokens = delta.agents.updated[0].tokens.as_ref().unwrap();
    assert!(agent_tokens.set.is_empty());
    assert!(agent_tokens.remove.is_empty());
    assert_eq!(
        agent_tokens.order.as_deref(),
        Some(["zeta".to_owned(), "alpha".to_owned()].as_slice())
    );
    let sent = delta.clone();
    sent.apply_to(&mut base).unwrap();
    assert_eq!(base, next);
}

#[test]
fn metadata_delta_rejects_wrong_base_nonadvancing_revision_and_replay() {
    let base = fixture_snapshot();
    let mut next = base.clone();
    next.revision += 1;
    next.config_diagnostic = None;
    let delta = ClientShellSnapshotDelta::diff(&base, &next).unwrap();
    for base_revision in [base.revision - 1, base.revision + 1] {
        let mut wrong = delta.clone();
        wrong.base_revision = base_revision;
        let mut received = base.clone();
        assert!(wrong.apply_to(&mut received).is_err());
        assert_eq!(received, base);
    }
    let mut nonadvancing = delta.clone();
    nonadvancing.revision = base.revision;
    let mut received = base.clone();
    assert!(nonadvancing.apply_to(&mut received).is_err());
    assert_eq!(received, base);
    delta.apply_to(&mut received).unwrap();
    assert!(delta.apply_to(&mut received).is_err());
    assert_eq!(received, next);
}

#[test]
fn invalid_final_metadata_operations_leave_the_entire_raw_snapshot_unchanged() {
    let base = fixture_snapshot();
    let mut next = base.clone();
    next.revision += 1;
    next.config_diagnostic = None;
    next.workspaces[0].label = "renamed".into();
    let valid = ClientShellSnapshotDelta::diff(&base, &next).unwrap();
    let mut unknown = valid.clone();
    unknown.commands.updated.push(ClientShellCommandDelta {
        command_id: "missing-command".into(),
        description: FieldUpdate::Changed(None),
        ..ClientShellCommandDelta::default()
    });
    let mut duplicate = valid.clone();
    duplicate.panes.added.push(base.panes[0].clone());
    let mut removal = valid.clone();
    removal.tabs.removed.push("missing-tab".into());
    let mut conflict = valid.clone();
    conflict.workspaces.removed.push(base.workspaces[0].workspace_id.clone());
    let mut order = valid.clone();
    order.commands.order = Some(Vec::new());
    let mut token_order = valid.clone();
    token_order.workspaces.updated[0].tokens = Some(ClientShellTokenDelta {
        order: Some(vec!["missing-token".into()]),
        ..ClientShellTokenDelta::default()
    });
    for invalid in [unknown, duplicate, removal, conflict, order, token_order] {
        let mut received = base.clone();
        assert!(invalid.apply_to(&mut received).is_err());
        assert_eq!(received, base);
    }
}

#[test]
fn entity_order_changes_do_not_resend_existing_records() {
    let mut base = fixture_snapshot();
    let mut second = base.commands[0].clone();
    second.command_id = "second".into();
    base.commands.push(second);
    let mut next = base.clone();
    next.revision += 1;
    next.commands.reverse();
    let delta = ClientShellSnapshotDelta::diff(&base, &next).unwrap();
    assert!(delta.commands.added.is_empty());
    assert!(delta.commands.updated.is_empty());
    delta.apply_to(&mut base).unwrap();
    assert_eq!(base, next);
}

#[test]
fn refused_metadata_deltas_say_why() {
    let base = fixture_snapshot();
    let mut next = base.clone();
    next.revision += 1;
    next.workspaces[0].label = "renamed".into();
    let valid = ClientShellSnapshotDelta::diff(&base, &next).unwrap();
    let mut removal = valid.clone();
    removal.tabs.removed.push("missing-tab".into());
    assert_eq!(removal.validate(&base), Err("entity removal refers to an unknown ID".to_string()));
    let mut duplicate = valid.clone();
    duplicate.panes.added.push(base.panes[0].clone());
    assert_eq!(duplicate.validate(&base), Err("entity addition reuses an existing ID".to_string()));
    let mut other_boot = valid.clone();
    other_boot.boot_id = "boot-2".into();
    assert_eq!(
        other_boot.validate(&base),
        Err("mismatched snapshot boot_id: target boot-1 != delta boot-2".to_string())
    );
    let mut order = valid.clone();
    order.commands.order = Some(Vec::new());
    assert_eq!(order.validate(&base), Err("order is not a permutation of the resulting collection".to_string()));
    let mut seed = base.clone();
    seed.tabs.push(seed.tabs[0].clone());
    assert_eq!(validate_snapshot_seed(&seed), Err("duplicate tab ID".to_string()));
}
