//! Sparse updates of client shell records and of the whole snapshot.

use vstd::prelude::*;
use super::field::{FieldUpdate, FieldValue};
use super::keyed::{find_by_key, has_key, position_of_key, same_text, unique_keys, validate_unique, Keyed};
use super::entity::{
    all_records_wf, apply_entity_delta, collection_wf, diff_entities, lemma_empty_delta_applied, lemma_entity_diff_of_same, lemma_entity_diff_roundtrip,
    validate_entity_delta, Entity, EntityCollectionDelta, EntityUpdate,
};
use super::tokens::{
    lemma_token_applied_unique, lemma_token_diff_roundtrip, spec_token_diff_empty, spec_token_order,
    spec_token_removals, spec_token_sets, ClientShellTokenDelta, TokenView,
};
use super::wire::{AgentStatus, ClientShellAgent, ClientShellAgentModel, ClientShellCommand, ClientShellCommandAction, ClientShellCommandModel, ClientShellPane, ClientShellPaneModel, ClientShellProductAnnouncement, ClientShellReleaseNotes, ClientShellSnapshot, ClientShellSnapshotModel, ClientShellTab, ClientShellTabModel, ClientShellTabStatusSegment, ClientShellWorkspace, ClientShellWorkspaceModel, ClientShellWorktree};

verus! {

/// The token delta is the one computed from `base` to `next`: none when
/// nothing changed, otherwise the removals, sets and order that the token
/// diff yields.
pub open spec fn token_update_is_diff_of(d: Option<ClientShellTokenDelta>, base: Seq<TokenView>, next: Seq<TokenView>) -> bool {
    if base == next || spec_token_diff_empty(base, next) {
        d is None
    } else {
        d matches Some(t) && t.set_view() == spec_token_sets(base, next)
            && t.remove_view() == spec_token_removals(base, next)
            && t.order_view() == spec_token_order(base, next)
    }
}

/// Tokens after an optional token delta.
pub open spec fn token_update_applied(d: Option<ClientShellTokenDelta>, tokens: Seq<TokenView>) -> Seq<TokenView> {
    match d {
        Some(t) => t.applied(tokens),
        None => tokens,
    }
}

/// An optional token delta can be applied to the tokens.
pub open spec fn token_update_applicable(d: Option<ClientShellTokenDelta>, tokens: Seq<TokenView>) -> bool {
    match d {
        Some(t) => t.valid_for(tokens),
        None => true,
    }
}

/// The message a token delta in an update is refused with.
pub open spec fn token_update_error(d: Option<ClientShellTokenDelta>, tokens: Seq<TokenView>) -> Seq<char> {
    match d {
        Some(t) => t.error_for(tokens),
        None => Seq::empty(),
    }
}

fn duplicate_token_update(d: &Option<ClientShellTokenDelta>) -> (r: Option<ClientShellTokenDelta>)
    ensures
        r is None <==> d is None,
        r matches Some(x) ==> d matches Some(y) && x.set_view() == y.set_view() && x.remove_view() == y.remove_view()
            && x.order_view() == y.order_view(),
{
    match d {
        Some(t) => Some(t.duplicate()),
        None => None,
    }
}

/// Sparse update of one workspace: its key and the fields that changed.
#[derive(Debug, Clone, PartialEq, Eq, Default)]
pub struct ClientShellWorkspaceDelta {
    pub workspace_id: String,
    pub active_tab_id: FieldUpdate<String>,
    pub new_workspace_cwd: FieldUpdate<String>,
    pub number: FieldUpdate<usize>,
    pub label: FieldUpdate<String>,
    pub custom_label: FieldUpdate<bool>,
    pub branch: FieldUpdate<Option<String>>,
    pub git_ahead_behind: FieldUpdate<Option<(usize, usize)>>,
    pub tokens: Option<ClientShellTokenDelta>,
    pub worktree: FieldUpdate<Option<ClientShellWorktree>>,
    pub focused: FieldUpdate<bool>,
    pub agent_status: FieldUpdate<AgentStatus>,
}

impl ClientShellWorkspaceDelta {
    /// `None` for equal records; otherwise the update that turns `base` into
    /// `next`, addressed by `next`'s key.
    pub fn diff(base: &ClientShellWorkspace, next: &ClientShellWorkspace) -> (r: Option<Self>)
        ensures
            base.deep_view() == next.deep_view() ==> r is None,
            base.deep_view() != next.deep_view() ==> (r matches Some(d) && d.update_key() == next.deep_view().workspace_id
                && d.is_diff_of(base.deep_view(), next.deep_view())),
    {
        if base.same(next) {
            return None;
        }
        Some(ClientShellWorkspaceDelta {
            workspace_id: next.workspace_id.duplicate(),
            active_tab_id: FieldUpdate::diff(&base.active_tab_id, &next.active_tab_id),
            new_workspace_cwd: FieldUpdate::diff(&base.new_workspace_cwd, &next.new_workspace_cwd),
            number: FieldUpdate::diff(&base.number, &next.number),
            label: FieldUpdate::diff(&base.label, &next.label),
            custom_label: FieldUpdate::diff(&base.custom_label, &next.custom_label),
            branch: FieldUpdate::diff(&base.branch, &next.branch),
            git_ahead_behind: FieldUpdate::diff(&base.git_ahead_behind, &next.git_ahead_behind),
            tokens: ClientShellTokenDelta::diff(&base.tokens, &next.tokens),
            worktree: FieldUpdate::diff(&base.worktree, &next.worktree),
            focused: FieldUpdate::diff(&base.focused, &next.focused),
            agent_status: FieldUpdate::diff(&base.agent_status, &next.agent_status),
        })
    }
}

impl EntityUpdate<ClientShellWorkspace> for ClientShellWorkspaceDelta {
    open spec fn check_error(&self, v: ClientShellWorkspaceModel) -> Seq<char> {
        token_update_error(self.tokens, v.tokens)
    }

    open spec fn update_key(&self) -> Seq<char> {
        self.workspace_id@
    }

    open spec fn applicable_to(&self, v: ClientShellWorkspaceModel) -> bool {
        token_update_applicable(self.tokens, v.tokens)
    }

    open spec fn applied_to(&self, v: ClientShellWorkspaceModel) -> ClientShellWorkspaceModel {
        ClientShellWorkspaceModel {
            workspace_id: v.workspace_id,
            active_tab_id: self.active_tab_id.applied_view(v.active_tab_id),
            new_workspace_cwd: self.new_workspace_cwd.applied_view(v.new_workspace_cwd),
            number: self.number.applied_view(v.number),
            label: self.label.applied_view(v.label),
            custom_label: self.custom_label.applied_view(v.custom_label),
            branch: self.branch.applied_view(v.branch),
            git_ahead_behind: self.git_ahead_behind.applied_view(v.git_ahead_behind),
            tokens: token_update_applied(self.tokens, v.tokens),
            worktree: self.worktree.applied_view(v.worktree),
            focused: self.focused.applied_view(v.focused),
            agent_status: self.agent_status.applied_view(v.agent_status),
        }
    }

    open spec fn is_diff_of(&self, base: ClientShellWorkspaceModel, next: ClientShellWorkspaceModel) -> bool {
        &&& self.workspace_id@ == next.workspace_id
        &&& self.active_tab_id.is_diff_of(base.active_tab_id, next.active_tab_id)
        &&& self.new_workspace_cwd.is_diff_of(base.new_workspace_cwd, next.new_workspace_cwd)
        &&& self.number.is_diff_of(base.number, next.number)
        &&& self.label.is_diff_of(base.label, next.label)
        &&& self.custom_label.is_diff_of(base.custom_label, next.custom_label)
        &&& self.branch.is_diff_of(base.branch, next.branch)
        &&& self.git_ahead_behind.is_diff_of(base.git_ahead_behind, next.git_ahead_behind)
        &&& token_update_is_diff_of(self.tokens, base.tokens, next.tokens)
        &&& self.worktree.is_diff_of(base.worktree, next.worktree)
        &&& self.focused.is_diff_of(base.focused, next.focused)
        &&& self.agent_status.is_diff_of(base.agent_status, next.agent_status)
    }

    fn update_id(&self) -> (r: &String) {
        &self.workspace_id
    }

    fn check(&self, target: &ClientShellWorkspace) -> (r: Result<(), String>) {
        match &self.tokens {
            Some(t) => t.validate(&target.tokens),
            None => Ok(()),
        }
    }

    fn apply_update(&self, target: &mut ClientShellWorkspace) {
        self.active_tab_id.apply_copy(&mut target.active_tab_id);
        self.new_workspace_cwd.apply_copy(&mut target.new_workspace_cwd);
        self.number.apply_copy(&mut target.number);
        self.label.apply_copy(&mut target.label);
        self.custom_label.apply_copy(&mut target.custom_label);
        self.branch.apply_copy(&mut target.branch);
        self.git_ahead_behind.apply_copy(&mut target.git_ahead_behind);
        if let Some(t) = &self.tokens {
            t.apply_validated(&mut target.tokens);
        }
        self.worktree.apply_copy(&mut target.worktree);
        self.focused.apply_copy(&mut target.focused);
        self.agent_status.apply_copy(&mut target.agent_status);
    }

    fn compute(base: &ClientShellWorkspace, next: &ClientShellWorkspace) -> (r: Option<Self>) {
        ClientShellWorkspaceDelta::diff(base, next)
    }

    fn duplicate(&self) -> (r: Self) {
        ClientShellWorkspaceDelta {
            workspace_id: self.workspace_id.duplicate(),
            active_tab_id: self.active_tab_id.duplicate(),
            new_workspace_cwd: self.new_workspace_cwd.duplicate(),
            number: self.number.duplicate(),
            label: self.label.duplicate(),
            custom_label: self.custom_label.duplicate(),
            branch: self.branch.duplicate(),
            git_ahead_behind: self.git_ahead_behind.duplicate(),
            tokens: duplicate_token_update(&self.tokens),
            worktree: self.worktree.duplicate(),
            focused: self.focused.duplicate(),
            agent_status: self.agent_status.duplicate(),
        }
    }

    proof fn lemma_update(&self, v: ClientShellWorkspaceModel) {
        if let Some(t) = self.tokens {
            lemma_token_applied_unique(t.set_view(), t.remove_view(), t.order_view(), v.tokens);
        }
    }

    proof fn lemma_diff_roundtrip(&self, base: ClientShellWorkspaceModel, next: ClientShellWorkspaceModel) {
        lemma_token_diff_roundtrip(base.tokens, next.tokens);
        assert(self.applied_to(base) =~= next);
    }
}

/// Sparse update of one tab: its key and the fields that changed.
#[derive(Debug, Clone, PartialEq, Eq, Default)]
pub struct ClientShellTabDelta {
    pub tab_id: String,
    pub workspace_id: FieldUpdate<String>,
    pub number: FieldUpdate<usize>,
    pub label: FieldUpdate<String>,
    pub custom_label: FieldUpdate<bool>,
    pub zoomed: FieldUpdate<bool>,
    pub focused: FieldUpdate<bool>,
    pub agent_status: FieldUpdate<AgentStatus>,
}

impl ClientShellTabDelta {
    /// `None` for equal records; otherwise the update that turns `base` into
    /// `next`, addressed by `next`'s key.
    pub fn diff(base: &ClientShellTab, next: &ClientShellTab) -> (r: Option<Self>)
        ensures
            base.deep_view() == next.deep_view() ==> r is None,
            base.deep_view() != next.deep_view() ==> (r matches Some(d) && d.update_key() == next.deep_view().tab_id
                && d.is_diff_of(base.deep_view(), next.deep_view())),
    {
        if base.same(next) {
            return None;
        }
        Some(ClientShellTabDelta {
            tab_id: next.tab_id.duplicate(),
            workspace_id: FieldUpdate::diff(&base.workspace_id, &next.workspace_id),
            number: FieldUpdate::diff(&base.number, &next.number),
            label: FieldUpdate::diff(&base.label, &next.label),
            custom_label: FieldUpdate::diff(&base.custom_label, &next.custom_label),
            zoomed: FieldUpdate::diff(&base.zoomed, &next.zoomed),
            focused: FieldUpdate::diff(&base.focused, &next.focused),
            agent_status: FieldUpdate::diff(&base.agent_status, &next.agent_status),
        })
    }
}

impl EntityUpdate<ClientShellTab> for ClientShellTabDelta {
    open spec fn check_error(&self, v: ClientShellTabModel) -> Seq<char> {
        Seq::empty()
    }

    open spec fn update_key(&self) -> Seq<char> {
        self.tab_id@
    }

    open spec fn applicable_to(&self, v: ClientShellTabModel) -> bool {
        true
    }

    open spec fn applied_to(&self, v: ClientShellTabModel) -> ClientShellTabModel {
        ClientShellTabModel {
            tab_id: v.tab_id,
            workspace_id: self.workspace_id.applied_view(v.workspace_id),
            number: self.number.applied_view(v.number),
            label: self.label.applied_view(v.label),
            custom_label: self.custom_label.applied_view(v.custom_label),
            zoomed: self.zoomed.applied_view(v.zoomed),
            focused: self.focused.applied_view(v.focused),
            agent_status: self.agent_status.applied_view(v.agent_status),
        }
    }

    open spec fn is_diff_of(&self, base: ClientShellTabModel, next: ClientShellTabModel) -> bool {
        &&& self.tab_id@ == next.tab_id
        &&& self.workspace_id.is_diff_of(base.workspace_id, next.workspace_id)
        &&& self.number.is_diff_of(base.number, next.number)
        &&& self.label.is_diff_of(base.label, next.label)
        &&& self.custom_label.is_diff_of(base.custom_label, next.custom_label)
        &&& self.zoomed.is_diff_of(base.zoomed, next.zoomed)
        &&& self.focused.is_diff_of(base.focused, next.focused)
        &&& self.agent_status.is_diff_of(base.agent_status, next.agent_status)
    }

    fn update_id(&self) -> (r: &String) {
        &self.tab_id
    }

    fn check(&self, target: &ClientShellTab) -> (r: Result<(), String>) {
        Ok(())
    }

    fn apply_update(&self, target: &mut ClientShellTab) {
        self.workspace_id.apply_copy(&mut target.workspace_id);
        self.number.apply_copy(&mut target.number);
        self.label.apply_copy(&mut target.label);
        self.custom_label.apply_copy(&mut target.custom_label);
        self.zoomed.apply_copy(&mut target.zoomed);
        self.focused.apply_copy(&mut target.focused);
        self.agent_status.apply_copy(&mut target.agent_status);
    }

    fn compute(base: &ClientShellTab, next: &ClientShellTab) -> (r: Option<Self>) {
        ClientShellTabDelta::diff(base, next)
    }

    fn duplicate(&self) -> (r: Self) {
        ClientShellTabDelta {
            tab_id: self.tab_id.duplicate(),
            workspace_id: self.workspace_id.duplicate(),
            number: self.number.duplicate(),
            label: self.label.duplicate(),
            custom_label: self.custom_label.duplicate(),
            zoomed: self.zoomed.duplicate(),
            focused: self.focused.duplicate(),
            agent_status: self.agent_status.duplicate(),
        }
    }

    proof fn lemma_update(&self, v: ClientShellTabModel) {
    }

    proof fn lemma_diff_roundtrip(&self, base: ClientShellTabModel, next: ClientShellTabModel) {
        assert(self.applied_to(base) =~= next);
    }
}

/// Sparse update of one pane: its key and the fields that changed.
#[derive(Debug, Clone, PartialEq, Eq, Default)]
pub struct ClientShellPaneDelta {
    pub pane_id: String,
    pub workspace_id: FieldUpdate<String>,
    pub tab_id: FieldUpdate<String>,
    pub label: FieldUpdate<Option<String>>,
    pub cwd: FieldUpdate<Option<String>>,
    pub foreground_cwd: FieldUpdate<Option<String>>,
    pub focused: FieldUpdate<bool>,
    pub right_click_passthrough: FieldUpdate<bool>,
}

impl ClientShellPaneDelta {
    /// `None` for equal records; otherwise the update that turns `base` into
    /// `next`, addressed by `next`'s key.
    pub fn diff(base: &ClientShellPane, next: &ClientShellPane) -> (r: Option<Self>)
        ensures
            base.deep_view() == next.deep_view() ==> r is None,
            base.deep_view() != next.deep_view() ==> (r matches Some(d) && d.update_key() == next.deep_view().pane_id
                && d.is_diff_of(base.deep_view(), next.deep_view())),
    {
        if base.same(next) {
            return None;
        }
        Some(ClientShellPaneDelta {
            pane_id: next.pane_id.duplicate(),
            workspace_id: FieldUpdate::diff(&base.workspace_id, &next.workspace_id),
            tab_id: FieldUpdate::diff(&base.tab_id, &next.tab_id),
            label: FieldUpdate::diff(&base.label, &next.label),
            cwd: FieldUpdate::diff(&base.cwd, &next.cwd),
            foreground_cwd: FieldUpdate::diff(&base.foreground_cwd, &next.foreground_cwd),
            focused: FieldUpdate::diff(&base.focused, &next.focused),
            right_click_passthrough: FieldUpdate::diff(&base.right_click_passthrough, &next.right_click_passthrough),
        })
    }
}

impl EntityUpdate<ClientShellPane> for ClientShellPaneDelta {
    open spec fn check_error(&self, v: ClientShellPaneModel) -> Seq<char> {
        Seq::empty()
    }

    open spec fn update_key(&self) -> Seq<char> {
        self.pane_id@
    }

    open spec fn applicable_to(&self, v: ClientShellPaneModel) -> bool {
        true
    }

    open spec fn applied_to(&self, v: ClientShellPaneModel) -> ClientShellPaneModel {
        ClientShellPaneModel {
            pane_id: v.pane_id,
            workspace_id: self.workspace_id.applied_view(v.workspace_id),
            tab_id: self.tab_id.applied_view(v.tab_id),
            label: self.label.applied_view(v.label),
            cwd: self.cwd.applied_view(v.cwd),
            foreground_cwd: self.foreground_cwd.applied_view(v.foreground_cwd),
            focused: self.focused.applied_view(v.focused),
            right_click_passthrough: self.right_click_passthrough.applied_view(v.right_click_passthrough),
        }
    }

    open spec fn is_diff_of(&self, base: ClientShellPaneModel, next: ClientShellPaneModel) -> bool {
        &&& self.pane_id@ == next.pane_id
        &&& self.workspace_id.is_diff_of(base.workspace_id, next.workspace_id)
        &&& self.tab_id.is_diff_of(base.tab_id, next.tab_id)
        &&& self.label.is_diff_of(base.label, next.label)
        &&& self.cwd.is_diff_of(base.cwd, next.cwd)
        &&& self.foreground_cwd.is_diff_of(base.foreground_cwd, next.foreground_cwd)
        &&& self.focused.is_diff_of(base.focused, next.focused)
        &&& self.right_click_passthrough.is_diff_of(base.right_click_passthrough, next.right_click_passthrough)
    }

    fn update_id(&self) -> (r: &String) {
        &self.pane_id
    }

    fn check(&self, target: &ClientShellPane) -> (r: Result<(), String>) {
        Ok(())
    }

    fn apply_update(&self, target: &mut ClientShellPane) {
        self.workspace_id.apply_copy(&mut target.workspace_id);
        self.tab_id.apply_copy(&mut target.tab_id);
        self.label.apply_copy(&mut target.label);
        self.cwd.apply_copy(&mut target.cwd);
        self.foreground_cwd.apply_copy(&mut target.foreground_cwd);
        self.focused.apply_copy(&mut target.focused);
        self.right_click_passthrough.apply_copy(&mut target.right_click_passthrough);
    }

    fn compute(base: &ClientShellPane, next: &ClientShellPane) -> (r: Option<Self>) {
        ClientShellPaneDelta::diff(base, next)
    }

    fn duplicate(&self) -> (r: Self) {
        ClientShellPaneDelta {
            pane_id: self.pane_id.duplicate(),
            workspace_id: self.workspace_id.duplicate(),
            tab_id: self.tab_id.duplicate(),
            label: self.label.duplicate(),
            cwd: self.cwd.duplicate(),
            foreground_cwd: self.foreground_cwd.duplicate(),
            focused: self.focused.duplicate(),
            right_click_passthrough: self.right_click_passthrough.duplicate(),
        }
    }

    proof fn lemma_update(&self, v: ClientShellPaneModel) {
    }

    proof fn lemma_diff_roundtrip(&self, base: ClientShellPaneModel, next: ClientShellPaneModel) {
        assert(self.applied_to(base) =~= next);
    }
}

/// Sparse update of one agent: its key and the fields that changed.
#[derive(Debug, Clone, PartialEq, Eq, Default)]
pub struct ClientShellAgentDelta {
    pub pane_id: String,
    pub workspace_id: FieldUpdate<String>,
    pub tab_id: FieldUpdate<String>,
    pub name: FieldUpdate<Option<String>>,
    pub display_agent: FieldUpdate<Option<String>>,
    pub agent: FieldUpdate<Option<String>>,
    pub title: FieldUpdate<Option<String>>,
    pub terminal_title: FieldUpdate<Option<String>>,
    pub terminal_title_stripped: FieldUpdate<Option<String>>,
    pub agent_status: FieldUpdate<AgentStatus>,
    pub state_change_seq: FieldUpdate<u64>,
    pub state_labels: FieldUpdate<Vec<(String, String)>>,
    pub tokens: Option<ClientShellTokenDelta>,
    pub focused: FieldUpdate<bool>,
}

impl ClientShellAgentDelta {
    /// `None` for equal records; otherwise the update that turns `base` into
    /// `next`, addressed by `next`'s key.
    pub fn diff(base: &ClientShellAgent, next: &ClientShellAgent) -> (r: Option<Self>)
        ensures
            base.deep_view() == next.deep_view() ==> r is None,
            base.deep_view() != next.deep_view() ==> (r matches Some(d) && d.update_key() == next.deep_view().pane_id
                && d.is_diff_of(base.deep_view(), next.deep_view())),
    {
        if base.same(next) {
            return None;
        }
        Some(ClientShellAgentDelta {
            pane_id: next.pane_id.duplicate(),
            workspace_id: FieldUpdate::diff(&base.workspace_id, &next.workspace_id),
            tab_id: FieldUpdate::diff(&base.tab_id, &next.tab_id),
            name: FieldUpdate::diff(&base.name, &next.name),
            display_agent: FieldUpdate::diff(&base.display_agent, &next.display_agent),
            agent: FieldUpdate::diff(&base.agent, &next.agent),
            title: FieldUpdate::diff(&base.title, &next.title),
            terminal_title: FieldUpdate::diff(&base.terminal_title, &next.terminal_title),
            terminal_title_stripped: FieldUpdate::diff(&base.terminal_title_stripped, &next.terminal_title_stripped),
            agent_status: FieldUpdate::diff(&base.agent_status, &next.agent_status),
            state_change_seq: FieldUpdate::diff(&base.state_change_seq, &next.state_change_seq),
            state_labels: FieldUpdate::diff(&base.state_labels, &next.state_labels),
            tokens: ClientShellTokenDelta::diff(&base.tokens, &next.tokens),
            focused: FieldUpdate::diff(&base.focused, &next.focused),
        })
    }
}

impl EntityUpdate<ClientShellAgent> for ClientShellAgentDelta {
    open spec fn check_error(&self, v: ClientShellAgentModel) -> Seq<char> {
        token_update_error(self.tokens, v.tokens)
    }

    open spec fn update_key(&self) -> Seq<char> {
        self.pane_id@
    }

    open spec fn applicable_to(&self, v: ClientShellAgentModel) -> bool {
        token_update_applicable(self.tokens, v.tokens)
    }

    open spec fn applied_to(&self, v: ClientShellAgentModel) -> ClientShellAgentModel {
        ClientShellAgentModel {
            pane_id: v.pane_id,
            workspace_id: self.workspace_id.applied_view(v.workspace_id),
            tab_id: self.tab_id.applied_view(v.tab_id),
            name: self.name.applied_view(v.name),
            display_agent: self.display_agent.applied_view(v.display_agent),
            agent: self.agent.applied_view(v.agent),
            title: self.title.applied_view(v.title),
            terminal_title: self.terminal_title.applied_view(v.terminal_title),
            terminal_title_stripped: self.terminal_title_stripped.applied_view(v.terminal_title_stripped),
            agent_status: self.agent_status.applied_view(v.agent_status),
            state_change_seq: self.state_change_seq.applied_view(v.state_change_seq),
            state_labels: self.state_labels.applied_view(v.state_labels),
            tokens: token_update_applied(self.tokens, v.tokens),
            focused: self.focused.applied_view(v.focused),
        }
    }

    open spec fn is_diff_of(&self, base: ClientShellAgentModel, next: ClientShellAgentModel) -> bool {
        &&& self.pane_id@ == next.pane_id
        &&& self.workspace_id.is_diff_of(base.workspace_id, next.workspace_id)
        &&& self.tab_id.is_diff_of(base.tab_id, next.tab_id)
        &&& self.name.is_diff_of(base.name, next.name)
        &&& self.display_agent.is_diff_of(base.display_agent, next.display_agent)
        &&& self.agent.is_diff_of(base.agent, next.agent)
        &&& self.title.is_diff_of(base.title, next.title)
        &&& self.terminal_title.is_diff_of(base.terminal_title, next.terminal_title)
        &&& self.terminal_title_stripped.is_diff_of(base.terminal_title_stripped, next.terminal_title_stripped)
        &&& self.agent_status.is_diff_of(base.agent_status, next.agent_status)
        &&& self.state_change_seq.is_diff_of(base.state_change_seq, next.state_change_seq)
        &&& self.state_labels.is_diff_of(base.state_labels, next.state_labels)
        &&& token_update_is_diff_of(self.tokens, base.tokens, next.tokens)
        &&& self.focused.is_diff_of(base.focused, next.focused)
    }

    fn update_id(&self) -> (r: &String) {
        &self.pane_id
    }

    fn check(&self, target: &ClientShellAgent) -> (r: Result<(), String>) {
        match &self.tokens {
            Some(t) => t.validate(&target.tokens),
            None => Ok(()),
        }
    }

    fn apply_update(&self, target: &mut ClientShellAgent) {
        self.workspace_id.apply_copy(&mut target.workspace_id);
        self.tab_id.apply_copy(&mut target.tab_id);
        self.name.apply_copy(&mut target.name);
        self.display_agent.apply_copy(&mut target.display_agent);
        self.agent.apply_copy(&mut target.agent);
        self.title.apply_copy(&mut target.title);
        self.terminal_title.apply_copy(&mut target.terminal_title);
        self.terminal_title_stripped.apply_copy(&mut target.terminal_title_stripped);
        self.agent_status.apply_copy(&mut target.agent_status);
        self.state_change_seq.apply_copy(&mut target.state_change_seq);
        self.state_labels.apply_copy(&mut target.state_labels);
        if let Some(t) = &self.tokens {
            t.apply_validated(&mut target.tokens);
        }
        self.focused.apply_copy(&mut target.focused);
    }

    fn compute(base: &ClientShellAgent, next: &ClientShellAgent) -> (r: Option<Self>) {
        ClientShellAgentDelta::diff(base, next)
    }

    fn duplicate(&self) -> (r: Self) {
        ClientShellAgentDelta {
            pane_id: self.pane_id.duplicate(),
            workspace_id: self.workspace_id.duplicate(),
            tab_id: self.tab_id.duplicate(),
            name: self.name.duplicate(),
            display_agent: self.display_agent.duplicate(),
            agent: self.agent.duplicate(),
            title: self.title.duplicate(),
            terminal_title: self.terminal_title.duplicate(),
            terminal_title_stripped: self.terminal_title_stripped.duplicate(),
            agent_status: self.agent_status.duplicate(),
            state_change_seq: self.state_change_seq.duplicate(),
            state_labels: self.state_labels.duplicate(),
            tokens: duplicate_token_update(&self.tokens),
            focused: self.focused.duplicate(),
        }
    }

    proof fn lemma_update(&self, v: ClientShellAgentModel) {
        if let Some(t) = self.tokens {
            lemma_token_applied_unique(t.set_view(), t.remove_view(), t.order_view(), v.tokens);
        }
    }

    proof fn lemma_diff_roundtrip(&self, base: ClientShellAgentModel, next: ClientShellAgentModel) {
        lemma_token_diff_roundtrip(base.tokens, next.tokens);
        assert(self.applied_to(base) =~= next);
    }
}

/// Sparse update of one command: its key and the fields that changed.
#[derive(Debug, Clone, PartialEq, Eq, Default)]
pub struct ClientShellCommandDelta {
    pub command_id: String,
    pub binding_label: FieldUpdate<String>,
    pub binding_labels: FieldUpdate<Vec<String>>,
    pub action: FieldUpdate<ClientShellCommandAction>,
    pub description: FieldUpdate<Option<String>>,
}

impl ClientShellCommandDelta {
    /// `None` for equal records; otherwise the update that turns `base` into
    /// `next`, addressed by `next`'s key.
    pub fn diff(base: &ClientShellCommand, next: &ClientShellCommand) -> (r: Option<Self>)
        ensures
            base.deep_view() == next.deep_view() ==> r is None,
            base.deep_view() != next.deep_view() ==> (r matches Some(d) && d.update_key() == next.deep_view().command_id
                && d.is_diff_of(base.deep_view(), next.deep_view())),
    {
        if base.same(next) {
            return None;
        }
        Some(ClientShellCommandDelta {
            command_id: next.command_id.duplicate(),
            binding_label: FieldUpdate::diff(&base.binding_label, &next.binding_label),
            binding_labels: FieldUpdate::diff(&base.binding_labels, &next.binding_labels),
            action: FieldUpdate::diff(&base.action, &next.action),
            description: FieldUpdate::diff(&base.description, &next.description),
        })
    }
}

impl EntityUpdate<ClientShellCommand> for ClientShellCommandDelta {
    open spec fn check_error(&self, v: ClientShellCommandModel) -> Seq<char> {
        Seq::empty()
    }

    open spec fn update_key(&self) -> Seq<char> {
        self.command_id@
    }

    open spec fn applicable_to(&self, v: ClientShellCommandModel) -> bool {
        true
    }

    open spec fn applied_to(&self, v: ClientShellCommandModel) -> ClientShellCommandModel {
        ClientShellCommandModel {
            command_id: v.command_id,
            binding_label: self.binding_label.applied_view(v.binding_label),
            binding_labels: self.binding_labels.applied_view(v.binding_labels),
            action: self.action.applied_view(v.action),
            description: self.description.applied_view(v.description),
        }
    }

    open spec fn is_diff_of(&self, base: ClientShellCommandModel, next: ClientShellCommandModel) -> bool {
        &&& self.command_id@ == next.command_id
        &&& self.binding_label.is_diff_of(base.binding_label, next.binding_label)
        &&& self.binding_labels.is_diff_of(base.binding_labels, next.binding_labels)
        &&& self.action.is_diff_of(base.action, next.action)
        &&& self.description.is_diff_of(base.description, next.description)
    }

    fn update_id(&self) -> (r: &String) {
        &self.command_id
    }

    fn check(&self, target: &ClientShellCommand) -> (r: Result<(), String>) {
        Ok(())
    }

    fn apply_update(&self, target: &mut ClientShellCommand) {
        self.binding_label.apply_copy(&mut target.binding_label);
        self.binding_labels.apply_copy(&mut target.binding_labels);
        self.action.apply_copy(&mut target.action);
        self.description.apply_copy(&mut target.description);
    }

    fn compute(base: &ClientShellCommand, next: &ClientShellCommand) -> (r: Option<Self>) {
        ClientShellCommandDelta::diff(base, next)
    }

    fn duplicate(&self) -> (r: Self) {
        ClientShellCommandDelta {
            command_id: self.command_id.duplicate(),
            binding_label: self.binding_label.duplicate(),
            binding_labels: self.binding_labels.duplicate(),
            action: self.action.duplicate(),
            description: self.description.duplicate(),
        }
    }

    proof fn lemma_update(&self, v: ClientShellCommandModel) {
    }

    proof fn lemma_diff_roundtrip(&self, base: ClientShellCommandModel, next: ClientShellCommandModel) {
        assert(self.applied_to(base) =~= next);
    }
}

/// The changes from one metadata revision of a server boot to a later one.
#[derive(Debug, Clone, PartialEq, Eq, Default)]
pub struct ClientShellSnapshotDelta {
    pub boot_id: String,
    pub base_revision: u64,
    pub revision: u64,
    pub config_diagnostic: FieldUpdate<Option<String>>,
    pub product_announcement: FieldUpdate<Option<ClientShellProductAnnouncement>>,
    pub update_available: FieldUpdate<Option<String>>,
    pub update_install_command: FieldUpdate<String>,
    pub server_keybindings_toml: FieldUpdate<Option<String>>,
    pub latest_release_notes_available: FieldUpdate<bool>,
    pub integration_updates_available: FieldUpdate<bool>,
    pub worktree_directory: FieldUpdate<String>,
    pub release_notes: FieldUpdate<Option<ClientShellReleaseNotes>>,
    pub focused_workspace_id: FieldUpdate<Option<String>>,
    pub focused_tab_id: FieldUpdate<Option<String>>,
    pub focused_pane_id: FieldUpdate<Option<String>>,
    pub tab_bar_right: FieldUpdate<Vec<ClientShellTabStatusSegment>>,
    pub tab_bar_right_separator: FieldUpdate<String>,
    pub agent_view_label: FieldUpdate<Option<String>>,
    pub agent_order: FieldUpdate<Vec<String>>,
    pub workspaces: EntityCollectionDelta<ClientShellWorkspace, ClientShellWorkspaceDelta>,
    pub tabs: EntityCollectionDelta<ClientShellTab, ClientShellTabDelta>,
    pub panes: EntityCollectionDelta<ClientShellPane, ClientShellPaneDelta>,
    pub agents: EntityCollectionDelta<ClientShellAgent, ClientShellAgentDelta>,
    pub commands: EntityCollectionDelta<ClientShellCommand, ClientShellCommandDelta>,
}

/// An accepted metadata seed: every collection has unique keys, and every
/// workspace and agent has unique token keys.
pub open spec fn snapshot_seed_valid(s: ClientShellSnapshotModel) -> bool {
    &&& collection_wf::<ClientShellWorkspace>(s.workspaces)
    &&& collection_wf::<ClientShellTab>(s.tabs)
    &&& collection_wf::<ClientShellPane>(s.panes)
    &&& collection_wf::<ClientShellAgent>(s.agents)
    &&& collection_wf::<ClientShellCommand>(s.commands)
}

/// Each update of the delta names a record of `target`.
pub open spec fn updates_present<T: Entity, D: EntityUpdate<T>>(delta: EntityCollectionDelta<T, D>, target: Seq<T::V>) -> bool {
    forall|i: int| 0 <= i < delta.updated@.len() ==> has_key::<T>(target, (#[trigger] delta.updated@[i]).update_key())
}

/// A collection delta that validates against `target`, with consistent
/// added records and applicable updates.
pub open spec fn collection_delta_ok<T: Entity, D: EntityUpdate<T>>(delta: EntityCollectionDelta<T, D>, target: Seq<T::V>) -> bool {
    &&& delta.valid_for(target)
    &&& all_records_wf::<T>(delta.added_view())
    &&& delta.updates_applicable(target)
}

/// Checks the internal consistency of every record.
fn check_records<T: Entity>(items: &Vec<T>) -> (r: Result<(), String>)
    ensures
        r is Ok <==> all_records_wf::<T>(items.deep_view()),
        r matches Err(e) ==> e@ == T::record_error(),
{
    let mut i: usize = 0;
    while i < items.len()
        invariant
            i <= items.len(),
            forall|q: int| 0 <= q < i ==> T::record_wf(#[trigger] items.deep_view()[q]),
        decreases items.len() - i,
    {
        let c = items[i].check_record();
        if c.is_err() {
            assert(!T::record_wf(items.deep_view()[i as int]));
            return c;
        }
        i += 1;
    }
    Ok(())
}

/// The message of the first update, from index `i` on, that names no record
/// or does not apply to the record it names.
pub open spec fn updates_error<T: Entity, D: EntityUpdate<T>>(t: Seq<T::V>, ds: Seq<D>, i: int) -> Seq<char>
    decreases ds.len() - i,
{
    if i < 0 || i >= ds.len() {
        Seq::empty()
    } else if !has_key::<T>(t, ds[i].update_key()) {
        "update references an unknown ID"@
    } else if !ds[i].applicable_to(find_by_key::<T>(t, ds[i].update_key())) {
        ds[i].check_error(find_by_key::<T>(t, ds[i].update_key()))
    } else {
        updates_error::<T, D>(t, ds, i + 1)
    }
}

/// Checks every update against the record it names.
fn check_updates<T: Entity, D: EntityUpdate<T>>(target: &Vec<T>, delta: &EntityCollectionDelta<T, D>) -> (r: Result<(), String>)
    ensures
        r is Ok <==> updates_present::<T, D>(*delta, target.deep_view()) && delta.updates_applicable(target.deep_view()),
        r matches Err(e) ==> e@ == updates_error::<T, D>(target.deep_view(), delta.updated@, 0),
{
    let ghost t = target.deep_view();
    let ghost ds = delta.updated@;
    let mut i: usize = 0;
    while i < delta.updated.len()
        invariant
            i <= ds.len(),
            ds == delta.updated@,
            t == target.deep_view(),
            forall|q: int| 0 <= q < i ==> has_key::<T>(t, (#[trigger] ds[q]).update_key())
                && ds[q].applicable_to(find_by_key::<T>(t, ds[q].update_key())),
            updates_error::<T, D>(t, ds, 0) == updates_error::<T, D>(t, ds, i as int),
        decreases ds.len() - i,
    {
        match position_of_key(target, delta.updated[i].update_id()) {
            Some(p) => {
                let c = delta.updated[i].check(&target[p]);
                if c.is_err() {
                    assert(!ds[i as int].applicable_to(find_by_key::<T>(t, ds[i as int].update_key())));
                    return c;
                }
            },
            None => {
                assert(!has_key::<T>(t, ds[i as int].update_key()));
                return Err(String::from_str("update references an unknown ID"));
            },
        }
        assert(updates_error::<T, D>(t, ds, i as int) == updates_error::<T, D>(t, ds, i + 1));
        i += 1;
    }
    Ok(())
}

/// The message a seed is refused with, by the first check it fails: unique
/// workspace, tab, pane, agent and command IDs, then consistent workspaces
/// and agents.
pub open spec fn seed_error(s: ClientShellSnapshotModel) -> Seq<char> {
    if !unique_keys::<ClientShellWorkspace>(s.workspaces) {
        "duplicate "@ + "workspace ID"@
    } else if !unique_keys::<ClientShellTab>(s.tabs) {
        "duplicate "@ + "tab ID"@
    } else if !unique_keys::<ClientShellPane>(s.panes) {
        "duplicate "@ + "pane ID"@
    } else if !unique_keys::<ClientShellAgent>(s.agents) {
        "duplicate "@ + "agent ID"@
    } else if !unique_keys::<ClientShellCommand>(s.commands) {
        "duplicate "@ + "command ID"@
    } else if !all_records_wf::<ClientShellWorkspace>(s.workspaces) {
        ClientShellWorkspace::record_error()
    } else {
        ClientShellAgent::record_error()
    }
}

/// Checks a snapshot that is to become the base of later deltas.
pub fn validate_snapshot_seed(snapshot: &ClientShellSnapshot) -> (r: Result<(), String>)
    ensures
        r is Ok <==> snapshot_seed_valid(snapshot.deep_view()),
        r matches Err(e) ==> e@ == seed_error(snapshot.deep_view()),
{
    validate_unique(&snapshot.workspaces, "workspace ID")?;
    validate_unique(&snapshot.tabs, "tab ID")?;
    validate_unique(&snapshot.panes, "pane ID")?;
    validate_unique(&snapshot.agents, "agent ID")?;
    validate_unique(&snapshot.commands, "command ID")?;
    check_records(&snapshot.workspaces)?;
    check_records(&snapshot.agents)?;
    Ok(())
}

impl ClientShellSnapshotDelta {
    /// Nothing but the revision changes.
    pub open spec fn spec_is_noop(&self) -> bool {
        &&& self.config_diagnostic is Unchanged
        &&& self.product_announcement is Unchanged
        &&& self.update_available is Unchanged
        &&& self.update_install_command is Unchanged
        &&& self.server_keybindings_toml is Unchanged
        &&& self.latest_release_notes_available is Unchanged
        &&& self.integration_updates_available is Unchanged
        &&& self.worktree_directory is Unchanged
        &&& self.release_notes is Unchanged
        &&& self.focused_workspace_id is Unchanged
        &&& self.focused_tab_id is Unchanged
        &&& self.focused_pane_id is Unchanged
        &&& self.tab_bar_right is Unchanged
        &&& self.tab_bar_right_separator is Unchanged
        &&& self.agent_view_label is Unchanged
        &&& self.agent_order is Unchanged
        &&& self.workspaces.spec_is_empty()
        &&& self.tabs.spec_is_empty()
        &&& self.panes.spec_is_empty()
        &&& self.agents.spec_is_empty()
        &&& self.commands.spec_is_empty()
    }

    /// The delta continues `target`: same boot, based on its revision,
    /// moving to a later one, and every collection delta applies.
    pub open spec fn valid_for(&self, target: ClientShellSnapshotModel) -> bool {
        &&& target.boot_id == self.boot_id@
        &&& target.revision == self.base_revision
        &&& self.base_revision < self.revision
        &&& collection_delta_ok::<ClientShellWorkspace, ClientShellWorkspaceDelta>(self.workspaces, target.workspaces)
        &&& collection_delta_ok::<ClientShellTab, ClientShellTabDelta>(self.tabs, target.tabs)
        &&& collection_delta_ok::<ClientShellPane, ClientShellPaneDelta>(self.panes, target.panes)
        &&& collection_delta_ok::<ClientShellAgent, ClientShellAgentDelta>(self.agents, target.agents)
        &&& collection_delta_ok::<ClientShellCommand, ClientShellCommandDelta>(self.commands, target.commands)
    }

    /// The message the delta is refused with against `target`, by the first
    /// check it fails: the boot, the revisions, each collection's delta, then
    /// the added records and updates of workspaces and of agents.
    pub open spec fn error_for(&self, target: ClientShellSnapshotModel) -> Seq<char> {
        if target.boot_id != self.boot_id@ {
            "mismatched snapshot boot_id: target "@ + target.boot_id + " != delta "@ + self.boot_id@
        } else if target.revision != self.base_revision || self.revision <= self.base_revision {
            "snapshot delta does not continue the accepted metadata baseline"@
        } else if !self.workspaces.valid_for(target.workspaces) {
            self.workspaces.delta_error(target.workspaces)
        } else if !self.tabs.valid_for(target.tabs) {
            self.tabs.delta_error(target.tabs)
        } else if !self.panes.valid_for(target.panes) {
            self.panes.delta_error(target.panes)
        } else if !self.agents.valid_for(target.agents) {
            self.agents.delta_error(target.agents)
        } else if !self.commands.valid_for(target.commands) {
            self.commands.delta_error(target.commands)
        } else if !all_records_wf::<ClientShellWorkspace>(self.workspaces.added_view()) {
            ClientShellWorkspace::record_error()
        } else if !self.workspaces.updates_applicable(target.workspaces) {
            updates_error::<ClientShellWorkspace, ClientShellWorkspaceDelta>(target.workspaces, self.workspaces.updated@, 0)
        } else if !all_records_wf::<ClientShellAgent>(self.agents.added_view()) {
            ClientShellAgent::record_error()
        } else {
            updates_error::<ClientShellAgent, ClientShellAgentDelta>(target.agents, self.agents.updated@, 0)
        }
    }

    /// The snapshot after applying a valid delta.
    pub open spec fn applied(&self, target: ClientShellSnapshotModel) -> ClientShellSnapshotModel {
        ClientShellSnapshotModel {
            boot_id: target.boot_id,
            revision: self.revision,
            config_diagnostic: self.config_diagnostic.applied_view(target.config_diagnostic),
            product_announcement: self.product_announcement.applied_view(target.product_announcement),
            update_available: self.update_available.applied_view(target.update_available),
            update_install_command: self.update_install_command.applied_view(target.update_install_command),
            server_keybindings_toml: self.server_keybindings_toml.applied_view(target.server_keybindings_toml),
            latest_release_notes_available: self.latest_release_notes_available.applied_view(target.latest_release_notes_available),
            integration_updates_available: self.integration_updates_available.applied_view(target.integration_updates_available),
            worktree_directory: self.worktree_directory.applied_view(target.worktree_directory),
            release_notes: self.release_notes.applied_view(target.release_notes),
            focused_workspace_id: self.focused_workspace_id.applied_view(target.focused_workspace_id),
            focused_tab_id: self.focused_tab_id.applied_view(target.focused_tab_id),
            focused_pane_id: self.focused_pane_id.applied_view(target.focused_pane_id),
            tab_bar_right: self.tab_bar_right.applied_view(target.tab_bar_right),
            tab_bar_right_separator: self.tab_bar_right_separator.applied_view(target.tab_bar_right_separator),
            agent_view_label: self.agent_view_label.applied_view(target.agent_view_label),
            agent_order: self.agent_order.applied_view(target.agent_order),
            workspaces: self.workspaces.applied(target.workspaces),
            tabs: self.tabs.applied(target.tabs),
            panes: self.panes.applied(target.panes),
            agents: self.agents.applied(target.agents),
            commands: self.commands.applied(target.commands),
        }
    }

    /// The delta is the one `diff` computes from `base` to `next`.
    pub open spec fn is_diff_of(&self, base: ClientShellSnapshotModel, next: ClientShellSnapshotModel) -> bool {
        &&& self.boot_id@ == next.boot_id
        &&& self.base_revision == base.revision
        &&& self.revision == next.revision
        &&& self.config_diagnostic.is_diff_of(base.config_diagnostic, next.config_diagnostic)
        &&& self.product_announcement.is_diff_of(base.product_announcement, next.product_announcement)
        &&& self.update_available.is_diff_of(base.update_available, next.update_available)
        &&& self.update_install_command.is_diff_of(base.update_install_command, next.update_install_command)
        &&& self.server_keybindings_toml.is_diff_of(base.server_keybindings_toml, next.server_keybindings_toml)
        &&& self.latest_release_notes_available.is_diff_of(base.latest_release_notes_available, next.latest_release_notes_available)
        &&& self.integration_updates_available.is_diff_of(base.integration_updates_available, next.integration_updates_available)
        &&& self.worktree_directory.is_diff_of(base.worktree_directory, next.worktree_directory)
        &&& self.release_notes.is_diff_of(base.release_notes, next.release_notes)
        &&& self.focused_workspace_id.is_diff_of(base.focused_workspace_id, next.focused_workspace_id)
        &&& self.focused_tab_id.is_diff_of(base.focused_tab_id, next.focused_tab_id)
        &&& self.focused_pane_id.is_diff_of(base.focused_pane_id, next.focused_pane_id)
        &&& self.tab_bar_right.is_diff_of(base.tab_bar_right, next.tab_bar_right)
        &&& self.tab_bar_right_separator.is_diff_of(base.tab_bar_right_separator, next.tab_bar_right_separator)
        &&& self.agent_view_label.is_diff_of(base.agent_view_label, next.agent_view_label)
        &&& self.agent_order.is_diff_of(base.agent_order, next.agent_order)
        &&& self.workspaces.is_diff_of(base.workspaces, next.workspaces)
        &&& self.tabs.is_diff_of(base.tabs, next.tabs)
        &&& self.panes.is_diff_of(base.panes, next.panes)
        &&& self.agents.is_diff_of(base.agents, next.agents)
        &&& self.commands.is_diff_of(base.commands, next.commands)
    }

    pub fn is_noop(&self) -> (r: bool)
        ensures
            r == self.spec_is_noop(),
    {
        self.config_diagnostic.is_unchanged()
            && self.product_announcement.is_unchanged()
            && self.update_available.is_unchanged()
            && self.update_install_command.is_unchanged()
            && self.server_keybindings_toml.is_unchanged()
            && self.latest_release_notes_available.is_unchanged()
            && self.integration_updates_available.is_unchanged()
            && self.worktree_directory.is_unchanged()
            && self.release_notes.is_unchanged()
            && self.focused_workspace_id.is_unchanged()
            && self.focused_tab_id.is_unchanged()
            && self.focused_pane_id.is_unchanged()
            && self.tab_bar_right.is_unchanged()
            && self.tab_bar_right_separator.is_unchanged()
            && self.agent_view_label.is_unchanged()
            && self.agent_order.is_unchanged()
            && self.workspaces.is_empty()
            && self.tabs.is_empty()
            && self.panes.is_empty()
            && self.agents.is_empty()
            && self.commands.is_empty()
    }

    /// `None` when the snapshots belong to different boots, are equal, or
    /// `next` is not a later revision; otherwise the delta from `base` to `next`.
    pub fn diff(base: &ClientShellSnapshot, next: &ClientShellSnapshot) -> (r: Option<Self>)
        ensures
            r is None <==> (base.boot_id@ != next.boot_id@ || base.deep_view() == next.deep_view()
                || next.revision <= base.revision),
            r matches Some(d) ==> d.is_diff_of(base.deep_view(), next.deep_view()),
    {
        if !same_text(&base.boot_id, &next.boot_id) || base.same(next) || next.revision <= base.revision {
            return None;
        }
        Some(ClientShellSnapshotDelta {
            boot_id: next.boot_id.duplicate(),
            base_revision: base.revision,
            revision: next.revision,
            config_diagnostic: FieldUpdate::diff(&base.config_diagnostic, &next.config_diagnostic),
            product_announcement: FieldUpdate::diff(&base.product_announcement, &next.product_announcement),
            update_available: FieldUpdate::diff(&base.update_available, &next.update_available),
            update_install_command: FieldUpdate::diff(&base.update_install_command, &next.update_install_command),
            server_keybindings_toml: FieldUpdate::diff(&base.server_keybindings_toml, &next.server_keybindings_toml),
            latest_release_notes_available: FieldUpdate::diff(&base.latest_release_notes_available, &next.latest_release_notes_available),
            integration_updates_available: FieldUpdate::diff(&base.integration_updates_available, &next.integration_updates_available),
            worktree_directory: FieldUpdate::diff(&base.worktree_directory, &next.worktree_directory),
            release_notes: FieldUpdate::diff(&base.release_notes, &next.release_notes),
            focused_workspace_id: FieldUpdate::diff(&base.focused_workspace_id, &next.focused_workspace_id),
            focused_tab_id: FieldUpdate::diff(&base.focused_tab_id, &next.focused_tab_id),
            focused_pane_id: FieldUpdate::diff(&base.focused_pane_id, &next.focused_pane_id),
            tab_bar_right: FieldUpdate::diff(&base.tab_bar_right, &next.tab_bar_right),
            tab_bar_right_separator: FieldUpdate::diff(&base.tab_bar_right_separator, &next.tab_bar_right_separator),
            agent_view_label: FieldUpdate::diff(&base.agent_view_label, &next.agent_view_label),
            agent_order: FieldUpdate::diff(&base.agent_order, &next.agent_order),
            workspaces: diff_entities(&base.workspaces, &next.workspaces),
            tabs: diff_entities(&base.tabs, &next.tabs),
            panes: diff_entities(&base.panes, &next.panes),
            agents: diff_entities(&base.agents, &next.agents),
            commands: diff_entities(&base.commands, &next.commands),
        })
    }

    /// Checks the delta against the accepted seed `target`.
    pub fn validate(&self, target: &ClientShellSnapshot) -> (r: Result<(), String>)
        ensures
            r is Ok <==> self.valid_for(target.deep_view()),
            r matches Err(e) ==> e@ == self.error_for(target.deep_view()),
    {
        if !same_text(&target.boot_id, &self.boot_id) {
            let mut msg = String::from_str("mismatched snapshot boot_id: target ");
            msg.append(target.boot_id.as_str());
            msg.append(" != delta ");
            msg.append(self.boot_id.as_str());
            return Err(msg);
        }
        if target.revision != self.base_revision || self.revision <= self.base_revision {
            return Err(String::from_str("snapshot delta does not continue the accepted metadata baseline"));
        }
        validate_entity_delta(&target.workspaces, &self.workspaces)?;
        validate_entity_delta(&target.tabs, &self.tabs)?;
        validate_entity_delta(&target.panes, &self.panes)?;
        validate_entity_delta(&target.agents, &self.agents)?;
        validate_entity_delta(&target.commands, &self.commands)?;
        proof {
            lemma_valid_updates_present::<ClientShellWorkspace, ClientShellWorkspaceDelta>(self.workspaces, target.workspaces.deep_view());
        }
        proof {
            lemma_valid_updates_present::<ClientShellTab, ClientShellTabDelta>(self.tabs, target.tabs.deep_view());
        }
        proof {
            lemma_valid_updates_present::<ClientShellPane, ClientShellPaneDelta>(self.panes, target.panes.deep_view());
        }
        proof {
            lemma_valid_updates_present::<ClientShellAgent, ClientShellAgentDelta>(self.agents, target.agents.deep_view());
        }
        proof {
            lemma_valid_updates_present::<ClientShellCommand, ClientShellCommandDelta>(self.commands, target.commands.deep_view());
        }
        check_records(&self.workspaces.added)?;
        check_updates(&target.workspaces, &self.workspaces)?;
        check_records(&self.agents.added)?;
        check_updates(&target.agents, &self.agents)?;
        Ok(())
    }

    /// Applies the delta to the accepted seed `target`. A refused delta leaves
    /// `target` unchanged; an accepted one yields the applied snapshot, which
    /// is again an accepted seed.
    pub fn apply_to(&self, target: &mut ClientShellSnapshot) -> (r: Result<(), String>)
        requires
            snapshot_seed_valid(old(target).deep_view()),
        ensures
            r is Ok <==> self.valid_for(old(target).deep_view()),
            r is Ok ==> final(target).deep_view() == self.applied(old(target).deep_view())
                && snapshot_seed_valid(final(target).deep_view()),
            r is Err ==> final(target).deep_view() == old(target).deep_view(),
            r matches Err(e) ==> e@ == self.error_for(old(target).deep_view()),
    {
        self.validate(target)?;
        self.config_diagnostic.apply_copy(&mut target.config_diagnostic);
        self.product_announcement.apply_copy(&mut target.product_announcement);
        self.update_available.apply_copy(&mut target.update_available);
        self.update_install_command.apply_copy(&mut target.update_install_command);
        self.server_keybindings_toml.apply_copy(&mut target.server_keybindings_toml);
        self.latest_release_notes_available.apply_copy(&mut target.latest_release_notes_available);
        self.integration_updates_available.apply_copy(&mut target.integration_updates_available);
        self.worktree_directory.apply_copy(&mut target.worktree_directory);
        self.release_notes.apply_copy(&mut target.release_notes);
        self.focused_workspace_id.apply_copy(&mut target.focused_workspace_id);
        self.focused_tab_id.apply_copy(&mut target.focused_tab_id);
        self.focused_pane_id.apply_copy(&mut target.focused_pane_id);
        self.tab_bar_right.apply_copy(&mut target.tab_bar_right);
        self.tab_bar_right_separator.apply_copy(&mut target.tab_bar_right_separator);
        self.agent_view_label.apply_copy(&mut target.agent_view_label);
        self.agent_order.apply_copy(&mut target.agent_order);
        apply_entity_delta(&mut target.workspaces, &self.workspaces);
        apply_entity_delta(&mut target.tabs, &self.tabs);
        apply_entity_delta(&mut target.panes, &self.panes);
        apply_entity_delta(&mut target.agents, &self.agents);
        apply_entity_delta(&mut target.commands, &self.commands);
        target.revision = self.revision;
        Ok(())
    }
}

/// A collection delta that validates names only existing records in its updates.
proof fn lemma_valid_updates_present<T: Entity, D: EntityUpdate<T>>(delta: EntityCollectionDelta<T, D>, target: Seq<T::V>)
    requires
        delta.valid_for(target),
    ensures
        updates_present::<T, D>(delta, target),
{
}

/// Diff/apply round trip for snapshots: for two accepted seeds of one boot,
/// the second at a later revision, the delta computed between them validates
/// against the first and applying it yields exactly the second.
pub proof fn lemma_snapshot_diff_roundtrip(
    base: ClientShellSnapshotModel,
    next: ClientShellSnapshotModel,
    d: ClientShellSnapshotDelta,
)
    requires
        snapshot_seed_valid(base),
        snapshot_seed_valid(next),
        d.is_diff_of(base, next),
        base.boot_id == next.boot_id,
        base.revision < next.revision,
    ensures
        d.valid_for(base),
        d.applied(base) == next,
{
    lemma_entity_diff_roundtrip::<ClientShellWorkspace, ClientShellWorkspaceDelta>(base.workspaces, next.workspaces, d.workspaces);
    lemma_entity_diff_roundtrip::<ClientShellTab, ClientShellTabDelta>(base.tabs, next.tabs, d.tabs);
    lemma_entity_diff_roundtrip::<ClientShellPane, ClientShellPaneDelta>(base.panes, next.panes, d.panes);
    lemma_entity_diff_roundtrip::<ClientShellAgent, ClientShellAgentDelta>(base.agents, next.agents, d.agents);
    lemma_entity_diff_roundtrip::<ClientShellCommand, ClientShellCommandDelta>(base.commands, next.commands, d.commands);
    assert(d.applied(base) =~= next);
}

/// A delta is accepted at most once: after it has been applied, the same
/// delta no longer continues the snapshot it produced.
pub proof fn lemma_snapshot_delta_not_replayable(d: ClientShellSnapshotDelta, target: ClientShellSnapshotModel)
    requires
        d.valid_for(target),
    ensures
        !d.valid_for(d.applied(target)),
{
}

/// Two snapshots that differ only in their revision produce a delta that
/// carries no change.
pub proof fn lemma_revision_only_diff_is_noop(
    base: ClientShellSnapshotModel,
    next: ClientShellSnapshotModel,
    d: ClientShellSnapshotDelta,
)
    requires
        snapshot_seed_valid(base),
        next == (ClientShellSnapshotModel { revision: next.revision, ..base }),
        d.is_diff_of(base, next),
    ensures
        d.spec_is_noop(),
{
    lemma_entity_diff_of_same::<ClientShellWorkspace, ClientShellWorkspaceDelta>(base.workspaces, d.workspaces);
    lemma_entity_diff_of_same::<ClientShellTab, ClientShellTabDelta>(base.tabs, d.tabs);
    lemma_entity_diff_of_same::<ClientShellPane, ClientShellPaneDelta>(base.panes, d.panes);
    lemma_entity_diff_of_same::<ClientShellAgent, ClientShellAgentDelta>(base.agents, d.agents);
    lemma_entity_diff_of_same::<ClientShellCommand, ClientShellCommandDelta>(base.commands, d.commands);
}

/// The converse: a delta between two accepted seeds of one boot, the second
/// at a later revision, carries no change only when the second seed differs
/// from the first in its revision alone.
pub proof fn lemma_noop_diff_is_revision_only(
    base: ClientShellSnapshotModel,
    next: ClientShellSnapshotModel,
    d: ClientShellSnapshotDelta,
)
    requires
        snapshot_seed_valid(base),
        snapshot_seed_valid(next),
        d.is_diff_of(base, next),
        base.boot_id == next.boot_id,
        base.revision < next.revision,
        d.spec_is_noop(),
    ensures
        next == (ClientShellSnapshotModel { revision: next.revision, ..base }),
{
    lemma_snapshot_diff_roundtrip(base, next, d);
    lemma_empty_delta_applied::<ClientShellWorkspace, ClientShellWorkspaceDelta>(base.workspaces, d.workspaces);
    lemma_empty_delta_applied::<ClientShellTab, ClientShellTabDelta>(base.tabs, d.tabs);
    lemma_empty_delta_applied::<ClientShellPane, ClientShellPaneDelta>(base.panes, d.panes);
    lemma_empty_delta_applied::<ClientShellAgent, ClientShellAgentDelta>(base.agents, d.agents);
    lemma_empty_delta_applied::<ClientShellCommand, ClientShellCommandDelta>(base.commands, d.commands);
    assert(d.applied(base) =~= (ClientShellSnapshotModel { revision: next.revision, ..base }));
}

} // verus!
