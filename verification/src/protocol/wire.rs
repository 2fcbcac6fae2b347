//! Client shell metadata records as exchanged on the wire, with their
//! mathematical models.

use vstd::prelude::*;
use super::field::FieldValue;
use super::entity::Entity;
use super::keyed::{unique_keys, validate_unique, Keyed};

verus! {

/// Aggregate agent state shown for a workspace, tab or agent.
#[derive(Debug, Clone, Copy, PartialEq, Eq, Default)]
pub enum AgentStatus {
    #[default]
    Unknown,
    Idle,
    Working,
    Blocked,
    Done,
}

impl DeepView for AgentStatus {
    type V = AgentStatus;

    open spec fn deep_view(&self) -> AgentStatus {
        *self
    }
}

impl FieldValue for AgentStatus {
    fn same(&self, other: &Self) -> (r: bool) {
        match (self, other) {
            (AgentStatus::Unknown, AgentStatus::Unknown) => true,
            (AgentStatus::Idle, AgentStatus::Idle) => true,
            (AgentStatus::Working, AgentStatus::Working) => true,
            (AgentStatus::Blocked, AgentStatus::Blocked) => true,
            (AgentStatus::Done, AgentStatus::Done) => true,
            _ => false,
        }
    }

    fn duplicate(&self) -> (r: Self) {
        *self
    }
}


/// A git worktree associated with a workspace.
#[derive(Debug, Clone, PartialEq, Eq, Default)]
pub struct ClientShellWorktree {
    pub path: String,
    pub branch: Option<String>,
}

/// Model of [`ClientShellWorktree`].
pub struct ClientShellWorktreeModel {
    pub path: Seq<char>,
    pub branch: Option<Seq<char>>,
}

impl DeepView for ClientShellWorktree {
    type V = ClientShellWorktreeModel;

    open spec fn deep_view(&self) -> ClientShellWorktreeModel {
        ClientShellWorktreeModel {
            path: self.path.deep_view(),
            branch: self.branch.deep_view(),
        }
    }
}

impl FieldValue for ClientShellWorktree {
    fn same(&self, other: &Self) -> (r: bool) {
        self.path.same(&other.path)
            && self.branch.same(&other.branch)
    }

    fn duplicate(&self) -> (r: Self) {
        ClientShellWorktree {
            path: self.path.duplicate(),
            branch: self.branch.duplicate(),
        }
    }
}

/// What a palette command does when invoked.
#[derive(Debug, Clone, PartialEq, Eq, Default)]
pub struct ClientShellCommandAction {
    pub kind: String,
    pub argument: Option<String>,
}

/// Model of [`ClientShellCommandAction`].
pub struct ClientShellCommandActionModel {
    pub kind: Seq<char>,
    pub argument: Option<Seq<char>>,
}

impl DeepView for ClientShellCommandAction {
    type V = ClientShellCommandActionModel;

    open spec fn deep_view(&self) -> ClientShellCommandActionModel {
        ClientShellCommandActionModel {
            kind: self.kind.deep_view(),
            argument: self.argument.deep_view(),
        }
    }
}

impl FieldValue for ClientShellCommandAction {
    fn same(&self, other: &Self) -> (r: bool) {
        self.kind.same(&other.kind)
            && self.argument.same(&other.argument)
    }

    fn duplicate(&self) -> (r: Self) {
        ClientShellCommandAction {
            kind: self.kind.duplicate(),
            argument: self.argument.duplicate(),
        }
    }
}

/// A product announcement shown to the user.
#[derive(Debug, Clone, PartialEq, Eq, Default)]
pub struct ClientShellProductAnnouncement {
    pub id: String,
    pub message: String,
}

/// Model of [`ClientShellProductAnnouncement`].
pub struct ClientShellProductAnnouncementModel {
    pub id: Seq<char>,
    pub message: Seq<char>,
}

impl DeepView for ClientShellProductAnnouncement {
    type V = ClientShellProductAnnouncementModel;

    open spec fn deep_view(&self) -> ClientShellProductAnnouncementModel {
        ClientShellProductAnnouncementModel {
            id: self.id.deep_view(),
            message: self.message.deep_view(),
        }
    }
}

impl FieldValue for ClientShellProductAnnouncement {
    fn same(&self, other: &Self) -> (r: bool) {
        self.id.same(&other.id)
            && self.message.same(&other.message)
    }

    fn duplicate(&self) -> (r: Self) {
        ClientShellProductAnnouncement {
            id: self.id.duplicate(),
            message: self.message.duplicate(),
        }
    }
}

/// Release notes for the running version.
#[derive(Debug, Clone, PartialEq, Eq, Default)]
pub struct ClientShellReleaseNotes {
    pub version: String,
    pub notes: String,
}

/// Model of [`ClientShellReleaseNotes`].
pub struct ClientShellReleaseNotesModel {
    pub version: Seq<char>,
    pub notes: Seq<char>,
}

impl DeepView for ClientShellReleaseNotes {
    type V = ClientShellReleaseNotesModel;

    open spec fn deep_view(&self) -> ClientShellReleaseNotesModel {
        ClientShellReleaseNotesModel {
            version: self.version.deep_view(),
            notes: self.notes.deep_view(),
        }
    }
}

impl FieldValue for ClientShellReleaseNotes {
    fn same(&self, other: &Self) -> (r: bool) {
        self.version.same(&other.version)
            && self.notes.same(&other.notes)
    }

    fn duplicate(&self) -> (r: Self) {
        ClientShellReleaseNotes {
            version: self.version.duplicate(),
            notes: self.notes.duplicate(),
        }
    }
}

/// One segment of the right side of the tab bar.
#[derive(Debug, Clone, PartialEq, Eq, Default)]
pub struct ClientShellTabStatusSegment {
    pub text: String,
    pub style: Option<String>,
}

/// Model of [`ClientShellTabStatusSegment`].
pub struct ClientShellTabStatusSegmentModel {
    pub text: Seq<char>,
    pub style: Option<Seq<char>>,
}

impl DeepView for ClientShellTabStatusSegment {
    type V = ClientShellTabStatusSegmentModel;

    open spec fn deep_view(&self) -> ClientShellTabStatusSegmentModel {
        ClientShellTabStatusSegmentModel {
            text: self.text.deep_view(),
            style: self.style.deep_view(),
        }
    }
}

impl FieldValue for ClientShellTabStatusSegment {
    fn same(&self, other: &Self) -> (r: bool) {
        self.text.same(&other.text)
            && self.style.same(&other.style)
    }

    fn duplicate(&self) -> (r: Self) {
        ClientShellTabStatusSegment {
            text: self.text.duplicate(),
            style: self.style.duplicate(),
        }
    }
}

/// A workspace in the sidebar.
#[derive(Debug, Clone, PartialEq, Eq, Default)]
pub struct ClientShellWorkspace {
    pub workspace_id: String,
    pub active_tab_id: String,
    pub new_workspace_cwd: String,
    pub number: usize,
    pub label: String,
    pub custom_label: bool,
    pub branch: Option<String>,
    pub git_ahead_behind: Option<(usize, usize)>,
    pub tokens: Vec<(String, String)>,
    pub worktree: Option<ClientShellWorktree>,
    pub focused: bool,
    pub agent_status: AgentStatus,
}

/// Model of [`ClientShellWorkspace`].
pub struct ClientShellWorkspaceModel {
    pub workspace_id: Seq<char>,
    pub active_tab_id: Seq<char>,
    pub new_workspace_cwd: Seq<char>,
    pub number: usize,
    pub label: Seq<char>,
    pub custom_label: bool,
    pub branch: Option<Seq<char>>,
    pub git_ahead_behind: Option<(usize, usize)>,
    pub tokens: Seq<(Seq<char>, Seq<char>)>,
    pub worktree: Option<ClientShellWorktreeModel>,
    pub focused: bool,
    pub agent_status: AgentStatus,
}

impl DeepView for ClientShellWorkspace {
    type V = ClientShellWorkspaceModel;

    open spec fn deep_view(&self) -> ClientShellWorkspaceModel {
        ClientShellWorkspaceModel {
            workspace_id: self.workspace_id.deep_view(),
            active_tab_id: self.active_tab_id.deep_view(),
            new_workspace_cwd: self.new_workspace_cwd.deep_view(),
            number: self.number.deep_view(),
            label: self.label.deep_view(),
            custom_label: self.custom_label.deep_view(),
            branch: self.branch.deep_view(),
            git_ahead_behind: self.git_ahead_behind.deep_view(),
            tokens: self.tokens.deep_view(),
            worktree: self.worktree.deep_view(),
            focused: self.focused.deep_view(),
            agent_status: self.agent_status.deep_view(),
        }
    }
}

impl FieldValue for ClientShellWorkspace {
    fn same(&self, other: &Self) -> (r: bool) {
        self.workspace_id.same(&other.workspace_id)
            && self.active_tab_id.same(&other.active_tab_id)
            && self.new_workspace_cwd.same(&other.new_workspace_cwd)
            && self.number.same(&other.number)
            && self.label.same(&other.label)
            && self.custom_label.same(&other.custom_label)
            && self.branch.same(&other.branch)
            && self.git_ahead_behind.same(&other.git_ahead_behind)
            && self.tokens.same(&other.tokens)
            && self.worktree.same(&other.worktree)
            && self.focused.same(&other.focused)
            && self.agent_status.same(&other.agent_status)
    }

    fn duplicate(&self) -> (r: Self) {
        ClientShellWorkspace {
            workspace_id: self.workspace_id.duplicate(),
            active_tab_id: self.active_tab_id.duplicate(),
            new_workspace_cwd: self.new_workspace_cwd.duplicate(),
            number: self.number.duplicate(),
            label: self.label.duplicate(),
            custom_label: self.custom_label.duplicate(),
            branch: self.branch.duplicate(),
            git_ahead_behind: self.git_ahead_behind.duplicate(),
            tokens: self.tokens.duplicate(),
            worktree: self.worktree.duplicate(),
            focused: self.focused.duplicate(),
            agent_status: self.agent_status.duplicate(),
        }
    }
}

impl Keyed for ClientShellWorkspace {
    open spec fn view_key(v: ClientShellWorkspaceModel) -> Seq<char> {
        v.workspace_id
    }

    fn key(&self) -> (r: &String) {
        &self.workspace_id
    }
}

impl Entity for ClientShellWorkspace {
    open spec fn record_error() -> Seq<char> {
        "duplicate workspace token"@
    }

    open spec fn record_wf(v: ClientShellWorkspaceModel) -> bool {
        unique_keys::<(String, String)>(v.tokens)
    }

    fn check_record(&self) -> (r: Result<(), String>) {
        proof {
            reveal_strlit("duplicate ");
            reveal_strlit("workspace token");
            reveal_strlit("duplicate workspace token");
            assert("duplicate "@ + "workspace token"@ =~= "duplicate workspace token"@);
        }
        validate_unique(&self.tokens, "workspace token")
    }
}

/// A tab of a workspace.
#[derive(Debug, Clone, PartialEq, Eq, Default)]
pub struct ClientShellTab {
    pub tab_id: String,
    pub workspace_id: String,
    pub number: usize,
    pub label: String,
    pub custom_label: bool,
    pub zoomed: bool,
    pub focused: bool,
    pub agent_status: AgentStatus,
}

/// Model of [`ClientShellTab`].
pub struct ClientShellTabModel {
    pub tab_id: Seq<char>,
    pub workspace_id: Seq<char>,
    pub number: usize,
    pub label: Seq<char>,
    pub custom_label: bool,
    pub zoomed: bool,
    pub focused: bool,
    pub agent_status: AgentStatus,
}

impl DeepView for ClientShellTab {
    type V = ClientShellTabModel;

    open spec fn deep_view(&self) -> ClientShellTabModel {
        ClientShellTabModel {
            tab_id: self.tab_id.deep_view(),
            workspace_id: self.workspace_id.deep_view(),
            number: self.number.deep_view(),
            label: self.label.deep_view(),
            custom_label: self.custom_label.deep_view(),
            zoomed: self.zoomed.deep_view(),
            focused: self.focused.deep_view(),
            agent_status: self.agent_status.deep_view(),
        }
    }
}

impl FieldValue for ClientShellTab {
    fn same(&self, other: &Self) -> (r: bool) {
        self.tab_id.same(&other.tab_id)
            && self.workspace_id.same(&other.workspace_id)
            && self.number.same(&other.number)
            && self.label.same(&other.label)
            && self.custom_label.same(&other.custom_label)
            && self.zoomed.same(&other.zoomed)
            && self.focused.same(&other.focused)
            && self.agent_status.same(&other.agent_status)
    }

    fn duplicate(&self) -> (r: Self) {
        ClientShellTab {
            tab_id: self.tab_id.duplicate(),
            workspace_id: self.workspace_id.duplicate(),
            number: self.number.duplicate(),
            label: self.label.duplicate(),
            custom_label: self.custom_label.duplicate(),
            zoomed: self.zoomed.duplicate(),
            focused: self.focused.duplicate(),
            agent_status: self.agent_status.duplicate(),
        }
    }
}

impl Keyed for ClientShellTab {
    open spec fn view_key(v: ClientShellTabModel) -> Seq<char> {
        v.tab_id
    }

    fn key(&self) -> (r: &String) {
        &self.tab_id
    }
}

impl Entity for ClientShellTab {
    open spec fn record_error() -> Seq<char> {
        Seq::empty()
    }

    open spec fn record_wf(v: ClientShellTabModel) -> bool {
        true
    }

    fn check_record(&self) -> (r: Result<(), String>) {
        Ok(())
    }
}

/// A pane of a tab.
#[derive(Debug, Clone, PartialEq, Eq, Default)]
pub struct ClientShellPane {
    pub pane_id: String,
    pub workspace_id: String,
    pub tab_id: String,
    pub label: Option<String>,
    pub cwd: Option<String>,
    pub foreground_cwd: Option<String>,
    pub focused: bool,
    pub right_click_passthrough: bool,
}

/// Model of [`ClientShellPane`].
pub struct ClientShellPaneModel {
    pub pane_id: Seq<char>,
    pub workspace_id: Seq<char>,
    pub tab_id: Seq<char>,
    pub label: Option<Seq<char>>,
    pub cwd: Option<Seq<char>>,
    pub foreground_cwd: Option<Seq<char>>,
    pub focused: bool,
    pub right_click_passthrough: bool,
}

impl DeepView for ClientShellPane {
    type V = ClientShellPaneModel;

    open spec fn deep_view(&self) -> ClientShellPaneModel {
        ClientShellPaneModel {
            pane_id: self.pane_id.deep_view(),
            workspace_id: self.workspace_id.deep_view(),
            tab_id: self.tab_id.deep_view(),
            label: self.label.deep_view(),
            cwd: self.cwd.deep_view(),
            foreground_cwd: self.foreground_cwd.deep_view(),
            focused: self.focused.deep_view(),
            right_click_passthrough: self.right_click_passthrough.deep_view(),
        }
    }
}

impl FieldValue for ClientShellPane {
    fn same(&self, other: &Self) -> (r: bool) {
        self.pane_id.same(&other.pane_id)
            && self.workspace_id.same(&other.workspace_id)
            && self.tab_id.same(&other.tab_id)
            && self.label.same(&other.label)
            && self.cwd.same(&other.cwd)
            && self.foreground_cwd.same(&other.foreground_cwd)
            && self.focused.same(&other.focused)
            && self.right_click_passthrough.same(&other.right_click_passthrough)
    }

    fn duplicate(&self) -> (r: Self) {
        ClientShellPane {
            pane_id: self.pane_id.duplicate(),
            workspace_id: self.workspace_id.duplicate(),
            tab_id: self.tab_id.duplicate(),
            label: self.label.duplicate(),
            cwd: self.cwd.duplicate(),
            foreground_cwd: self.foreground_cwd.duplicate(),
            focused: self.focused.duplicate(),
            right_click_passthrough: self.right_click_passthrough.duplicate(),
        }
    }
}

impl Keyed for ClientShellPane {
    open spec fn view_key(v: ClientShellPaneModel) -> Seq<char> {
        v.pane_id
    }

    fn key(&self) -> (r: &String) {
        &self.pane_id
    }
}

impl Entity for ClientShellPane {
    open spec fn record_error() -> Seq<char> {
        Seq::empty()
    }

    open spec fn record_wf(v: ClientShellPaneModel) -> bool {
        true
    }

    fn check_record(&self) -> (r: Result<(), String>) {
        Ok(())
    }
}

/// An agent running in a pane.
#[derive(Debug, Clone, PartialEq, Eq, Default)]
pub struct ClientShellAgent {
    pub pane_id: String,
    pub workspace_id: String,
    pub tab_id: String,
    pub name: Option<String>,
    pub display_agent: Option<String>,
    pub agent: Option<String>,
    pub title: Option<String>,
    pub terminal_title: Option<String>,
    pub terminal_title_stripped: Option<String>,
    pub agent_status: AgentStatus,
    pub state_change_seq: u64,
    pub state_labels: Vec<(String, String)>,
    pub tokens: Vec<(String, String)>,
    pub focused: bool,
}

/// Model of [`ClientShellAgent`].
pub struct ClientShellAgentModel {
    pub pane_id: Seq<char>,
    pub workspace_id: Seq<char>,
    pub tab_id: Seq<char>,
    pub name: Option<Seq<char>>,
    pub display_agent: Option<Seq<char>>,
    pub agent: Option<Seq<char>>,
    pub title: Option<Seq<char>>,
    pub terminal_title: Option<Seq<char>>,
    pub terminal_title_stripped: Option<Seq<char>>,
    pub agent_status: AgentStatus,
    pub state_change_seq: u64,
    pub state_labels: Seq<(Seq<char>, Seq<char>)>,
    pub tokens: Seq<(Seq<char>, Seq<char>)>,
    pub focused: bool,
}

impl DeepView for ClientShellAgent {
    type V = ClientShellAgentModel;

    open spec fn deep_view(&self) -> ClientShellAgentModel {
        ClientShellAgentModel {
            pane_id: self.pane_id.deep_view(),
            workspace_id: self.workspace_id.deep_view(),
            tab_id: self.tab_id.deep_view(),
            name: self.name.deep_view(),
            display_agent: self.display_agent.deep_view(),
            agent: self.agent.deep_view(),
            title: self.title.deep_view(),
            terminal_title: self.terminal_title.deep_view(),
            terminal_title_stripped: self.terminal_title_stripped.deep_view(),
            agent_status: self.agent_status.deep_view(),
            state_change_seq: self.state_change_seq.deep_view(),
            state_labels: self.state_labels.deep_view(),
            tokens: self.tokens.deep_view(),
            focused: self.focused.deep_view(),
        }
    }
}

impl FieldValue for ClientShellAgent {
    fn same(&self, other: &Self) -> (r: bool) {
        self.pane_id.same(&other.pane_id)
            && self.workspace_id.same(&other.workspace_id)
            && self.tab_id.same(&other.tab_id)
            && self.name.same(&other.name)
            && self.display_agent.same(&other.display_agent)
            && self.agent.same(&other.agent)
            && self.title.same(&other.title)
            && self.terminal_title.same(&other.terminal_title)
            && self.terminal_title_stripped.same(&other.terminal_title_stripped)
            && self.agent_status.same(&other.agent_status)
            && self.state_change_seq.same(&other.state_change_seq)
            && self.state_labels.same(&other.state_labels)
            && self.tokens.same(&other.tokens)
            && self.focused.same(&other.focused)
    }

    fn duplicate(&self) -> (r: Self) {
        ClientShellAgent {
            pane_id: self.pane_id.duplicate(),
            workspace_id: self.workspace_id.duplicate(),
            tab_id: self.tab_id.duplicate(),
            name: self.name.duplicate(),
            display_agent: self.display_agent.duplicate(),
            agent: self.agent.duplicate(),
            title: self.title.duplicate(),
            terminal_title: self.terminal_title.duplicate(),
            terminal_title_stripped: self.terminal_title_stripped.duplicate(),
            agent_status: self.agent_status.duplicate(),
            state_change_seq: self.state_change_seq.duplicate(),
            state_labels: self.state_labels.duplicate(),
            tokens: self.tokens.duplicate(),
            focused: self.focused.duplicate(),
        }
    }
}

impl Keyed for ClientShellAgent {
    open spec fn view_key(v: ClientShellAgentModel) -> Seq<char> {
        v.pane_id
    }

    fn key(&self) -> (r: &String) {
        &self.pane_id
    }
}

impl Entity for ClientShellAgent {
    open spec fn record_error() -> Seq<char> {
        "duplicate agent token"@
    }

    open spec fn record_wf(v: ClientShellAgentModel) -> bool {
        unique_keys::<(String, String)>(v.tokens)
    }

    fn check_record(&self) -> (r: Result<(), String>) {
        proof {
            reveal_strlit("duplicate ");
            reveal_strlit("agent token");
            reveal_strlit("duplicate agent token");
            assert("duplicate "@ + "agent token"@ =~= "duplicate agent token"@);
        }
        validate_unique(&self.tokens, "agent token")
    }
}

/// A command palette entry.
#[derive(Debug, Clone, PartialEq, Eq, Default)]
pub struct ClientShellCommand {
    pub command_id: String,
    pub binding_label: String,
    pub binding_labels: Vec<String>,
    pub action: ClientShellCommandAction,
    pub description: Option<String>,
}

/// Model of [`ClientShellCommand`].
pub struct ClientShellCommandModel {
    pub command_id: Seq<char>,
    pub binding_label: Seq<char>,
    pub binding_labels: Seq<Seq<char>>,
    pub action: ClientShellCommandActionModel,
    pub description: Option<Seq<char>>,
}

impl DeepView for ClientShellCommand {
    type V = ClientShellCommandModel;

    open spec fn deep_view(&self) -> ClientShellCommandModel {
        ClientShellCommandModel {
            command_id: self.command_id.deep_view(),
            binding_label: self.binding_label.deep_view(),
            binding_labels: self.binding_labels.deep_view(),
            action: self.action.deep_view(),
            description: self.description.deep_view(),
        }
    }
}

impl FieldValue for ClientShellCommand {
    fn same(&self, other: &Self) -> (r: bool) {
        self.command_id.same(&other.command_id)
            && self.binding_label.same(&other.binding_label)
            && self.binding_labels.same(&other.binding_labels)
            && self.action.same(&other.action)
            && self.description.same(&other.description)
    }

    fn duplicate(&self) -> (r: Self) {
        ClientShellCommand {
            command_id: self.command_id.duplicate(),
            binding_label: self.binding_label.duplicate(),
            binding_labels: self.binding_labels.duplicate(),
            action: self.action.duplicate(),
            description: self.description.duplicate(),
        }
    }
}

impl Keyed for ClientShellCommand {
    open spec fn view_key(v: ClientShellCommandModel) -> Seq<char> {
        v.command_id
    }

    fn key(&self) -> (r: &String) {
        &self.command_id
    }
}

impl Entity for ClientShellCommand {
    open spec fn record_error() -> Seq<char> {
        Seq::empty()
    }

    open spec fn record_wf(v: ClientShellCommandModel) -> bool {
        true
    }

    fn check_record(&self) -> (r: Result<(), String>) {
        Ok(())
    }
}

/// The complete client shell metadata at one revision.
#[derive(Debug, Clone, PartialEq, Eq, Default)]
pub struct ClientShellSnapshot {
    pub boot_id: String,
    pub revision: u64,
    pub config_diagnostic: Option<String>,
    pub product_announcement: Option<ClientShellProductAnnouncement>,
    pub update_available: Option<String>,
    pub update_install_command: String,
    pub server_keybindings_toml: Option<String>,
    pub latest_release_notes_available: bool,
    pub integration_updates_available: bool,
    pub worktree_directory: String,
    pub release_notes: Option<ClientShellReleaseNotes>,
    pub focused_workspace_id: Option<String>,
    pub focused_tab_id: Option<String>,
    pub focused_pane_id: Option<String>,
    pub tab_bar_right: Vec<ClientShellTabStatusSegment>,
    pub tab_bar_right_separator: String,
    pub agent_view_label: Option<String>,
    pub agent_order: Vec<String>,
    pub workspaces: Vec<ClientShellWorkspace>,
    pub tabs: Vec<ClientShellTab>,
    pub panes: Vec<ClientShellPane>,
    pub agents: Vec<ClientShellAgent>,
    pub commands: Vec<ClientShellCommand>,
}

/// Model of [`ClientShellSnapshot`].
pub struct ClientShellSnapshotModel {
    pub boot_id: Seq<char>,
    pub revision: u64,
    pub config_diagnostic: Option<Seq<char>>,
    pub product_announcement: Option<ClientShellProductAnnouncementModel>,
    pub update_available: Option<Seq<char>>,
    pub update_install_command: Seq<char>,
    pub server_keybindings_toml: Option<Seq<char>>,
    pub latest_release_notes_available: bool,
    pub integration_updates_available: bool,
    pub worktree_directory: Seq<char>,
    pub release_notes: Option<ClientShellReleaseNotesModel>,
    pub focused_workspace_id: Option<Seq<char>>,
    pub focused_tab_id: Option<Seq<char>>,
    pub focused_pane_id: Option<Seq<char>>,
    pub tab_bar_right: Seq<ClientShellTabStatusSegmentModel>,
    pub tab_bar_right_separator: Seq<char>,
    pub agent_view_label: Option<Seq<char>>,
    pub agent_order: Seq<Seq<char>>,
    pub workspaces: Seq<ClientShellWorkspaceModel>,
    pub tabs: Seq<ClientShellTabModel>,
    pub panes: Seq<ClientShellPaneModel>,
    pub agents: Seq<ClientShellAgentModel>,
    pub commands: Seq<ClientShellCommandModel>,
}

impl DeepView for ClientShellSnapshot {
    type V = ClientShellSnapshotModel;

    open spec fn deep_view(&self) -> ClientShellSnapshotModel {
        ClientShellSnapshotModel {
            boot_id: self.boot_id.deep_view(),
            revision: self.revision.deep_view(),
            config_diagnostic: self.config_diagnostic.deep_view(),
            product_announcement: self.product_announcement.deep_view(),
            update_available: self.update_available.deep_view(),
            update_install_command: self.update_install_command.deep_view(),
            server_keybindings_toml: self.server_keybindings_toml.deep_view(),
            latest_release_notes_available: self.latest_release_notes_available.deep_view(),
            integration_updates_available: self.integration_updates_available.deep_view(),
            worktree_directory: self.worktree_directory.deep_view(),
            release_notes: self.release_notes.deep_view(),
            focused_workspace_id: self.focused_workspace_id.deep_view(),
            focused_tab_id: self.focused_tab_id.deep_view(),
            focused_pane_id: self.focused_pane_id.deep_view(),
            tab_bar_right: self.tab_bar_right.deep_view(),
            tab_bar_right_separator: self.tab_bar_right_separator.deep_view(),
            agent_view_label: self.agent_view_label.deep_view(),
            agent_order: self.agent_order.deep_view(),
            workspaces: self.workspaces.deep_view(),
            tabs: self.tabs.deep_view(),
            panes: self.panes.deep_view(),
            agents: self.agents.deep_view(),
            commands: self.commands.deep_view(),
        }
    }
}

impl FieldValue for ClientShellSnapshot {
    fn same(&self, other: &Self) -> (r: bool) {
        self.boot_id.same(&other.boot_id)
            && self.revision.same(&other.revision)
            && self.config_diagnostic.same(&other.config_diagnostic)
            && self.product_announcement.same(&other.product_announcement)
            && self.update_available.same(&other.update_available)
            && self.update_install_command.same(&other.update_install_command)
            && self.server_keybindings_toml.same(&other.server_keybindings_toml)
            && self.latest_release_notes_available.same(&other.latest_release_notes_available)
            && self.integration_updates_available.same(&other.integration_updates_available)
            && self.worktree_directory.same(&other.worktree_directory)
            && self.release_notes.same(&other.release_notes)
            && self.focused_workspace_id.same(&other.focused_workspace_id)
            && self.focused_tab_id.same(&other.focused_tab_id)
            && self.focused_pane_id.same(&other.focused_pane_id)
            && self.tab_bar_right.same(&other.tab_bar_right)
            && self.tab_bar_right_separator.same(&other.tab_bar_right_separator)
            && self.agent_view_label.same(&other.agent_view_label)
            && self.agent_order.same(&other.agent_order)
            && self.workspaces.same(&other.workspaces)
            && self.tabs.same(&other.tabs)
            && self.panes.same(&other.panes)
            && self.agents.same(&other.agents)
            && self.commands.same(&other.commands)
    }

    fn duplicate(&self) -> (r: Self) {
        ClientShellSnapshot {
            boot_id: self.boot_id.duplicate(),
            revision: self.revision.duplicate(),
            config_diagnostic: self.config_diagnostic.duplicate(),
            product_announcement: self.product_announcement.duplicate(),
            update_available: self.update_available.duplicate(),
            update_install_command: self.update_install_command.duplicate(),
            server_keybindings_toml: self.server_keybindings_toml.duplicate(),
            latest_release_notes_available: self.latest_release_notes_available.duplicate(),
            integration_updates_available: self.integration_updates_available.duplicate(),
            worktree_directory: self.worktree_directory.duplicate(),
            release_notes: self.release_notes.duplicate(),
            focused_workspace_id: self.focused_workspace_id.duplicate(),
            focused_tab_id: self.focused_tab_id.duplicate(),
            focused_pane_id: self.focused_pane_id.duplicate(),
            tab_bar_right: self.tab_bar_right.duplicate(),
            tab_bar_right_separator: self.tab_bar_right_separator.duplicate(),
            agent_view_label: self.agent_view_label.duplicate(),
            agent_order: self.agent_order.duplicate(),
            workspaces: self.workspaces.duplicate(),
            tabs: self.tabs.duplicate(),
            panes: self.panes.duplicate(),
            agents: self.agents.duplicate(),
            commands: self.commands.duplicate(),
        }
    }
}

} // verus!
