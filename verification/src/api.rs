//! The part of the server's API that the client and the command line use.

use vstd::prelude::*;

use crate::remote_registry::{RemoteDefinitionSnapshot, RemoteKeybindingsSnapshot, RemoteView};

verus! {

/// A method that takes no parameters.
#[derive(Debug, Clone, Copy, PartialEq, Eq)]
pub struct EmptyParams {}

/// The parameters of a status request.
#[derive(Debug, Clone, Copy, PartialEq, Eq)]
pub struct PingParams {}

#[derive(Debug, PartialEq, Eq)]
pub struct WorkspaceCreateParams {
    pub cwd: Option<String>,
    pub focus: bool,
    pub label: Option<String>,
}

#[derive(Debug, PartialEq, Eq)]
pub struct WorkspaceTarget {
    pub workspace_id: String,
}

#[derive(Debug, PartialEq, Eq)]
pub struct AgentTarget {
    pub target: String,
}

#[derive(Debug, Clone, PartialEq, Eq)]
pub struct RemoteAddParams {
    pub name: Option<String>,
    pub target: String,
    pub keybindings: RemoteKeybindingsSnapshot,
}

/// Where a live handoff goes, and what the new server must be.
#[derive(Debug, PartialEq, Eq)]
pub struct ServerLiveHandoffParams {
    pub import_exe: Option<String>,
    pub expected_protocol: Option<u32>,
    pub expected_version: Option<String>,
}

impl Default for ServerLiveHandoffParams {
    fn default() -> (r: Self)
        ensures
            r.import_exe is None,
            r.expected_protocol is None,
            r.expected_version is None,
    {
        ServerLiveHandoffParams {
            import_exe: None,
            expected_protocol: None,
            expected_version: None,
        }
    }
}

/// An event of which a subscriber is told.
#[derive(Debug, PartialEq, Eq)]
pub enum Subscription {
    WorkspaceCreated {  },
    WorkspaceUpdated {  },
    WorkspaceRenamed {  },
    WorkspaceClosed {  },
    WorkspaceFocused {  },
    TabCreated {  },
    TabClosed {  },
    TabFocused {  },
    TabRenamed {  },
    PaneCreated {  },
    PaneClosed {  },
    PaneFocused {  },
    PaneExited {  },
    PaneAgentDetected {  },
    PaneAgentStatusChanged { pane_id: Option<String>, agent_status: Option<AgentStatus> },
}

#[derive(Debug, PartialEq, Eq)]
pub struct EventsSubscribeParams {
    pub subscriptions: Vec<Subscription>,
}

/// What a request asks for.
#[derive(Debug, PartialEq, Eq)]
pub enum Method {
    Ping(PingParams),
    RemoteList(EmptyParams),
    RemoteAdd(RemoteAddParams),
    WorkspaceList(EmptyParams),
    WorkspaceCreate(WorkspaceCreateParams),
    WorkspaceFocus(WorkspaceTarget),
    AgentList(EmptyParams),
    AgentFocus(AgentTarget),
    ServerUiSettings(EmptyParams),
    ServerReloadConfig(EmptyParams),
    ServerStop(EmptyParams),
    ServerLiveHandoff(ServerLiveHandoffParams),
    EventsSubscribe(EventsSubscribeParams),
}

#[derive(Debug, PartialEq, Eq)]
pub struct Request {
    pub id: String,
    pub method: Method,
}

/// What an agent is doing.
#[derive(Debug, Clone, Copy, PartialEq, Eq, Structural)]
pub enum AgentStatus {
    Idle,
    Working,
    Blocked,
    Done,
    Unknown,
}

#[derive(Debug, Clone, PartialEq, Eq)]
pub struct WorkspaceInfo {
    pub workspace_id: String,
    pub number: usize,
    pub label: String,
    pub branch: Option<String>,
    pub focused: bool,
    pub pane_count: usize,
    pub tab_count: usize,
    pub active_tab_id: String,
    pub agent_status: AgentStatus,
}

#[derive(Debug, Clone, PartialEq, Eq)]
pub struct AgentInfo {
    pub terminal_id: String,
    pub name: Option<String>,
    pub agent: Option<String>,
    pub title: Option<String>,
    pub display_agent: Option<String>,
    pub agent_status: AgentStatus,
    pub custom_status: Option<String>,
    pub workspace_id: String,
    pub tab_id: String,
    pub pane_id: String,
    pub focused: bool,
    pub cwd: Option<String>,
    pub revision: u64,
}

/// Whether the banner of a host moves.
#[derive(Debug, Clone, Copy, PartialEq, Eq, Structural)]
pub enum HostBannerAnimation {
    Animated,
    Static,
}

/// How the banner of a host is shown.
#[derive(Debug, Clone, Copy, PartialEq, Eq, Structural)]
pub struct SidebarHostSettings {
    pub animation: HostBannerAnimation,
}

/// What the sidebar shows of a workspace beside its name.
#[derive(Debug, Clone, Copy, PartialEq, Eq, Structural)]
pub struct SidebarSpaceSettings {
    pub branch: bool,
    pub branch_status: bool,
}

/// A part of a workspace row that can be switched off.
#[derive(Debug, Clone, Copy, PartialEq, Eq, Structural)]
pub enum SidebarSpaceItem {
    Branch,
    BranchStatus,
}

impl SidebarSpaceItem {
    /// Switches this part on or off.
    pub fn set_enabled(self, spaces: &mut SidebarSpaceSettings, enabled: bool)
        ensures
            *final(spaces) == (match self {
                SidebarSpaceItem::Branch => SidebarSpaceSettings {
                    branch: enabled,
                    ..*old(spaces)
                },
                SidebarSpaceItem::BranchStatus => SidebarSpaceSettings {
                    branch_status: enabled,
                    ..*old(spaces)
                },
            }),
    {
        match self {
            SidebarSpaceItem::Branch => {
                spaces.branch = enabled;
            },
            SidebarSpaceItem::BranchStatus => {
                spaces.branch_status = enabled;
            },
        }
    }
}

/// The settings of a server that shape the client's sidebar.
#[derive(Debug, Clone, Copy, PartialEq, Eq, Structural)]
pub struct UiSettingsInfo {
    pub sidebar_width: u16,
    pub sidebar_default_width: u16,
    pub sidebar_min_width: u16,
    pub sidebar_max_width: u16,
    pub sidebar_spaces: SidebarSpaceSettings,
    pub sidebar_host: SidebarHostSettings,
}

/// The settings where the server tells none.
pub open spec fn default_ui_settings() -> UiSettingsInfo {
    UiSettingsInfo {
        sidebar_width: 26,
        sidebar_default_width: 26,
        sidebar_min_width: 18,
        sidebar_max_width: 36,
        sidebar_spaces: SidebarSpaceSettings { branch: true, branch_status: true },
        sidebar_host: SidebarHostSettings { animation: HostBannerAnimation::Animated },
    }
}

impl Default for UiSettingsInfo {
    fn default() -> (r: Self)
        ensures
            r == default_ui_settings(),
    {
        UiSettingsInfo {
            sidebar_width: 26,
            sidebar_default_width: 26,
            sidebar_min_width: 18,
            sidebar_max_width: 36,
            sidebar_spaces: SidebarSpaceSettings { branch: true, branch_status: true },
            sidebar_host: SidebarHostSettings { animation: HostBannerAnimation::Animated },
        }
    }
}

/// What a running server says of itself.
#[derive(Debug, PartialEq, Eq)]
pub struct RuntimeStatus {
    pub version: Option<String>,
    pub protocol: Option<u32>,
    pub live_handoff: bool,
}

/// The status of a running server, as a mathematical value.
#[verifier::ext_equal]
pub struct RuntimeStatusView {
    pub version: Option<Seq<char>>,
    pub protocol: Option<u32>,
    pub live_handoff: bool,
}

impl DeepView for RuntimeStatus {
    type V = RuntimeStatusView;

    open spec fn deep_view(&self) -> RuntimeStatusView {
        RuntimeStatusView {
            version: self.version.deep_view(),
            protocol: self.protocol,
            live_handoff: self.live_handoff,
        }
    }
}

/// What a status request came to, as a mathematical value.
pub open spec fn status_result(r: Result<RuntimeStatus, String>) -> Result<
    RuntimeStatusView,
    Seq<char>,
> {
    match r {
        Ok(status) => Ok(status.deep_view()),
        Err(e) => Err(e@),
    }
}

/// The result in a reply.
#[derive(Debug, PartialEq, Eq)]
pub enum ResponseResult {
    Done {  },
    Pong { version: String, protocol: u32, live_handoff: bool },
    RemoteList { remotes: Vec<RemoteDefinitionSnapshot> },
    RemoteAdded { remote: RemoteDefinitionSnapshot },
    WorkspaceList { workspaces: Vec<WorkspaceInfo> },
    AgentList { agents: Vec<AgentInfo> },
    UiSettings { settings: UiSettingsInfo },
}

/// A workspace in a reply, as a mathematical value.
#[verifier::ext_equal]
pub struct WorkspaceInfoView {
    pub workspace_id: Seq<char>,
    pub number: usize,
    pub label: Seq<char>,
    pub branch: Option<Seq<char>>,
    pub focused: bool,
    pub pane_count: usize,
    pub tab_count: usize,
    pub active_tab_id: Seq<char>,
    pub agent_status: AgentStatus,
}

impl DeepView for WorkspaceInfo {
    type V = WorkspaceInfoView;

    open spec fn deep_view(&self) -> WorkspaceInfoView {
        WorkspaceInfoView {
            workspace_id: self.workspace_id@,
            number: self.number,
            label: self.label@,
            branch: self.branch.deep_view(),
            focused: self.focused,
            pane_count: self.pane_count,
            tab_count: self.tab_count,
            active_tab_id: self.active_tab_id@,
            agent_status: self.agent_status,
        }
    }
}

/// An agent in a reply, as a mathematical value.
#[verifier::ext_equal]
pub struct AgentInfoView {
    pub terminal_id: Seq<char>,
    pub name: Option<Seq<char>>,
    pub agent: Option<Seq<char>>,
    pub title: Option<Seq<char>>,
    pub display_agent: Option<Seq<char>>,
    pub agent_status: AgentStatus,
    pub custom_status: Option<Seq<char>>,
    pub workspace_id: Seq<char>,
    pub tab_id: Seq<char>,
    pub pane_id: Seq<char>,
    pub focused: bool,
    pub cwd: Option<Seq<char>>,
    pub revision: u64,
}

impl DeepView for AgentInfo {
    type V = AgentInfoView;

    open spec fn deep_view(&self) -> AgentInfoView {
        AgentInfoView {
            terminal_id: self.terminal_id@,
            name: self.name.deep_view(),
            agent: self.agent.deep_view(),
            title: self.title.deep_view(),
            display_agent: self.display_agent.deep_view(),
            agent_status: self.agent_status,
            custom_status: self.custom_status.deep_view(),
            workspace_id: self.workspace_id@,
            tab_id: self.tab_id@,
            pane_id: self.pane_id@,
            focused: self.focused,
            cwd: self.cwd.deep_view(),
            revision: self.revision,
        }
    }
}

/// The result in a reply, as a mathematical value.
#[verifier::ext_equal]
pub enum ResultView {
    Done {  },
    Pong { version: Seq<char>, protocol: u32, live_handoff: bool },
    RemoteList { remotes: Seq<RemoteView> },
    RemoteAdded { remote: RemoteView },
    WorkspaceList { workspaces: Seq<WorkspaceInfoView> },
    AgentList { agents: Seq<AgentInfoView> },
    UiSettings { settings: UiSettingsInfo },
}

impl DeepView for ResponseResult {
    type V = ResultView;

    open spec fn deep_view(&self) -> ResultView {
        match self {
            ResponseResult::Done {  } => ResultView::Done {  },
            ResponseResult::Pong { version, protocol, live_handoff } => ResultView::Pong {
                version: version@,
                protocol: *protocol,
                live_handoff: *live_handoff,
            },
            ResponseResult::RemoteList { remotes } => ResultView::RemoteList {
                remotes: remotes.deep_view(),
            },
            ResponseResult::RemoteAdded { remote } => ResultView::RemoteAdded {
                remote: remote.deep_view(),
            },
            ResponseResult::WorkspaceList { workspaces } => ResultView::WorkspaceList {
                workspaces: workspaces.deep_view(),
            },
            ResponseResult::AgentList { agents } => ResultView::AgentList {
                agents: agents.deep_view(),
            },
            ResponseResult::UiSettings { settings } => ResultView::UiSettings {
                settings: *settings,
            },
        }
    }
}

#[derive(Debug, PartialEq, Eq)]
pub struct SuccessResponse {
    pub id: String,
    pub result: ResponseResult,
}

} // verus!
