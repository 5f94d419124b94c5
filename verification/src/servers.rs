//! The servers that a client knows, and what it knows of each.

use vstd::prelude::*;

use crate::api::{AgentInfo, AgentStatus, WorkspaceInfo};
use crate::remote_registry::{
    RemoteDefinitionSnapshot, RemoteKeybindingsSnapshot, RemoteTargetSnapshot, RemoteView,
    TargetView,
};
use crate::text::{clone_option, clone_strings, same};

verus! {

/// The name of a server inside the client.
#[derive(Debug, PartialEq, Eq, Hash)]
pub struct ServerId(pub String);

impl View for ServerId {
    type V = Seq<char>;

    open spec fn view(&self) -> Seq<char> {
        self.0@
    }
}

impl DeepView for ServerId {
    type V = Seq<char>;

    open spec fn deep_view(&self) -> Seq<char> {
        self.0@
    }
}

/// The id of the main server.
pub open spec fn main_id() -> Seq<char> {
    "main"@
}

/// The id of the server of a remote.
pub open spec fn secondary_id(id: Seq<char>) -> Seq<char> {
    "secondary:"@ + id
}

impl ServerId {
    /// The id of the main server.
    pub fn main() -> (r: Self)
        ensures
            r@ == main_id(),
    {
        ServerId("main".to_owned())
    }

    /// The id of the server of a remote.
    pub fn secondary(id: &str) -> (r: Self)
        ensures
            r@ == secondary_id(id@),
    {
        let mut name: String = "secondary:".to_owned();
        name.append(id);
        ServerId(name)
    }

    /// Whether two ids are the same.
    pub fn is(&self, other: &ServerId) -> (r: bool)
        ensures
            r == (self@ == other@),
    {
        self.0 == other.0
    }
}

impl Clone for ServerId {
    fn clone(&self) -> (r: Self)
        ensures
            r == *self,
    {
        ServerId(self.0.clone())
    }
}

/// No remote, whatever it is called, has the id of the main server, and two remotes with
/// different ids have different servers.
pub proof fn law_secondary_ids(a: Seq<char>, b: Seq<char>)
    ensures
        secondary_id(a) != main_id(),
        secondary_id(a) == secondary_id(b) ==> a == b,
{
    reveal_strlit("main");
    reveal_strlit("secondary:");
    assert(secondary_id(a)[0] == 's');
    assert(main_id()[0] == 'm');
    let n = "secondary:"@.len() as int;
    assert(secondary_id(a).skip(n) =~= a);
    assert(secondary_id(b).skip(n) =~= b);
}

/// Which servers the sidebar shows.
#[derive(Debug, PartialEq, Eq)]
pub enum ServerFilter {
    All,
    Server(ServerId),
}

/// A filter as a mathematical value: the id of the one server that is shown.
impl View for ServerFilter {
    type V = Option<Seq<char>>;

    open spec fn view(&self) -> Option<Seq<char>> {
        match self {
            ServerFilter::All => None,
            ServerFilter::Server(id) => Some(id@),
        }
    }
}

impl Clone for ServerFilter {
    fn clone(&self) -> (r: Self)
        ensures
            r == *self,
    {
        match self {
            ServerFilter::All => ServerFilter::All,
            ServerFilter::Server(id) => ServerFilter::Server(id.clone()),
        }
    }
}

#[derive(Debug, Clone, Copy, PartialEq, Eq, Structural)]
pub enum ServerRole {
    Main,
    Secondary,
}

/// How the connection to a server stands.
#[derive(Debug, Clone, Copy, PartialEq, Eq)]
pub enum ConnectionState {
    Connecting,
    Connected,
    Disconnected,
    ProtocolMismatch { server_protocol: Option<u32>, client_protocol: u32 },
}

impl ConnectionState {
    /// Whether the server is connected.
    pub fn is_connected(&self) -> (r: bool)
        ensures
            r == (*self is Connected),
    {
        match self {
            ConnectionState::Connected => true,
            _ => false,
        }
    }
}

/// How a server is reached.
#[derive(Debug, PartialEq, Eq)]
pub enum ServerConnectionTarget {
    Main,
    LocalSession(Option<String>),
    Ssh(String),
}

/// A connection target as a mathematical value.
#[verifier::ext_equal]
pub enum ConnectionView {
    Main,
    LocalSession(Option<Seq<char>>),
    Ssh(Seq<char>),
}

impl DeepView for ServerConnectionTarget {
    type V = ConnectionView;

    open spec fn deep_view(&self) -> ConnectionView {
        match self {
            ServerConnectionTarget::Main => ConnectionView::Main,
            ServerConnectionTarget::LocalSession(session) => ConnectionView::LocalSession(
                session.deep_view(),
            ),
            ServerConnectionTarget::Ssh(target) => ConnectionView::Ssh(target@),
        }
    }
}

/// How the server of a remote is reached.
pub open spec fn connection_of(target: TargetView) -> ConnectionView {
    match target {
        TargetView::Local { session } => ConnectionView::LocalSession(session),
        TargetView::Ssh { target, args } => ConnectionView::Ssh(target),
    }
}

impl vstd::std_specs::convert::FromSpecImpl<RemoteTargetSnapshot> for ServerConnectionTarget {
    open spec fn obeys_from_spec() -> bool {
        true
    }

    open spec fn from_spec(target: RemoteTargetSnapshot) -> Self {
        match target {
            RemoteTargetSnapshot::Local { session } => ServerConnectionTarget::LocalSession(session),
            RemoteTargetSnapshot::Ssh { target, args } => ServerConnectionTarget::Ssh(target),
        }
    }
}

impl From<RemoteTargetSnapshot> for ServerConnectionTarget {
    fn from(target: RemoteTargetSnapshot) -> Self {
        match target {
            RemoteTargetSnapshot::Local { session } => ServerConnectionTarget::LocalSession(session),
            RemoteTargetSnapshot::Ssh { target, args } => ServerConnectionTarget::Ssh(target),
        }
    }
}

impl Clone for ServerConnectionTarget {
    fn clone(&self) -> (r: Self)
        ensures
            r == *self,
    {
        match self {
            ServerConnectionTarget::Main => ServerConnectionTarget::Main,
            ServerConnectionTarget::LocalSession(session) => ServerConnectionTarget::LocalSession(
                clone_option(session),
            ),
            ServerConnectionTarget::Ssh(target) => ServerConnectionTarget::Ssh(target.clone()),
        }
    }
}

/// A workspace of a server.
#[derive(Debug, PartialEq, Eq)]
pub struct WorkspaceSummary {
    pub workspace_id: String,
    pub label: String,
    pub branch: Option<String>,
    pub focused: bool,
}

/// An agent of a server.
#[derive(Debug, PartialEq, Eq)]
pub struct AgentSummary {
    pub agent_id: String,
    pub workspace_id: String,
    pub label: String,
    pub status: String,
    pub focused: bool,
}

/// The workspaces and agents of a server.
#[derive(Debug, PartialEq, Eq)]
pub struct ServerSummary {
    pub workspaces: Vec<WorkspaceSummary>,
    pub agents: Vec<AgentSummary>,
}

#[verifier::ext_equal]
pub struct WorkspaceView {
    pub workspace_id: Seq<char>,
    pub label: Seq<char>,
    pub branch: Option<Seq<char>>,
    pub focused: bool,
}

#[verifier::ext_equal]
pub struct AgentView {
    pub agent_id: Seq<char>,
    pub workspace_id: Seq<char>,
    pub label: Seq<char>,
    pub status: Seq<char>,
    pub focused: bool,
}

#[verifier::ext_equal]
pub struct SummaryView {
    pub workspaces: Seq<WorkspaceView>,
    pub agents: Seq<AgentView>,
}

impl DeepView for WorkspaceSummary {
    type V = WorkspaceView;

    open spec fn deep_view(&self) -> WorkspaceView {
        WorkspaceView {
            workspace_id: self.workspace_id@,
            label: self.label@,
            branch: self.branch.deep_view(),
            focused: self.focused,
        }
    }
}

impl DeepView for AgentSummary {
    type V = AgentView;

    open spec fn deep_view(&self) -> AgentView {
        AgentView {
            agent_id: self.agent_id@,
            workspace_id: self.workspace_id@,
            label: self.label@,
            status: self.status@,
            focused: self.focused,
        }
    }
}

impl DeepView for ServerSummary {
    type V = SummaryView;

    open spec fn deep_view(&self) -> SummaryView {
        SummaryView {
            workspaces: self.workspaces.deep_view(),
            agents: self.agents.deep_view(),
        }
    }
}

impl Clone for WorkspaceSummary {
    fn clone(&self) -> (r: Self)
        ensures
            r == *self,
    {
        WorkspaceSummary {
            workspace_id: self.workspace_id.clone(),
            label: self.label.clone(),
            branch: clone_option(&self.branch),
            focused: self.focused,
        }
    }
}

impl Clone for AgentSummary {
    fn clone(&self) -> (r: Self)
        ensures
            r == *self,
    {
        AgentSummary {
            agent_id: self.agent_id.clone(),
            workspace_id: self.workspace_id.clone(),
            label: self.label.clone(),
            status: self.status.clone(),
            focused: self.focused,
        }
    }
}

/// The summary of a server of which nothing is known.
pub open spec fn empty_summary() -> SummaryView {
    SummaryView { workspaces: Seq::empty(), agents: Seq::empty() }
}

impl Default for ServerSummary {
    fn default() -> (r: Self)
        ensures
            r.deep_view() == empty_summary(),
    {
        let r: ServerSummary = ServerSummary { workspaces: Vec::new(), agents: Vec::new() };
        assert(r.deep_view() =~= empty_summary());
        r
    }
}

impl Clone for ServerSummary {
    fn clone(&self) -> (r: Self)
        ensures
            r.deep_view() == self.deep_view(),
    {
        let mut workspaces: Vec<WorkspaceSummary> = Vec::new();
        let mut i: usize = 0;
        while i < self.workspaces.len()
            invariant
                i <= self.workspaces@.len(),
                workspaces@ == self.workspaces@.take(i as int),
            decreases self.workspaces@.len() - i,
        {
            workspaces.push(self.workspaces[i].clone());
            i = i + 1;
        }
        let mut agents: Vec<AgentSummary> = Vec::new();
        let mut j: usize = 0;
        while j < self.agents.len()
            invariant
                j <= self.agents@.len(),
                agents@ == self.agents@.take(j as int),
            decreases self.agents@.len() - j,
        {
            agents.push(self.agents[j].clone());
            j = j + 1;
        }
        assert(workspaces.deep_view() =~= self.workspaces.deep_view());
        assert(agents.deep_view() =~= self.agents.deep_view());
        ServerSummary { workspaces, agents }
    }
}

/// A workspace after the focus went to the workspace with this id.
pub open spec fn workspace_with_focus(w: WorkspaceView, id: Seq<char>) -> WorkspaceView {
    WorkspaceView { focused: w.workspace_id == id, ..w }
}

/// An agent after the focus went to a workspace or, where one is given, to an agent.
pub open spec fn agent_with_focus(
    a: AgentView,
    workspace_id: Seq<char>,
    agent_id: Option<Seq<char>>,
) -> AgentView {
    AgentView {
        focused: match agent_id {
            Some(id) => a.agent_id == id,
            None => a.focused && a.workspace_id == workspace_id,
        },
        ..a
    }
}

/// What a server will tell of itself once the focus went to a workspace or to an agent of it.
pub open spec fn summary_with_focus(
    s: SummaryView,
    workspace_id: Seq<char>,
    agent_id: Option<Seq<char>>,
) -> SummaryView {
    SummaryView {
        workspaces: s.workspaces.map_values(
            |w: WorkspaceView| workspace_with_focus(w, workspace_id),
        ),
        agents: s.agents.map_values(
            |a: AgentView| agent_with_focus(a, workspace_id, agent_id),
        ),
    }
}

/// The workspace of the first agent with this id.
pub open spec fn workspace_of_agent(agents: Seq<AgentView>, id: Seq<char>) -> Seq<char>
    decreases agents.len(),
{
    if agents.len() == 0 {
        Seq::empty()
    } else if agents[0].agent_id == id {
        agents[0].workspace_id
    } else {
        workspace_of_agent(agents.drop_first(), id)
    }
}

impl ServerSummary {
    /// What the server will tell of itself once the focus went to a workspace or to an agent of
    /// it.
    pub fn with_focus(&self, workspace_id: &str, agent_id: Option<&str>) -> (r: ServerSummary)
        ensures
            r.deep_view() == summary_with_focus(
                self.deep_view(),
                workspace_id@,
                agent_id.deep_view(),
            ),
    {
        let ghost spaces = self.workspaces.deep_view();
        let ghost f = |w: WorkspaceView| workspace_with_focus(w, workspace_id@);
        let mut workspaces: Vec<WorkspaceSummary> = Vec::new();
        let mut i: usize = 0;
        assert(workspaces.deep_view() =~= spaces.take(0).map_values(f));
        while i < self.workspaces.len()
            invariant
                i <= self.workspaces@.len(),
                spaces == self.workspaces.deep_view(),
                f == (|w: WorkspaceView| workspace_with_focus(w, workspace_id@)),
                workspaces.deep_view() =~= spaces.take(i as int).map_values(f),
            decreases self.workspaces@.len() - i,
        {
            let ghost before = workspaces.deep_view();
            let mut copy: WorkspaceSummary = self.workspaces[i].clone();
            assert(spaces[i as int] == copy.deep_view());
            copy.focused = same(copy.workspace_id.as_str(), workspace_id);
            assert(copy.deep_view() == f(spaces[i as int]));
            workspaces.push(copy);
            assert(workspaces.deep_view() =~= before.push(copy.deep_view()));
            i = i + 1;
        }
        assert(spaces.take(i as int) =~= spaces);
        let ghost told = self.agents.deep_view();
        let ghost g = |a: AgentView| agent_with_focus(a, workspace_id@, agent_id.deep_view());
        let mut agents: Vec<AgentSummary> = Vec::new();
        let mut j: usize = 0;
        assert(agents.deep_view() =~= told.take(0).map_values(g));
        while j < self.agents.len()
            invariant
                j <= self.agents@.len(),
                told == self.agents.deep_view(),
                g == (|a: AgentView| agent_with_focus(a, workspace_id@, agent_id.deep_view())),
                agents.deep_view() =~= told.take(j as int).map_values(g),
            decreases self.agents@.len() - j,
        {
            let ghost before = agents.deep_view();
            let mut copy: AgentSummary = self.agents[j].clone();
            assert(told[j as int] == copy.deep_view());
            copy.focused = match agent_id {
                Some(id) => same(copy.agent_id.as_str(), id),
                None => copy.focused && same(copy.workspace_id.as_str(), workspace_id),
            };
            assert(copy.deep_view() == g(told[j as int]));
            agents.push(copy);
            assert(agents.deep_view() =~= before.push(copy.deep_view()));
            j = j + 1;
        }
        assert(told.take(j as int) =~= told);
        ServerSummary { workspaces, agents }
    }

    /// The workspace of the first agent with this id; an empty text without one.
    pub fn workspace_of(&self, agent_id: &str) -> (r: String)
        ensures
            r@ == workspace_of_agent(self.deep_view().agents, agent_id@),
    {
        let ghost all = self.agents.deep_view();
        let mut i: usize = 0;
        assert(all.skip(0) =~= all);
        while i < self.agents.len()
            invariant
                i <= self.agents@.len(),
                all == self.agents.deep_view(),
                workspace_of_agent(all, agent_id@) == workspace_of_agent(
                    all.skip(i as int),
                    agent_id@,
                ),
            decreases self.agents@.len() - i,
        {
            assert(all[i as int] == self.agents@[i as int].deep_view());
            assert(all.skip(i as int)[0] == all[i as int]);
            assert(all.skip(i as int).drop_first() =~= all.skip(i + 1));
            if same(self.agents[i].agent_id.as_str(), agent_id) {
                return self.agents[i].workspace_id.clone();
            }
            i = i + 1;
        }
        assert(all.skip(i as int).len() == 0);
        let none: String = "".to_owned();
        proof {
            reveal_strlit("");
        }
        assert(none@ =~= Seq::<char>::empty());
        none
    }
}

/// A server that the client manages.
#[derive(Debug, PartialEq, Eq)]
pub struct ManagedServer {
    pub id: ServerId,
    pub display_name: String,
    pub role: ServerRole,
    pub target: ServerConnectionTarget,
    /// The ssh options that precede the destination.
    pub ssh_args: Vec<String>,
    pub keybindings: RemoteKeybindingsSnapshot,
    /// Whether the remote is switched off.
    pub disabled: bool,
    pub connection_state: ConnectionState,
    pub summaries: ServerSummary,
}

/// A managed server as a mathematical value.
#[verifier::ext_equal]
pub struct ServerView {
    pub id: Seq<char>,
    pub display_name: Seq<char>,
    pub role: ServerRole,
    pub target: ConnectionView,
    pub ssh_args: Seq<Seq<char>>,
    pub keybindings: RemoteKeybindingsSnapshot,
    pub disabled: bool,
    pub connection_state: ConnectionState,
    pub summaries: SummaryView,
}

impl DeepView for ManagedServer {
    type V = ServerView;

    open spec fn deep_view(&self) -> ServerView {
        ServerView {
            id: self.id@,
            display_name: self.display_name@,
            role: self.role,
            target: self.target.deep_view(),
            ssh_args: self.ssh_args.deep_view(),
            keybindings: self.keybindings,
            disabled: self.disabled,
            connection_state: self.connection_state,
            summaries: self.summaries.deep_view(),
        }
    }
}

impl Clone for ManagedServer {
    fn clone(&self) -> (r: Self)
        ensures
            r.deep_view() == self.deep_view(),
    {
        ManagedServer {
            id: self.id.clone(),
            display_name: self.display_name.clone(),
            role: self.role,
            target: self.target.clone(),
            ssh_args: clone_strings(&self.ssh_args),
            keybindings: self.keybindings,
            disabled: self.disabled,
            connection_state: self.connection_state,
            summaries: self.summaries.clone(),
        }
    }
}

/// The main server as the client first sees it.
pub open spec fn main_server(display_name: Seq<char>) -> ServerView {
    ServerView {
        id: main_id(),
        display_name,
        role: ServerRole::Main,
        target: ConnectionView::Main,
        ssh_args: Seq::empty(),
        keybindings: RemoteKeybindingsSnapshot::Server,
        disabled: false,
        connection_state: ConnectionState::Connected,
        summaries: empty_summary(),
    }
}

/// The ssh options of a remote's target.
pub open spec fn ssh_args_of(target: TargetView) -> Seq<Seq<char>> {
    match target {
        TargetView::Ssh { target, args } => args,
        TargetView::Local { session } => Seq::empty(),
    }
}

/// The ssh options of a remote's target.
pub fn ssh_args(target: &RemoteTargetSnapshot) -> (r: Vec<String>)
    ensures
        r.deep_view() == ssh_args_of(target.deep_view()),
{
    match target {
        RemoteTargetSnapshot::Ssh { target, args } => clone_strings(args),
        RemoteTargetSnapshot::Local { session } => {
            let none: Vec<String> = Vec::new();
            assert(none.deep_view() =~= Seq::<Seq<char>>::empty());
            none
        },
    }
}

/// How the connection to a server stands: a remote that is switched off has none.
pub open spec fn settled(disabled: bool, state: ConnectionState) -> ConnectionState {
    if disabled {
        ConnectionState::Disconnected
    } else {
        state
    }
}

/// How the connection to a server stands.
pub fn settle(disabled: bool, state: ConnectionState) -> (r: ConnectionState)
    ensures
        r == settled(disabled, state),
{
    if disabled {
        ConnectionState::Disconnected
    } else {
        state
    }
}

/// The server of a remote, before anything is known of it.
pub open spec fn secondary_server(
    definition: RemoteView,
    connection_state: ConnectionState,
) -> ServerView {
    ServerView {
        id: secondary_id(definition.id),
        display_name: definition.name,
        role: ServerRole::Secondary,
        target: connection_of(definition.target),
        ssh_args: ssh_args_of(definition.target),
        keybindings: definition.keybindings,
        disabled: definition.disabled,
        connection_state: settled(definition.disabled, connection_state),
        summaries: empty_summary(),
    }
}

/// The server of a remote, before anything is known of it.
pub fn managed_secondary(
    definition: &RemoteDefinitionSnapshot,
    connection_state: ConnectionState,
) -> (r: ManagedServer)
    ensures
        r.deep_view() == secondary_server(definition.deep_view(), connection_state),
{
    ManagedServer {
        id: ServerId::secondary(definition.id.as_str()),
        display_name: definition.name.clone(),
        role: ServerRole::Secondary,
        target: ServerConnectionTarget::from(definition.target.clone()),
        ssh_args: ssh_args(&definition.target),
        keybindings: definition.keybindings,
        disabled: definition.disabled,
        connection_state: settle(definition.disabled, connection_state),
        summaries: ServerSummary::default(),
    }
}

/// What an agent is called: the first of its names that is there.
pub open spec fn agent_label_of(
    name: Option<Seq<char>>,
    display_agent: Option<Seq<char>>,
    agent: Option<Seq<char>>,
    title: Option<Seq<char>>,
    terminal_id: Seq<char>,
) -> Seq<char> {
    if name is Some {
        name->0
    } else if display_agent is Some {
        display_agent->0
    } else if agent is Some {
        agent->0
    } else if title is Some {
        title->0
    } else {
        terminal_id
    }
}

/// What an agent is called.
pub fn agent_label(agent: &AgentInfo) -> (r: String)
    ensures
        r@ == agent_label_of(
            agent.name.deep_view(),
            agent.display_agent.deep_view(),
            agent.agent.deep_view(),
            agent.title.deep_view(),
            agent.terminal_id@,
        ),
{
    if let Some(name) = &agent.name {
        return name.clone();
    }
    if let Some(name) = &agent.display_agent {
        return name.clone();
    }
    if let Some(name) = &agent.agent {
        return name.clone();
    }
    if let Some(name) = &agent.title {
        return name.clone();
    }
    agent.terminal_id.clone()
}

/// The word for a status.
pub open spec fn status_word(status: AgentStatus) -> Seq<char> {
    match status {
        AgentStatus::Idle => "idle"@,
        AgentStatus::Working => "working"@,
        AgentStatus::Blocked => "blocked"@,
        AgentStatus::Done => "done"@,
        AgentStatus::Unknown => "unknown"@,
    }
}

/// The word for a status.
pub fn agent_status_label(status: AgentStatus) -> (r: String)
    ensures
        r@ == status_word(status),
{
    match status {
        AgentStatus::Idle => "idle".to_owned(),
        AgentStatus::Working => "working".to_owned(),
        AgentStatus::Blocked => "blocked".to_owned(),
        AgentStatus::Done => "done".to_owned(),
        AgentStatus::Unknown => "unknown".to_owned(),
    }
}

/// What the client keeps of a workspace.
pub open spec fn workspace_of(info: WorkspaceInfo) -> WorkspaceView {
    WorkspaceView {
        workspace_id: info.workspace_id@,
        label: info.label@,
        branch: info.branch.deep_view(),
        focused: info.focused,
    }
}

/// What the client keeps of an agent.
pub open spec fn agent_of(info: AgentInfo) -> AgentView {
    AgentView {
        agent_id: info.terminal_id@,
        workspace_id: info.workspace_id@,
        label: agent_label_of(
            info.name.deep_view(),
            info.display_agent.deep_view(),
            info.agent.deep_view(),
            info.title.deep_view(),
            info.terminal_id@,
        ),
        status: status_word(info.agent_status),
        focused: info.focused,
    }
}

/// What the client keeps of the lists that a server tells.
pub open spec fn summary_of(
    workspaces: Seq<WorkspaceInfo>,
    agents: Seq<AgentInfo>,
) -> SummaryView {
    SummaryView {
        workspaces: workspaces.map_values(|w: WorkspaceInfo| workspace_of(w)),
        agents: agents.map_values(|a: AgentInfo| agent_of(a)),
    }
}

impl ServerSummary {
    /// What the client keeps of the lists that a server tells.
    pub fn from_api(workspaces: &Vec<WorkspaceInfo>, agents: &Vec<AgentInfo>) -> (r: Self)
        ensures
            r.deep_view() == summary_of(workspaces@, agents@),
            r.workspaces@.len() == workspaces@.len(),
            forall|i: int|
                0 <= i < workspaces@.len() ==> {
                    &&& (#[trigger] r.workspaces@[i]).workspace_id@ == workspaces@[i].workspace_id@
                    &&& r.workspaces@[i].label@ == workspaces@[i].label@
                    &&& r.workspaces@[i].branch.deep_view() == workspaces@[i].branch.deep_view()
                    &&& r.workspaces@[i].focused == workspaces@[i].focused
                },
            r.agents@.len() == agents@.len(),
            forall|i: int|
                0 <= i < agents@.len() ==> {
                    &&& (#[trigger] r.agents@[i]).agent_id@ == agents@[i].terminal_id@
                    &&& r.agents@[i].workspace_id@ == agents@[i].workspace_id@
                    &&& r.agents@[i].focused == agents@[i].focused
                },
    {
        let mut kept: Vec<WorkspaceSummary> = Vec::new();
        let mut i: usize = 0;
        while i < workspaces.len()
            invariant
                i <= workspaces@.len(),
                kept.deep_view() =~= workspaces@.take(i as int).map_values(
                    |w: WorkspaceInfo| workspace_of(w),
                ),
                kept@.len() == i,
                forall|k: int|
                    0 <= k < i ==> {
                        &&& (#[trigger] kept@[k]).workspace_id@ == workspaces@[k].workspace_id@
                        &&& kept@[k].label@ == workspaces@[k].label@
                        &&& kept@[k].branch.deep_view() == workspaces@[k].branch.deep_view()
                        &&& kept@[k].focused == workspaces@[k].focused
                    },
            decreases workspaces@.len() - i,
        {
            let ghost before = kept.deep_view();
            let info: &WorkspaceInfo = &workspaces[i];
            let workspace: WorkspaceSummary = WorkspaceSummary {
                workspace_id: info.workspace_id.clone(),
                label: info.label.clone(),
                branch: clone_option(&info.branch),
                focused: info.focused,
            };
            kept.push(workspace);
            assert(kept.deep_view() =~= before.push(workspace.deep_view()));
            i = i + 1;
        }
        let mut known: Vec<AgentSummary> = Vec::new();
        let mut j: usize = 0;
        while j < agents.len()
            invariant
                j <= agents@.len(),
                known.deep_view() =~= agents@.take(j as int).map_values(
                    |a: AgentInfo| agent_of(a),
                ),
                known@.len() == j,
                forall|k: int|
                    0 <= k < j ==> {
                        &&& (#[trigger] known@[k]).agent_id@ == agents@[k].terminal_id@
                        &&& known@[k].workspace_id@ == agents@[k].workspace_id@
                        &&& known@[k].focused == agents@[k].focused
                    },
            decreases agents@.len() - j,
        {
            let ghost before = known.deep_view();
            let info: &AgentInfo = &agents[j];
            let agent: AgentSummary = AgentSummary {
                agent_id: info.terminal_id.clone(),
                workspace_id: info.workspace_id.clone(),
                label: agent_label(info),
                status: agent_status_label(info.agent_status),
                focused: info.focused,
            };
            known.push(agent);
            assert(known.deep_view() =~= before.push(agent.deep_view()));
            j = j + 1;
        }
        assert(workspaces@.take(i as int) =~= workspaces@);
        assert(agents@.take(j as int) =~= agents@);
        ServerSummary { workspaces: kept, agents: known }
    }
}

} // verus!
