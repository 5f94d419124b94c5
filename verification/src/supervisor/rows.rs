//! The rows of the sidebar.

use vstd::prelude::*;

use crate::api::HostBannerAnimation;
use crate::seqs::{flat, lemma_flat_step, lemma_pick_step, pick};
use crate::servers::{
    AgentSummary, AgentView, ConnectionState, ManagedServer, ServerFilter, ServerId, ServerRole,
    ServerView, WorkspaceSummary, WorkspaceView,
};
use crate::supervisor::{server_named, ClientSupervisorModel, ModelView};
use crate::text;

verus! {

/// A workspace in the sidebar, or the word on a server without any.
#[derive(Debug, PartialEq, Eq)]
pub struct WorkspaceSidebarRow {
    pub server_id: ServerId,
    pub workspace_id: Option<String>,
    pub label: String,
    pub branch: Option<String>,
    pub focused: bool,
    pub disabled: bool,
}

/// An agent in the sidebar.
#[derive(Debug, PartialEq, Eq)]
pub struct AgentSidebarRow {
    pub agent_id: String,
    pub label: String,
    pub status: String,
    pub focused: bool,
}

/// The agents of a workspace in the sidebar.
#[derive(Debug, PartialEq, Eq)]
pub struct AgentSidebarGroup {
    pub server_id: ServerId,
    pub workspace_id: String,
    pub label: String,
    pub focused: bool,
    pub agents: Vec<AgentSidebarRow>,
}

#[verifier::ext_equal]
pub struct RowView {
    pub server_id: Seq<char>,
    pub workspace_id: Option<Seq<char>>,
    pub label: Seq<char>,
    pub branch: Option<Seq<char>>,
    pub focused: bool,
    pub disabled: bool,
}

#[verifier::ext_equal]
pub struct AgentRowView {
    pub agent_id: Seq<char>,
    pub label: Seq<char>,
    pub status: Seq<char>,
    pub focused: bool,
}

#[verifier::ext_equal]
pub struct GroupView {
    pub server_id: Seq<char>,
    pub workspace_id: Seq<char>,
    pub label: Seq<char>,
    pub focused: bool,
    pub agents: Seq<AgentRowView>,
}

impl DeepView for WorkspaceSidebarRow {
    type V = RowView;

    open spec fn deep_view(&self) -> RowView {
        RowView {
            server_id: self.server_id@,
            workspace_id: self.workspace_id.deep_view(),
            label: self.label@,
            branch: self.branch.deep_view(),
            focused: self.focused,
            disabled: self.disabled,
        }
    }
}

impl DeepView for AgentSidebarRow {
    type V = AgentRowView;

    open spec fn deep_view(&self) -> AgentRowView {
        AgentRowView {
            agent_id: self.agent_id@,
            label: self.label@,
            status: self.status@,
            focused: self.focused,
        }
    }
}

impl DeepView for AgentSidebarGroup {
    type V = GroupView;

    open spec fn deep_view(&self) -> GroupView {
        GroupView {
            server_id: self.server_id@,
            workspace_id: self.workspace_id@,
            label: self.label@,
            focused: self.focused,
            agents: self.agents.deep_view(),
        }
    }
}

/// The label of a workspace: with all servers shown, a remote's carries the name of the server.
pub open spec fn workspace_label_of(
    server: ServerView,
    label: Seq<char>,
    all_shown: bool,
) -> Seq<char> {
    if all_shown && server.role == ServerRole::Secondary {
        server.display_name + " "@ + label
    } else {
        label
    }
}

/// What is said of a server that is not connected and of which nothing is known.
pub open spec fn unavailable_label_of(server: ServerView) -> Seq<char> {
    match server.connection_state {
        ConnectionState::Connecting => server.display_name + " connecting"@,
        ConnectionState::Disconnected => server.display_name + " offline"@,
        ConnectionState::ProtocolMismatch { server_protocol, client_protocol } =>
            server.display_name + " protocol mismatch"@,
        ConnectionState::Connected => server.display_name,
    }
}

/// A row that only says something.
pub open spec fn placeholder_row(server: ServerView, label: Seq<char>) -> RowView {
    RowView {
        server_id: server.id,
        workspace_id: None,
        label,
        branch: None,
        focused: false,
        disabled: true,
    }
}

/// The row of a workspace.
pub open spec fn workspace_row(
    server: ServerView,
    workspace: WorkspaceView,
    all_shown: bool,
) -> RowView {
    RowView {
        server_id: server.id,
        workspace_id: Some(workspace.workspace_id),
        label: workspace_label_of(server, workspace.label, all_shown),
        branch: workspace.branch,
        focused: workspace.focused,
        disabled: !(server.connection_state is Connected),
    }
}

/// The rows of a server.
pub open spec fn rows_of_server(server: ServerView, all_shown: bool) -> Seq<RowView> {
    if server.summaries.workspaces.len() == 0 && !(server.connection_state is Connected) {
        seq![placeholder_row(server, unavailable_label_of(server))]
    } else if server.summaries.workspaces.len() == 0 && server.role == ServerRole::Secondary {
        seq![placeholder_row(server, server.display_name + " no workspaces"@)]
    } else {
        server.summaries.workspaces.map_values(
            |w: WorkspaceView| workspace_row(server, w, all_shown),
        )
    }
}

/// The servers that the filter shows.
pub open spec fn visible_of(m: ModelView) -> Seq<ServerView> {
    match m.filter {
        None => m.servers,
        Some(id) => match server_named(m.servers, id) {
            Some(server) => seq![server],
            None => Seq::empty(),
        },
    }
}

/// The workspace rows of the sidebar.
pub open spec fn workspace_rows_of(m: ModelView) -> Seq<RowView> {
    flat(visible_of(m), |s: ServerView| rows_of_server(s, m.filter is None))
}

/// The row of an agent of this workspace.
pub open spec fn agent_row(agent: AgentView, workspace_id: Seq<char>) -> Option<AgentRowView> {
    if agent.workspace_id == workspace_id {
        Some(
            AgentRowView {
                agent_id: agent.agent_id,
                label: agent.label,
                status: agent.status,
                focused: agent.focused,
            },
        )
    } else {
        None
    }
}

/// The rows of the agents of a workspace.
pub open spec fn agent_rows(agents: Seq<AgentView>, workspace_id: Seq<char>) -> Seq<AgentRowView> {
    pick(agents, |a: AgentView| agent_row(a, workspace_id))
}

/// Whether one of the agents has the focus.
pub open spec fn any_focused(agents: Seq<AgentRowView>) -> bool {
    exists|i: int| 0 <= i < agents.len() && (#[trigger] agents[i]).focused
}

/// The group of a workspace's agents, where it has any.
pub open spec fn group_of(
    server: ServerView,
    workspace: WorkspaceView,
    all_shown: bool,
) -> Option<GroupView> {
    let agents = agent_rows(server.summaries.agents, workspace.workspace_id);
    if agents.len() == 0 {
        None
    } else {
        Some(
            GroupView {
                server_id: server.id,
                workspace_id: workspace.workspace_id,
                label: workspace_label_of(server, workspace.label, all_shown),
                focused: workspace.focused || any_focused(agents),
                agents,
            },
        )
    }
}

/// The agent groups of a server; none where it is not connected.
pub open spec fn groups_of_server(server: ServerView, all_shown: bool) -> Seq<GroupView> {
    if server.connection_state is Connected {
        pick(
            server.summaries.workspaces,
            |w: WorkspaceView| group_of(server, w, all_shown),
        )
    } else {
        Seq::empty()
    }
}

/// The agent groups of the sidebar.
pub open spec fn agent_groups_of(m: ModelView) -> Seq<GroupView> {
    flat(visible_of(m), |s: ServerView| groups_of_server(s, m.filter is None))
}

/// Whether the sidebar shows a remote's server whose banner moves.
pub open spec fn banner_moves(m: ModelView) -> bool {
    m.ui_settings.sidebar_host.animation == HostBannerAnimation::Animated && exists|i: int|
        0 <= i < visible_of(m).len() && (#[trigger] visible_of(m)[i]).role == ServerRole::Secondary
}

/// The banner of a host: it stands above the first of the host's rows.
#[derive(Debug, PartialEq, Eq)]
pub struct HostBanner {
    /// Which workspace row it stands above.
    pub row: usize,
    pub display_name: String,
}

/// A banner as a mathematical value.
#[verifier::ext_equal]
pub struct HostBannerView {
    pub row: nat,
    pub display_name: Seq<char>,
}

impl DeepView for HostBanner {
    type V = HostBannerView;

    open spec fn deep_view(&self) -> HostBannerView {
        HostBannerView { row: self.row as nat, display_name: self.display_name@ }
    }
}

/// The banners of the first `n` servers: one for each remote's.
pub open spec fn banners_above(servers: Seq<ServerView>, all_shown: bool, n: int) -> Seq<
    HostBannerView,
>
    decreases n,
{
    if n <= 0 {
        Seq::empty()
    } else {
        let before = banners_above(servers, all_shown, n - 1);
        if servers[n - 1].role == ServerRole::Secondary {
            before.push(
                HostBannerView {
                    row: flat(
                        servers.take(n - 1),
                        |s: ServerView| rows_of_server(s, all_shown),
                    ).len(),
                    display_name: servers[n - 1].display_name,
                },
            )
        } else {
            before
        }
    }
}

/// The banners of the sidebar.
pub open spec fn host_banners_of(m: ModelView) -> Seq<HostBannerView> {
    banners_above(visible_of(m), m.filter is None, visible_of(m).len() as int)
}

fn workspace_label(server: &ManagedServer, label: &str, all_shown: bool) -> (r: String)
    ensures
        r@ == workspace_label_of(server.deep_view(), label@, all_shown),
{
    if all_shown && server.role == ServerRole::Secondary {
        let mut line: String = server.display_name.clone();
        line.append(" ");
        line.append(label);
        line
    } else {
        label.to_owned()
    }
}

fn unavailable_row_label(server: &ManagedServer) -> (r: String)
    ensures
        r@ == unavailable_label_of(server.deep_view()),
{
    let mut line: String = server.display_name.clone();
    match server.connection_state {
        ConnectionState::Connecting => {
            line.append(" connecting");
        },
        ConnectionState::Disconnected => {
            line.append(" offline");
        },
        ConnectionState::ProtocolMismatch { server_protocol, client_protocol } => {
            line.append(" protocol mismatch");
        },
        ConnectionState::Connected => {},
    }
    line
}

fn placeholder(server: &ManagedServer, label: String) -> (r: WorkspaceSidebarRow)
    ensures
        r.deep_view() == placeholder_row(server.deep_view(), label@),
{
    WorkspaceSidebarRow {
        server_id: server.id.clone(),
        workspace_id: None,
        label,
        branch: None,
        focused: false,
        disabled: true,
    }
}

/// Adds the rows of a server.
fn add_workspace_rows(rows: &mut Vec<WorkspaceSidebarRow>, server: &ManagedServer, all_shown: bool)
    ensures
        final(rows).deep_view() == old(rows).deep_view() + rows_of_server(
            server.deep_view(),
            all_shown,
        ),
{
    let ghost start = rows.deep_view();
    let ghost view = server.deep_view();
    let ghost workspaces = view.summaries.workspaces;
    assert(workspaces.len() == server.summaries.workspaces@.len());
    if server.summaries.workspaces.len() == 0 {
        if !server.connection_state.is_connected() {
            let row: WorkspaceSidebarRow = placeholder(server, unavailable_row_label(server));
            rows.push(row);
            assert(rows.deep_view() =~= start + seq![row.deep_view()]);
            return;
        }
        if server.role == ServerRole::Secondary {
            let mut label: String = server.display_name.clone();
            label.append(" no workspaces");
            let row: WorkspaceSidebarRow = placeholder(server, label);
            rows.push(row);
            assert(rows.deep_view() =~= start + seq![row.deep_view()]);
            return;
        }
    }
    let ghost f = |w: WorkspaceView| workspace_row(view, w, all_shown);
    let mut i: usize = 0;
    assert(start + workspaces.take(0).map_values(f) =~= start);
    while i < server.summaries.workspaces.len()
        invariant
            i <= server.summaries.workspaces@.len(),
            view == server.deep_view(),
            workspaces == view.summaries.workspaces,
            f == (|w: WorkspaceView| workspace_row(view, w, all_shown)),
            rows.deep_view() =~= start + workspaces.take(i as int).map_values(f),
        decreases server.summaries.workspaces@.len() - i,
    {
        let ghost before = rows.deep_view();
        let workspace: &WorkspaceSummary = &server.summaries.workspaces[i];
        assert(workspaces[i as int] == workspace.deep_view());
        let row: WorkspaceSidebarRow = WorkspaceSidebarRow {
            server_id: server.id.clone(),
            workspace_id: Some(workspace.workspace_id.clone()),
            label: workspace_label(server, workspace.label.as_str(), all_shown),
            branch: text::clone_option(&workspace.branch),
            focused: workspace.focused,
            disabled: !server.connection_state.is_connected(),
        };
        rows.push(row);
        assert(rows.deep_view() =~= before.push(row.deep_view()));
        i = i + 1;
    }
    assert(workspaces.take(i as int) =~= workspaces);
}

/// The rows of the agents of a workspace.
fn agent_rows_for(agents: &Vec<AgentSummary>, workspace_id: &String) -> (r: Vec<AgentSidebarRow>)
    ensures
        r.deep_view() == agent_rows(agents.deep_view(), workspace_id@),
{
    let ghost all = agents.deep_view();
    let ghost f = |a: AgentView| agent_row(a, workspace_id@);
    let mut rows: Vec<AgentSidebarRow> = Vec::new();
    let mut i: usize = 0;
    assert(rows.deep_view() =~= pick(all.take(0), f));
    while i < agents.len()
        invariant
            i <= agents@.len(),
            all == agents.deep_view(),
            f == (|a: AgentView| agent_row(a, workspace_id@)),
            rows.deep_view() =~= pick(all.take(i as int), f),
        decreases agents@.len() - i,
    {
        let ghost before = rows.deep_view();
        let agent: &AgentSummary = &agents[i];
        assert(all[i as int] == agent.deep_view());
        proof {
            lemma_pick_step(all, i as int, f);
        }
        if agent.workspace_id == *workspace_id {
            let row: AgentSidebarRow = AgentSidebarRow {
                agent_id: agent.agent_id.clone(),
                label: agent.label.clone(),
                status: agent.status.clone(),
                focused: agent.focused,
            };
            rows.push(row);
            assert(rows.deep_view() =~= before.push(row.deep_view()));
        }
        i = i + 1;
    }
    assert(all.take(i as int) =~= all);
    rows
}

/// Whether one of the agents has the focus.
fn has_focus(agents: &Vec<AgentSidebarRow>) -> (r: bool)
    ensures
        r == any_focused(agents.deep_view()),
{
    let ghost all = agents.deep_view();
    let mut i: usize = 0;
    while i < agents.len()
        invariant
            i <= agents@.len(),
            all == agents.deep_view(),
            forall|k: int| 0 <= k < i ==> !(#[trigger] all[k]).focused,
        decreases agents@.len() - i,
    {
        assert(all[i as int] == agents@[i as int].deep_view());
        if agents[i].focused {
            return true;
        }
        i = i + 1;
    }
    false
}

/// Adds the agent groups of a server.
fn add_agent_groups(groups: &mut Vec<AgentSidebarGroup>, server: &ManagedServer, all_shown: bool)
    ensures
        final(groups).deep_view() == old(groups).deep_view() + groups_of_server(
            server.deep_view(),
            all_shown,
        ),
{
    let ghost start = groups.deep_view();
    let ghost view = server.deep_view();
    if !server.connection_state.is_connected() {
        assert(start + Seq::<GroupView>::empty() =~= start);
        return;
    }
    let ghost workspaces = view.summaries.workspaces;
    let ghost f = |w: WorkspaceView| group_of(view, w, all_shown);
    let mut i: usize = 0;
    assert(start + pick(workspaces.take(0), f) =~= start);
    while i < server.summaries.workspaces.len()
        invariant
            i <= server.summaries.workspaces@.len(),
            view == server.deep_view(),
            workspaces == view.summaries.workspaces,
            f == (|w: WorkspaceView| group_of(view, w, all_shown)),
            groups.deep_view() =~= start + pick(workspaces.take(i as int), f),
        decreases server.summaries.workspaces@.len() - i,
    {
        let ghost before = groups.deep_view();
        let workspace: &WorkspaceSummary = &server.summaries.workspaces[i];
        assert(workspaces[i as int] == workspace.deep_view());
        proof {
            lemma_pick_step(workspaces, i as int, f);
        }
        let agents: Vec<AgentSidebarRow> = agent_rows_for(
            &server.summaries.agents,
            &workspace.workspace_id,
        );
        assert(agents.deep_view().len() == agents@.len());
        if agents.len() > 0 {
            let focused: bool = workspace.focused || has_focus(&agents);
            let group: AgentSidebarGroup = AgentSidebarGroup {
                server_id: server.id.clone(),
                workspace_id: workspace.workspace_id.clone(),
                label: workspace_label(server, workspace.label.as_str(), all_shown),
                focused,
                agents,
            };
            groups.push(group);
            assert(groups.deep_view() =~= before.push(group.deep_view()));
        }
        i = i + 1;
    }
    assert(workspaces.take(i as int) =~= workspaces);
}

impl ClientSupervisorModel {
    /// The servers that the filter shows, as places in the list.
    fn visible_indices(&self) -> (r: Vec<usize>)
        ensures
            forall|k: int| 0 <= k < r@.len() ==> (#[trigger] r@[k]) < self@.servers.len(),
            r@.len() == visible_of(self@).len(),
            forall|k: int|
                0 <= k < r@.len() ==> visible_of(self@)[k] == self@.servers[#[trigger] r@[k] as int],
    {
        let mut places: Vec<usize> = Vec::new();
        match &self.filter {
            ServerFilter::All => {
                let mut i: usize = 0;
                while i < self.servers.len()
                    invariant
                        i <= self.servers@.len(),
                        places@.len() == i,
                        forall|k: int| 0 <= k < i ==> #[trigger] places@[k] == k,
                    decreases self.servers@.len() - i,
                {
                    places.push(i);
                    i = i + 1;
                }
            },
            ServerFilter::Server(id) => match self.index_of(id) {
                Some(i) => {
                    places.push(i);
                },
                None => {},
            },
        }
        places
    }

    /// Whether all servers are shown.
    fn shows_all(&self) -> (r: bool)
        ensures
            r == (self@.filter is None),
    {
        match &self.filter {
            ServerFilter::All => true,
            ServerFilter::Server(_) => false,
        }
    }

    /// The workspace rows of the sidebar.
    pub fn workspace_rows(&self) -> (r: Vec<WorkspaceSidebarRow>)
        ensures
            r.deep_view() == workspace_rows_of(self@),
    {
        let all_shown: bool = self.shows_all();
        let places: Vec<usize> = self.visible_indices();
        let ghost visible = visible_of(self@);
        let ghost f = |s: ServerView| rows_of_server(s, self@.filter is None);
        let mut rows: Vec<WorkspaceSidebarRow> = Vec::new();
        let mut k: usize = 0;
        assert(rows.deep_view() =~= flat(visible.take(0), f));
        while k < places.len()
            invariant
                k <= places@.len(),
                places@.len() == visible.len(),
                all_shown == (self@.filter is None),
                f == (|s: ServerView| rows_of_server(s, self@.filter is None)),
                self@.servers.len() == self.servers@.len(),
                forall|j: int|
                    0 <= j < places@.len() ==> (#[trigger] places@[j]) < self@.servers.len(),
                forall|j: int|
                    0 <= j < places@.len() ==> visible[j]
                        == self@.servers[#[trigger] places@[j] as int],
                rows.deep_view() =~= flat(visible.take(k as int), f),
            decreases places@.len() - k,
        {
            let server: &ManagedServer = &self.servers[places[k]];
            assert(visible[k as int] == server.deep_view());
            proof {
                lemma_flat_step(visible, k as int, f);
            }
            add_workspace_rows(&mut rows, server, all_shown);
            k = k + 1;
        }
        assert(visible.take(k as int) =~= visible);
        rows
    }

    /// The banners of the sidebar: one for each remote's server that is shown, in the order of the
    /// servers.
    pub fn host_banner_specs(&self) -> (r: Vec<HostBanner>)
        ensures
            r.deep_view() == host_banners_of(self@),
    {
        let all_shown: bool = self.shows_all();
        let places: Vec<usize> = self.visible_indices();
        let ghost visible = visible_of(self@);
        let ghost f = |s: ServerView| rows_of_server(s, all_shown);
        let mut rows: Vec<WorkspaceSidebarRow> = Vec::new();
        let mut banners: Vec<HostBanner> = Vec::new();
        let mut k: usize = 0;
        assert(rows.deep_view() =~= flat(visible.take(0), f));
        assert(banners.deep_view() =~= Seq::<HostBannerView>::empty());
        while k < places.len()
            invariant
                k <= places@.len(),
                places@.len() == visible.len(),
                all_shown == (self@.filter is None),
                f == (|s: ServerView| rows_of_server(s, all_shown)),
                self@.servers.len() == self.servers@.len(),
                forall|j: int|
                    0 <= j < places@.len() ==> (#[trigger] places@[j]) < self@.servers.len(),
                forall|j: int|
                    0 <= j < places@.len() ==> visible[j]
                        == self@.servers[#[trigger] places@[j] as int],
                rows.deep_view() =~= flat(visible.take(k as int), f),
                banners.deep_view() =~= banners_above(visible, all_shown, k as int),
            decreases places@.len() - k,
        {
            let server: &ManagedServer = &self.servers[places[k]];
            assert(visible[k as int] == server.deep_view());
            let ghost before = banners.deep_view();
            if server.role == ServerRole::Secondary {
                assert(rows.deep_view().len() == rows@.len());
                let banner: HostBanner = HostBanner {
                    row: rows.len(),
                    display_name: server.display_name.clone(),
                };
                banners.push(banner);
                assert(banners.deep_view() =~= before.push(banner.deep_view()));
            }
            proof {
                lemma_flat_step(visible, k as int, f);
            }
            add_workspace_rows(&mut rows, server, all_shown);
            k = k + 1;
        }
        banners
    }

    /// Whether the sidebar shows a banner.
    pub fn host_banner_active(&self) -> (r: bool)
        ensures
            r == (host_banners_of(self@).len() > 0),
    {
        let banners: Vec<HostBanner> = self.host_banner_specs();
        assert(banners.deep_view().len() == banners@.len());
        banners.len() > 0
    }

    /// The agent groups of the sidebar.
    pub fn agent_groups(&self) -> (r: Vec<AgentSidebarGroup>)
        ensures
            r.deep_view() == agent_groups_of(self@),
    {
        let all_shown: bool = self.shows_all();
        let places: Vec<usize> = self.visible_indices();
        let ghost visible = visible_of(self@);
        let ghost f = |s: ServerView| groups_of_server(s, self@.filter is None);
        let mut groups: Vec<AgentSidebarGroup> = Vec::new();
        let mut k: usize = 0;
        assert(groups.deep_view() =~= flat(visible.take(0), f));
        while k < places.len()
            invariant
                k <= places@.len(),
                places@.len() == visible.len(),
                all_shown == (self@.filter is None),
                f == (|s: ServerView| groups_of_server(s, self@.filter is None)),
                self@.servers.len() == self.servers@.len(),
                forall|j: int|
                    0 <= j < places@.len() ==> (#[trigger] places@[j]) < self@.servers.len(),
                forall|j: int|
                    0 <= j < places@.len() ==> visible[j]
                        == self@.servers[#[trigger] places@[j] as int],
                groups.deep_view() =~= flat(visible.take(k as int), f),
            decreases places@.len() - k,
        {
            let server: &ManagedServer = &self.servers[places[k]];
            assert(visible[k as int] == server.deep_view());
            proof {
                lemma_flat_step(visible, k as int, f);
            }
            add_agent_groups(&mut groups, server, all_shown);
            k = k + 1;
        }
        assert(visible.take(k as int) =~= visible);
        groups
    }

    /// Whether the sidebar shows a remote's server whose banner moves.
    pub fn host_banner_animation_active(&self) -> (r: bool)
        ensures
            r == banner_moves(self@),
    {
        if self.ui_settings.sidebar_host.animation != HostBannerAnimation::Animated {
            return false;
        }
        let places: Vec<usize> = self.visible_indices();
        let ghost visible = visible_of(self@);
        let mut k: usize = 0;
        while k < places.len()
            invariant
                k <= places@.len(),
                visible == visible_of(self@),
                self@.ui_settings.sidebar_host.animation == HostBannerAnimation::Animated,
                places@.len() == visible.len(),
                self@.servers.len() == self.servers@.len(),
                forall|j: int|
                    0 <= j < places@.len() ==> (#[trigger] places@[j]) < self@.servers.len(),
                forall|j: int|
                    0 <= j < places@.len() ==> visible[j]
                        == self@.servers[#[trigger] places@[j] as int],
                forall|j: int| 0 <= j < k ==> (#[trigger] visible[j]).role != ServerRole::Secondary,
            decreases places@.len() - k,
        {
            let server: &ManagedServer = &self.servers[places[k]];
            assert(visible[k as int] == server.deep_view());
            if server.role == ServerRole::Secondary {
                return true;
            }
            k = k + 1;
        }
        false
    }
}

} // verus!
