//! Where requests go: new workspaces, focus changes, and the connections to be made.

use vstd::prelude::*;

use crate::api::{AgentTarget, Method, Request, WorkspaceCreateParams, WorkspaceTarget};
use crate::remote_registry::RemoteKeybindingsSnapshot;
use crate::seqs::{lemma_pick_step, pick};
use crate::servers::{
    main_id, summary_with_focus, workspace_of_agent, ConnectionState, ConnectionView,
    ManagedServer, ServerConnectionTarget, ServerFilter, ServerId, ServerRole, ServerSummary,
    ServerView, SummaryView,
};
use crate::supervisor::{
    clone_destinations, connected_of, fetch_views, fetches_applied, find_destination, has_server,
    index_of_server, picker_closed, picker_reconciled, server_named, ClientOverlayState,
    ClientSupervisorModel, DestinationView, FetchView, ModelView, NewWorkspacePicker, OverlayView,
    PickerView, ServerDestination,
};
use crate::text;

verus! {

/// A connection to the server of a remote.
#[derive(Debug, PartialEq, Eq)]
pub struct SecondaryConnectionPlan {
    pub server_id: ServerId,
    pub display_name: String,
    pub target: ServerConnectionTarget,
    pub keybindings: RemoteKeybindingsSnapshot,
}

/// A connection as a mathematical value.
#[verifier::ext_equal]
pub struct PlanView {
    pub server_id: Seq<char>,
    pub display_name: Seq<char>,
    pub target: ConnectionView,
    pub keybindings: RemoteKeybindingsSnapshot,
}

impl DeepView for SecondaryConnectionPlan {
    type V = PlanView;

    open spec fn deep_view(&self) -> PlanView {
        PlanView {
            server_id: self.server_id@,
            display_name: self.display_name@,
            target: self.target.deep_view(),
            keybindings: self.keybindings,
        }
    }
}

/// A server whose summary is followed.
#[derive(Debug, PartialEq, Eq)]
pub struct SummarySubscriptionPlan {
    pub server_id: ServerId,
    pub target: ServerConnectionTarget,
}

impl DeepView for SummarySubscriptionPlan {
    type V = (Seq<char>, ConnectionView);

    open spec fn deep_view(&self) -> (Seq<char>, ConnectionView) {
        (self.server_id@, self.target.deep_view())
    }
}

/// Where a new workspace is created.
#[derive(Debug, PartialEq, Eq)]
pub enum NewWorkspaceRoute {
    CreateOn(ServerId),
    PickDestination(Vec<ServerDestination>),
    Unavailable { server_id: ServerId, reason: String },
}

/// A route for a new workspace as a mathematical value.
#[verifier::ext_equal]
pub enum NewWorkspaceView {
    CreateOn { server_id: Seq<char> },
    PickDestination { destinations: Seq<DestinationView> },
    Unavailable { server_id: Seq<char>, reason: Seq<char> },
}

impl DeepView for NewWorkspaceRoute {
    type V = NewWorkspaceView;

    open spec fn deep_view(&self) -> NewWorkspaceView {
        match self {
            NewWorkspaceRoute::CreateOn(server_id) => NewWorkspaceView::CreateOn {
                server_id: server_id@,
            },
            NewWorkspaceRoute::PickDestination(destinations) => NewWorkspaceView::PickDestination {
                destinations: destinations.deep_view(),
            },
            NewWorkspaceRoute::Unavailable { server_id, reason } => NewWorkspaceView::Unavailable {
                server_id: server_id@,
                reason: reason@,
            },
        }
    }
}

/// Whether a method creates a workspace, focused, with nothing else set.
pub open spec fn is_plain_create(method: Method) -> bool {
    method is WorkspaceCreate && {
        let params = method->WorkspaceCreate_0;
        params.cwd is None && params.focus && params.label is None
    }
}

impl NewWorkspaceRoute {
    /// The request that creates the workspace, and the server it goes to.
    pub fn api_request(&self, id: &str) -> (r: Option<(ServerId, Request)>)
        ensures
            match self.deep_view() {
                NewWorkspaceView::CreateOn { server_id } => r is Some && (r->0).0@ == server_id
                    && (r->0).1.id@ == id@ && is_plain_create((r->0).1.method),
                _ => r is None,
            },
    {
        match self {
            NewWorkspaceRoute::CreateOn(server_id) => Some(
                (
                    server_id.clone(),
                    Request {
                        id: id.to_owned(),
                        method: Method::WorkspaceCreate(
                            WorkspaceCreateParams { cwd: None, focus: true, label: None },
                        ),
                    },
                ),
            ),
            NewWorkspaceRoute::PickDestination(_) => None,
            NewWorkspaceRoute::Unavailable { server_id, reason } => None,
        }
    }
}

/// Where a focus change goes.
#[derive(Debug, PartialEq, Eq)]
pub enum FocusRoute {
    Workspace { server_id: ServerId, workspace_id: String },
    Agent { server_id: ServerId, target: String },
    Unavailable { server_id: ServerId, reason: String },
    NotFound,
}

/// A focus change as a mathematical value.
#[verifier::ext_equal]
pub enum FocusView {
    Workspace { server_id: Seq<char>, workspace_id: Seq<char> },
    Agent { server_id: Seq<char>, target: Seq<char> },
    Unavailable { server_id: Seq<char>, reason: Seq<char> },
    NotFound,
}

impl DeepView for FocusRoute {
    type V = FocusView;

    open spec fn deep_view(&self) -> FocusView {
        match self {
            FocusRoute::Workspace { server_id, workspace_id } => FocusView::Workspace {
                server_id: server_id@,
                workspace_id: workspace_id@,
            },
            FocusRoute::Agent { server_id, target } => FocusView::Agent {
                server_id: server_id@,
                target: target@,
            },
            FocusRoute::Unavailable { server_id, reason } => FocusView::Unavailable {
                server_id: server_id@,
                reason: reason@,
            },
            FocusRoute::NotFound => FocusView::NotFound,
        }
    }
}

impl FocusRoute {
    /// The request that changes the focus.
    pub fn api_request(&self, id: &str) -> (r: Option<Request>)
        ensures
            match self.deep_view() {
                FocusView::Workspace { server_id, workspace_id } => r is Some && r->0.id@ == id@
                    && r->0.method is WorkspaceFocus
                    && r->0.method->WorkspaceFocus_0.workspace_id@ == workspace_id,
                FocusView::Agent { server_id, target } => r is Some && r->0.id@ == id@
                    && r->0.method is AgentFocus && r->0.method->AgentFocus_0.target@ == target,
                _ => r is None,
            },
    {
        match self {
            FocusRoute::Workspace { server_id, workspace_id } => Some(
                Request {
                    id: id.to_owned(),
                    method: Method::WorkspaceFocus(
                        WorkspaceTarget { workspace_id: workspace_id.clone() },
                    ),
                },
            ),
            FocusRoute::Agent { server_id, target } => Some(
                Request {
                    id: id.to_owned(),
                    method: Method::AgentFocus(AgentTarget { target: target.clone() }),
                },
            ),
            FocusRoute::Unavailable { server_id, reason } => None,
            FocusRoute::NotFound => None,
        }
    }
}

/// Why a server with this connection cannot be used.
pub open spec fn unavailable_reason_of(state: ConnectionState) -> Seq<char> {
    match state {
        ConnectionState::Connecting => "server connecting"@,
        ConnectionState::Connected => "server connected"@,
        ConnectionState::Disconnected => "server disconnected"@,
        ConnectionState::ProtocolMismatch { server_protocol, client_protocol } =>
            "protocol mismatch"@,
    }
}

/// Why a server with this connection cannot be used.
fn unavailable_reason(state: &ConnectionState) -> (r: &'static str)
    ensures
        r@ == unavailable_reason_of(*state),
{
    match state {
        ConnectionState::Connecting => "server connecting",
        ConnectionState::Connected => "server connected",
        ConnectionState::Disconnected => "server disconnected",
        ConnectionState::ProtocolMismatch { server_protocol, client_protocol } =>
            "protocol mismatch",
    }
}

/// In which turn a target is visited: local sessions, then ssh.
pub open spec fn target_rank(target: ConnectionView) -> int {
    match target {
        ConnectionView::LocalSession(_) => 0,
        ConnectionView::Ssh(_) => 1,
        ConnectionView::Main => 2,
    }
}

fn connection_target_rank(target: &ServerConnectionTarget) -> (r: u8)
    ensures
        r == target_rank(target.deep_view()),
{
    match target {
        ServerConnectionTarget::LocalSession(_) => 0,
        ServerConnectionTarget::Ssh(_) => 1,
        ServerConnectionTarget::Main => 2,
    }
}

/// The plan for a remote's server that is visited in this turn. A remote that is switched off is
/// not visited.
pub open spec fn plan_in_turn(server: ServerView, turn: int) -> Option<PlanView> {
    if server.role == ServerRole::Secondary && !server.disabled && target_rank(server.target)
        == turn {
        Some(
            PlanView {
                server_id: server.id,
                display_name: server.display_name,
                target: server.target,
                keybindings: server.keybindings,
            },
        )
    } else {
        None
    }
}

/// The plans of one turn, in the order of the servers.
pub open spec fn plans_in_turn(servers: Seq<ServerView>, turn: int) -> Seq<PlanView> {
    pick(servers, |s: ServerView| plan_in_turn(s, turn))
}

/// The connections to the remotes' servers: local sessions first, otherwise in order.
pub open spec fn plans_of(servers: Seq<ServerView>) -> Seq<PlanView> {
    plans_in_turn(servers, 0) + plans_in_turn(servers, 1) + plans_in_turn(servers, 2)
}

/// The subscription to a server, where it is connected.
pub open spec fn subscription_of(server: ServerView) -> Option<(Seq<char>, ConnectionView)> {
    if server.connection_state is Connected {
        Some((server.id, server.target))
    } else {
        None
    }
}

/// A remote's server that is not connected yet, or no longer.
pub open spec fn unconnected_id(server: ServerView) -> Option<Seq<char>> {
    if server.role == ServerRole::Secondary && !server.disabled && (
    server.connection_state is Connecting || server.connection_state is Disconnected) {
        Some(server.id)
    } else {
        None
    }
}

/// A remote's server to which there is no stream, though its protocol allows one.
pub open spec fn streamless_id(server: ServerView, streams: Seq<Seq<char>>) -> Option<Seq<char>> {
    if server.role == ServerRole::Secondary && !server.disabled && !streams.contains(server.id)
        && !(server.connection_state is ProtocolMismatch) {
        Some(server.id)
    } else {
        None
    }
}

/// The route to one server.
pub open spec fn route_to(servers: Seq<ServerView>, id: Seq<char>) -> NewWorkspaceView {
    match server_named(servers, id) {
        Some(server) => if server.connection_state is Connected {
            NewWorkspaceView::CreateOn { server_id: id }
        } else {
            NewWorkspaceView::Unavailable {
                server_id: id,
                reason: unavailable_reason_of(server.connection_state),
            }
        },
        None => NewWorkspaceView::Unavailable { server_id: id, reason: "server unavailable"@ },
    }
}

/// Where a new workspace is created: on the server that is shown; with all shown, on the only
/// connected server, or where the user picks.
pub open spec fn new_workspace_route_of(m: ModelView) -> NewWorkspaceView {
    match m.filter {
        Some(id) => route_to(m.servers, id),
        None => {
            let connected = connected_of(m.servers);
            if connected.len() > 1 {
                NewWorkspaceView::PickDestination { destinations: connected }
            } else if connected.len() == 1 {
                NewWorkspaceView::CreateOn { server_id: connected[0].server_id }
            } else {
                NewWorkspaceView::Unavailable {
                    server_id: main_id(),
                    reason: "server disconnected"@,
                }
            }
        },
    }
}

/// The model after the user asked for a new workspace.
pub open spec fn picker_opened(m: ModelView) -> ModelView {
    let route = new_workspace_route_of(m);
    ModelView {
        overlay: OverlayView::Closed,
        picker: match route {
            NewWorkspaceView::PickDestination { destinations } => Some(
                PickerView { destinations, selected: 0 },
            ),
            _ => None,
        },
        active: match route {
            NewWorkspaceView::CreateOn { server_id } => server_id,
            _ => m.active,
        },
        ..m
    }
}

/// Whether the picker shows a server.
pub open spec fn picker_shows(m: ModelView, id: Seq<char>) -> bool {
    m.picker is Some && crate::supervisor::destination_named(m.picker->0.destinations, id) is Some
}

/// The server in the selected row of the picker.
pub open spec fn selected_destination(m: ModelView) -> Option<Seq<char>> {
    match m.picker {
        Some(p) => if p.selected < p.destinations.len() {
            Some(p.destinations[p.selected as int].server_id)
        } else {
            None
        },
        None => None,
    }
}

/// Where the workspace goes when a server is chosen in the picker.
pub open spec fn chosen_route(m: ModelView, id: Seq<char>) -> NewWorkspaceView {
    if picker_shows(m, id) {
        route_to(m.servers, id)
    } else {
        NewWorkspaceView::Unavailable { server_id: id, reason: "server unavailable"@ }
    }
}

/// The model after a server was chosen in the picker.
pub open spec fn destination_chosen(m: ModelView, id: Seq<char>) -> ModelView {
    ModelView {
        active: if chosen_route(m, id) is CreateOn {
            id
        } else {
            m.active
        },
        ..picker_closed(m)
    }
}

/// Whether a summary tells of this workspace.
pub open spec fn knows_workspace(summary: SummaryView, workspace_id: Seq<char>) -> bool {
    exists|i: int|
        0 <= i < summary.workspaces.len() && (#[trigger] summary.workspaces[i]).workspace_id
            == workspace_id
}

/// Whether a summary tells of this agent.
pub open spec fn knows_agent(summary: SummaryView, agent_id: Seq<char>) -> bool {
    exists|i: int|
        0 <= i < summary.agents.len() && (#[trigger] summary.agents[i]).agent_id == agent_id
}

/// Where a focus on a workspace goes. An owner that is not connected does not pass it on.
pub open spec fn workspace_focus_of(
    m: ModelView,
    server_id: Seq<char>,
    workspace_id: Seq<char>,
) -> FocusView {
    match server_named(m.servers, server_id) {
        None => FocusView::NotFound,
        Some(server) => if !(server.connection_state is Connected) {
            FocusView::Unavailable {
                server_id,
                reason: unavailable_reason_of(server.connection_state),
            }
        } else if !knows_workspace(server.summaries, workspace_id) {
            FocusView::NotFound
        } else {
            FocusView::Workspace { server_id, workspace_id }
        },
    }
}

/// Where a focus on an agent goes.
pub open spec fn agent_focus_of(
    m: ModelView,
    server_id: Seq<char>,
    agent_id: Seq<char>,
) -> FocusView {
    match server_named(m.servers, server_id) {
        None => FocusView::NotFound,
        Some(server) => if !(server.connection_state is Connected) {
            FocusView::Unavailable {
                server_id,
                reason: unavailable_reason_of(server.connection_state),
            }
        } else if !knows_agent(server.summaries, agent_id) {
            FocusView::NotFound
        } else {
            FocusView::Agent { server_id, target: agent_id }
        },
    }
}

/// The model after a focus change. Where it goes to a server, that server is active, and what is
/// known of it is at once what it will tell once it has moved the focus.
pub open spec fn focused(m: ModelView, route: FocusView, server_id: Seq<char>) -> ModelView {
    match index_of_server(m.servers, server_id) {
        None => m,
        Some(i) => match route {
            FocusView::Workspace { server_id: owner, workspace_id } => focus_moved(
                m,
                i,
                server_id,
                workspace_id,
                None,
            ),
            FocusView::Agent { server_id: owner, target } => focus_moved(
                m,
                i,
                server_id,
                workspace_of_agent(m.servers[i].summaries.agents, target),
                Some(target),
            ),
            _ => m,
        },
    }
}

/// The model after the focus went to a workspace, or an agent in it, of the server at a place.
pub open spec fn focus_moved(
    m: ModelView,
    i: int,
    server_id: Seq<char>,
    workspace_id: Seq<char>,
    agent_id: Option<Seq<char>>,
) -> ModelView {
    ModelView {
        servers: m.servers.update(
            i,
            ServerView {
                summaries: summary_with_focus(m.servers[i].summaries, workspace_id, agent_id),
                ..m.servers[i]
            },
        ),
        active: server_id,
        ..picker_closed(m)
    }
}

/// A row of results for the plans, in their order.
pub open spec fn results_for(
    plans: Seq<PlanView>,
    results: Seq<(Seq<char>, FetchView)>,
) -> bool {
    &&& results.len() == plans.len()
    &&& forall|k: int|
        0 <= k < plans.len() ==> (#[trigger] results[k]).0 == plans[k].server_id
}

/// Whether `fetch` may have come to this result for a plan.
pub open spec fn fetched_with<F>(
    fetch: F,
    plan: PlanView,
    result: Result<ServerSummary, ConnectionState>,
) -> bool where F: Fn(&SecondaryConnectionPlan) -> Result<ServerSummary, ConnectionState> {
    exists|p: &SecondaryConnectionPlan|
        p.deep_view() == plan && #[trigger] call_ensures(fetch, (p,), result)
}

impl ClientSupervisorModel {
    fn add_plans_in_turn(&self, plans: &mut Vec<SecondaryConnectionPlan>, turn: u8)
        ensures
            final(plans).deep_view() == old(plans).deep_view() + plans_in_turn(
                self@.servers,
                turn as int,
            ),
    {
        let ghost servers = self@.servers;
        let ghost start = plans.deep_view();
        let ghost f = |s: ServerView| plan_in_turn(s, turn as int);
        let mut i: usize = 0;
        assert(start + pick(servers.take(0), f) =~= start);
        while i < self.servers.len()
            invariant
                i <= self.servers@.len(),
                servers == self@.servers,
                f == (|s: ServerView| plan_in_turn(s, turn as int)),
                plans.deep_view() =~= start + pick(servers.take(i as int), f),
            decreases self.servers@.len() - i,
        {
            let ghost before = plans.deep_view();
            let server: &ManagedServer = &self.servers[i];
            assert(servers[i as int] == server.deep_view());
            proof {
                lemma_pick_step(servers, i as int, f);
            }
            if server.role == ServerRole::Secondary && !server.disabled && connection_target_rank(
                &server.target,
            ) == turn {
                let plan: SecondaryConnectionPlan = SecondaryConnectionPlan {
                    server_id: server.id.clone(),
                    display_name: server.display_name.clone(),
                    target: server.target.clone(),
                    keybindings: server.keybindings,
                };
                plans.push(plan);
                assert(plans.deep_view() =~= before.push(plan.deep_view()));
            }
            i = i + 1;
        }
        assert(servers.take(i as int) =~= servers);
    }

    /// The connections to the remotes' servers: local sessions first, otherwise in order.
    pub fn secondary_connection_plans(&self) -> (r: Vec<SecondaryConnectionPlan>)
        ensures
            r.deep_view() == plans_of(self@.servers),
    {
        let mut plans: Vec<SecondaryConnectionPlan> = Vec::new();
        assert(plans.deep_view() =~= Seq::<PlanView>::empty());
        self.add_plans_in_turn(&mut plans, 0);
        self.add_plans_in_turn(&mut plans, 1);
        self.add_plans_in_turn(&mut plans, 2);
        assert(plans.deep_view() =~= plans_of(self@.servers));
        plans
    }

    /// The connected servers, whose summaries are followed.
    pub fn summary_subscription_plans(&self) -> (r: Vec<SummarySubscriptionPlan>)
        ensures
            r.deep_view() == pick(self@.servers, |s: ServerView| subscription_of(s)),
    {
        let ghost servers = self@.servers;
        let ghost f = |s: ServerView| subscription_of(s);
        let mut plans: Vec<SummarySubscriptionPlan> = Vec::new();
        let mut i: usize = 0;
        assert(plans.deep_view() =~= pick(servers.take(0), f));
        while i < self.servers.len()
            invariant
                i <= self.servers@.len(),
                servers == self@.servers,
                f == (|s: ServerView| subscription_of(s)),
                plans.deep_view() =~= pick(servers.take(i as int), f),
            decreases self.servers@.len() - i,
        {
            let ghost before = plans.deep_view();
            let server: &ManagedServer = &self.servers[i];
            assert(servers[i as int] == server.deep_view());
            proof {
                lemma_pick_step(servers, i as int, f);
            }
            if server.connection_state.is_connected() {
                let plan: SummarySubscriptionPlan = SummarySubscriptionPlan {
                    server_id: server.id.clone(),
                    target: server.target.clone(),
                };
                plans.push(plan);
                assert(plans.deep_view() =~= before.push(plan.deep_view()));
            }
            i = i + 1;
        }
        assert(servers.take(i as int) =~= servers);
        plans
    }

    /// The ssh options with which a server is reached.
    pub fn server_ssh_args(&self, id: &ServerId) -> (r: Vec<String>)
        ensures
            r.deep_view() == (match server_named(self@.servers, id@) {
                Some(server) => server.ssh_args,
                None => Seq::empty(),
            }),
    {
        match self.server(id) {
            Some(server) => crate::text::clone_strings(&server.ssh_args),
            None => {
                let none: Vec<String> = Vec::new();
                assert(none.deep_view() =~= Seq::<Seq<char>>::empty());
                none
            },
        }
    }

    /// How a server is reached.
    pub fn server_connection_target(&self, id: &ServerId) -> (r: Option<ServerConnectionTarget>)
        ensures
            r.deep_view() == (match server_named(self@.servers, id@) {
                Some(server) => Some(server.target),
                None => None,
            }),
    {
        match self.server(id) {
            Some(server) => Some(server.target.clone()),
            None => None,
        }
    }

    /// The remotes' servers that are not connected yet, or no longer.
    pub fn unconnected_secondary_server_ids(&self) -> (r: Vec<ServerId>)
        ensures
            r.deep_view() == pick(self@.servers, |s: ServerView| unconnected_id(s)),
    {
        let ghost servers = self@.servers;
        let ghost f = |s: ServerView| unconnected_id(s);
        let mut ids: Vec<ServerId> = Vec::new();
        let mut i: usize = 0;
        assert(ids.deep_view() =~= pick(servers.take(0), f));
        while i < self.servers.len()
            invariant
                i <= self.servers@.len(),
                servers == self@.servers,
                f == (|s: ServerView| unconnected_id(s)),
                ids.deep_view() =~= pick(servers.take(i as int), f),
            decreases self.servers@.len() - i,
        {
            let ghost before = ids.deep_view();
            let server: &ManagedServer = &self.servers[i];
            assert(servers[i as int] == server.deep_view());
            proof {
                lemma_pick_step(servers, i as int, f);
            }
            let waiting: bool = match server.connection_state {
                ConnectionState::Connecting => true,
                ConnectionState::Disconnected => true,
                _ => false,
            };
            if server.role == ServerRole::Secondary && !server.disabled && waiting {
                let id: ServerId = server.id.clone();
                ids.push(id);
                assert(ids.deep_view() =~= before.push(id@));
            }
            i = i + 1;
        }
        assert(servers.take(i as int) =~= servers);
        ids
    }

    /// The remotes' servers to which there is no stream, though their protocol allows one.
    pub fn secondary_server_ids_missing_client_stream(
        &self,
        connected_streams: &Vec<ServerId>,
    ) -> (r: Vec<ServerId>)
        ensures
            r.deep_view() == pick(
                self@.servers,
                |s: ServerView| streamless_id(s, connected_streams.deep_view()),
            ),
    {
        let ghost servers = self@.servers;
        let ghost streams = connected_streams.deep_view();
        let ghost f = |s: ServerView| streamless_id(s, streams);
        let mut ids: Vec<ServerId> = Vec::new();
        let mut i: usize = 0;
        assert(ids.deep_view() =~= pick(servers.take(0), f));
        while i < self.servers.len()
            invariant
                i <= self.servers@.len(),
                servers == self@.servers,
                streams == connected_streams.deep_view(),
                f == (|s: ServerView| streamless_id(s, streams)),
                ids.deep_view() =~= pick(servers.take(i as int), f),
            decreases self.servers@.len() - i,
        {
            let ghost before = ids.deep_view();
            let server: &ManagedServer = &self.servers[i];
            assert(servers[i as int] == server.deep_view());
            proof {
                lemma_pick_step(servers, i as int, f);
            }
            let mismatch: bool = match server.connection_state {
                ConnectionState::ProtocolMismatch { server_protocol, client_protocol } => true,
                _ => false,
            };
            if server.role == ServerRole::Secondary && !server.disabled && !lists_id(
                connected_streams,
                &server.id,
            ) && !mismatch {
                let id: ServerId = server.id.clone();
                ids.push(id);
                assert(ids.deep_view() =~= before.push(id@));
            }
            i = i + 1;
        }
        assert(servers.take(i as int) =~= servers);
        ids
    }

    fn route_for_specific_server(&self, id: &ServerId) -> (r: NewWorkspaceRoute)
        ensures
            r.deep_view() == route_to(self@.servers, id@),
    {
        match self.server(id) {
            None => NewWorkspaceRoute::Unavailable {
                server_id: id.clone(),
                reason: "server unavailable".to_owned(),
            },
            Some(server) => {
                if server.connection_state.is_connected() {
                    NewWorkspaceRoute::CreateOn(id.clone())
                } else {
                    NewWorkspaceRoute::Unavailable {
                        server_id: id.clone(),
                        reason: unavailable_reason(&server.connection_state).to_owned(),
                    }
                }
            },
        }
    }

    /// Where a new workspace is created.
    pub fn new_workspace_route(&self) -> (r: NewWorkspaceRoute)
        ensures
            r.deep_view() == new_workspace_route_of(self@),
    {
        match &self.filter {
            ServerFilter::Server(id) => self.route_for_specific_server(id),
            ServerFilter::All => {
                let destinations: Vec<ServerDestination> = self.connected_destinations();
                assert(destinations.deep_view().len() == destinations@.len());
                if destinations.len() > 1 {
                    NewWorkspaceRoute::PickDestination(destinations)
                } else if destinations.len() == 1 {
                    NewWorkspaceRoute::CreateOn(destinations[0].server_id.clone())
                } else {
                    NewWorkspaceRoute::Unavailable {
                        server_id: ServerId::main(),
                        reason: "server disconnected".to_owned(),
                    }
                }
            },
        }
    }

    /// The destinations that the open picker shows.
    pub fn new_workspace_picker_destinations(&self) -> (r: Option<&Vec<ServerDestination>>)
        ensures
            match r {
                Some(d) => self@.picker is Some && d.deep_view() == self@.picker->0.destinations,
                None => self@.picker is None,
            },
    {
        match &self.picker {
            Some(picker) => Some(&picker.destinations),
            None => None,
        }
    }

    /// The open picker.
    pub fn new_workspace_picker(&self) -> (r: Option<&NewWorkspacePicker>)
        ensures
            match r {
                Some(p) => self@.picker == Some(p.deep_view()),
                None => self@.picker is None,
            },
    {
        match &self.picker {
            Some(picker) => Some(picker),
            None => None,
        }
    }

    /// Asks for a new workspace: opens the picker where there is a choice, else makes the server
    /// it goes to the active one.
    pub fn open_new_workspace_picker(&mut self) -> (r: NewWorkspaceRoute)
        ensures
            r.deep_view() == new_workspace_route_of(old(self)@),
            final(self)@ == picker_opened(old(self)@),
    {
        let route: NewWorkspaceRoute = self.new_workspace_route();
        self.client_overlay = ClientOverlayState::Closed;
        match &route {
            NewWorkspaceRoute::CreateOn(server_id) => {
                self.picker = None;
                self.active_server_id = server_id.clone();
            },
            NewWorkspaceRoute::PickDestination(destinations) => {
                let copy: Vec<ServerDestination> = clone_destinations(destinations);
                assert(copy.deep_view() =~= destinations.deep_view());
                self.picker = Some(NewWorkspacePicker { destinations: copy, selected: 0 });
            },
            NewWorkspaceRoute::Unavailable { server_id, reason } => {
                self.picker = None;
            },
        }
        route
    }

    /// Moves the selection of the open picker down, at most to its last row.
    pub fn move_new_workspace_picker_next(&mut self)
        ensures
            final(self)@ == (ModelView {
                picker: match old(self)@.picker {
                    Some(p) => Some(
                        PickerView {
                            selected: if p.selected + 1 < p.destinations.len() {
                                p.selected + 1
                            } else {
                                p.selected
                            },
                            ..p
                        },
                    ),
                    None => None,
                },
                ..old(self)@
            }),
    {
        if let Some(picker) = &mut self.picker {
            assert(picker.destinations.deep_view().len() == picker.destinations@.len());
            if picker.selected < picker.destinations.len() && picker.destinations.len()
                - picker.selected > 1 {
                picker.selected = picker.selected + 1;
            }
        }
    }

    /// Closes the picker.
    pub fn close_new_workspace_picker(&mut self)
        ensures
            final(self)@ == picker_closed(old(self)@),
    {
        self.picker = None;
    }

    /// Chooses the selected row of the picker.
    pub fn accept_new_workspace_picker(&mut self) -> (r: NewWorkspaceRoute)
        ensures
            match selected_destination(old(self)@) {
                Some(id) => r.deep_view() == chosen_route(old(self)@, id) && final(self)@
                    == destination_chosen(old(self)@, id),
                None => r.deep_view() == (NewWorkspaceView::Unavailable {
                    server_id: main_id(),
                    reason: "server unavailable"@,
                }) && final(self)@ == old(self)@,
            },
    {
        let selected: Option<ServerId> = match &self.picker {
            Some(picker) => {
                assert(picker.destinations.deep_view().len() == picker.destinations@.len());
                if picker.selected < picker.destinations.len() {
                    Some(picker.destinations[picker.selected].server_id.clone())
                } else {
                    None
                }
            },
            None => None,
        };
        match selected {
            Some(id) => self.choose_new_workspace_destination(&id),
            None => NewWorkspaceRoute::Unavailable {
                server_id: ServerId::main(),
                reason: "server unavailable".to_owned(),
            },
        }
    }

    /// Chooses a server in the picker, which closes.
    pub fn choose_new_workspace_destination(&mut self, server_id: &ServerId) -> (r:
        NewWorkspaceRoute)
        ensures
            r.deep_view() == chosen_route(old(self)@, server_id@),
            final(self)@ == destination_chosen(old(self)@, server_id@),
    {
        let visible: bool = match &self.picker {
            Some(picker) => find_destination(&picker.destinations, server_id).is_some(),
            None => false,
        };
        self.picker = None;
        if !visible {
            return NewWorkspaceRoute::Unavailable {
                server_id: server_id.clone(),
                reason: "server unavailable".to_owned(),
            };
        }
        let route: NewWorkspaceRoute = self.route_for_specific_server(server_id);
        let create: bool = match &route {
            NewWorkspaceRoute::CreateOn(_) => true,
            _ => false,
        };
        if create {
            self.active_server_id = server_id.clone();
        }
        route
    }

    /// Notes that the focus goes to a workspace, or an agent in it, of a server that is there.
    fn move_focus(&mut self, server_id: &ServerId, workspace_id: &str, agent_id: Option<&str>)
        requires
            has_server(old(self)@.servers, server_id@),
        ensures
            final(self)@ == focus_moved(
                old(self)@,
                index_of_server(old(self)@.servers, server_id@)->0,
                server_id@,
                workspace_id@,
                agent_id.deep_view(),
            ),
    {
        self.picker = None;
        self.active_server_id = server_id.clone();
        match self.index_of(server_id) {
            Some(i) => {
                let ghost before = self.servers.deep_view();
                let summaries: ServerSummary = self.servers[i].summaries.with_focus(
                    workspace_id,
                    agent_id,
                );
                let ghost view = summaries.deep_view();
                self.servers[i].summaries = summaries;
                assert(self.servers.deep_view() =~= before.update(
                    i as int,
                    ServerView { summaries: view, ..before[i as int] },
                ));
            },
            None => {},
        }
    }

    /// Focuses a workspace: its owner becomes active, if it is connected and tells of it.
    pub fn focus_workspace_route(&mut self, server_id: &ServerId, workspace_id: &str) -> (r:
        FocusRoute)
        ensures
            r.deep_view() == workspace_focus_of(old(self)@, server_id@, workspace_id@),
            final(self)@ == focused(old(self)@, r.deep_view(), server_id@),
    {
        match self.server(server_id) {
            None => {
                return FocusRoute::NotFound;
            },
            Some(server) => {
                if !server.connection_state.is_connected() {
                    return FocusRoute::Unavailable {
                        server_id: server_id.clone(),
                        reason: unavailable_reason(&server.connection_state).to_owned(),
                    };
                }
                if !tells_of_workspace(&server.summaries, workspace_id) {
                    return FocusRoute::NotFound;
                }
            },
        }
        self.move_focus(server_id, workspace_id, None);
        FocusRoute::Workspace {
            server_id: server_id.clone(),
            workspace_id: workspace_id.to_owned(),
        }
    }

    /// Focuses an agent: its owner becomes active, if it is connected and tells of it.
    pub fn focus_agent_route(&mut self, server_id: &ServerId, agent_id: &str) -> (r: FocusRoute)
        ensures
            r.deep_view() == agent_focus_of(old(self)@, server_id@, agent_id@),
            final(self)@ == focused(old(self)@, r.deep_view(), server_id@),
    {
        match self.server(server_id) {
            None => {
                return FocusRoute::NotFound;
            },
            Some(server) => {
                if !server.connection_state.is_connected() {
                    return FocusRoute::Unavailable {
                        server_id: server_id.clone(),
                        reason: unavailable_reason(&server.connection_state).to_owned(),
                    };
                }
                if !tells_of_agent(&server.summaries, agent_id) {
                    return FocusRoute::NotFound;
                }
            },
        }
        let workspace_id: String = match self.server(server_id) {
            Some(server) => server.summaries.workspace_of(agent_id),
            None => "".to_owned(),
        };
        self.move_focus(server_id, workspace_id.as_str(), Some(agent_id));
        FocusRoute::Agent { server_id: server_id.clone(), target: agent_id.to_owned() }
    }

    /// Fetches the summaries of all remotes' servers in the order of the plans, and takes them
    /// over.
    pub fn refresh_secondary_summaries<F>(&mut self, fetch: F) where
        F: Fn(&SecondaryConnectionPlan) -> Result<ServerSummary, ConnectionState>,

        requires
            forall|plan: &SecondaryConnectionPlan| #[trigger] call_requires(fetch, (plan,)),
        ensures
            exists|results: Seq<(ServerId, Result<ServerSummary, ConnectionState>)>| #[trigger]
                results_for(plans_of(old(self)@.servers), fetch_views(results)) && final(self)@
                    == picker_reconciled(
                    (ModelView {
                        servers: fetches_applied(old(self)@.servers, fetch_views(results)),
                        ..old(self)@
                    }),
                ) && forall|k: int|
                    0 <= k < results.len() ==> fetched_with(
                        fetch,
                        plans_of(old(self)@.servers)[k],
                        (#[trigger] results[k]).1,
                    ),
    {
        let plans: Vec<SecondaryConnectionPlan> = self.secondary_connection_plans();
        let ghost wanted = plans_of(self@.servers);
        let mut results: Vec<(ServerId, Result<ServerSummary, ConnectionState>)> = Vec::new();
        let mut i: usize = 0;
        while i < plans.len()
            invariant
                i <= plans@.len(),
                results@.len() == i,
                wanted == plans.deep_view(),
                forall|plan: &SecondaryConnectionPlan| #[trigger] call_requires(fetch, (plan,)),
                forall|k: int|
                    0 <= k < i ==> (#[trigger] results@[k]).0@ == plans@[k].server_id@,
                forall|k: int|
                    0 <= k < i ==> call_ensures(fetch, (&plans@[k],), (#[trigger] results@[k]).1),
            decreases plans@.len() - i,
        {
            let result: Result<ServerSummary, ConnectionState> = fetch(&plans[i]);
            results.push((plans[i].server_id.clone(), result));
            i = i + 1;
        }
        let ghost all = results@;
        proof {
            assert(results_for(wanted, fetch_views(all))) by {
                assert forall|k: int| 0 <= k < wanted.len() implies (#[trigger] fetch_views(
                    all,
                )[k]).0 == wanted[k].server_id by {
                    assert(fetch_views(all)[k] == fetch_view_at(all, k));
                    assert(wanted[k] == plans@[k].deep_view());
                }
            }
            assert forall|k: int| 0 <= k < all.len() implies fetched_with(
                fetch,
                wanted[k],
                (#[trigger] all[k]).1,
            ) by {
                let plan = &plans@[k];
                assert(plan.deep_view() == wanted[k]);
                assert(call_ensures(fetch, (plan,), all[k].1));
            }
        }
        self.apply_secondary_summary_results(results);
        assert(results_for(wanted, fetch_views(all)));
    }
}

spec fn fetch_view_at(
    results: Seq<(ServerId, Result<ServerSummary, ConnectionState>)>,
    k: int,
) -> (Seq<char>, FetchView) {
    crate::supervisor::fetch_view(results[k])
}

/// Whether an id is listed.
pub fn lists_id(ids: &Vec<ServerId>, id: &ServerId) -> (r: bool)
    ensures
        r == ids.deep_view().contains(id@),
{
    let ghost all = ids.deep_view();
    let mut i: usize = 0;
    while i < ids.len()
        invariant
            i <= ids@.len(),
            all == ids.deep_view(),
            forall|k: int| 0 <= k < i ==> #[trigger] all[k] != id@,
        decreases ids@.len() - i,
    {
        assert(all[i as int] == ids@[i as int]@);
        if ids[i].is(id) {
            return true;
        }
        i = i + 1;
    }
    false
}

fn tells_of_workspace(summary: &ServerSummary, workspace_id: &str) -> (r: bool)
    ensures
        r == knows_workspace(summary.deep_view(), workspace_id@),
{
    let ghost all = summary.deep_view().workspaces;
    let mut i: usize = 0;
    while i < summary.workspaces.len()
        invariant
            i <= summary.workspaces@.len(),
            all == summary.deep_view().workspaces,
            forall|k: int| 0 <= k < i ==> (#[trigger] all[k]).workspace_id != workspace_id@,
        decreases summary.workspaces@.len() - i,
    {
        assert(all[i as int] == summary.workspaces@[i as int].deep_view());
        if text::same(summary.workspaces[i].workspace_id.as_str(), workspace_id) {
            return true;
        }
        i = i + 1;
    }
    false
}

fn tells_of_agent(summary: &ServerSummary, agent_id: &str) -> (r: bool)
    ensures
        r == knows_agent(summary.deep_view(), agent_id@),
{
    let ghost all = summary.deep_view().agents;
    let mut i: usize = 0;
    while i < summary.agents.len()
        invariant
            i <= summary.agents@.len(),
            all == summary.deep_view().agents,
            forall|k: int| 0 <= k < i ==> (#[trigger] all[k]).agent_id != agent_id@,
        decreases summary.agents@.len() - i,
    {
        assert(all[i as int] == summary.agents@[i as int].deep_view());
        if text::same(summary.agents[i].agent_id.as_str(), agent_id) {
            return true;
        }
        i = i + 1;
    }
    false
}

} // verus!
