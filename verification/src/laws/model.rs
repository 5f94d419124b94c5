//! What becomes of the servers that the client knows: which can be reached, shown and asked, and
//! what a change of one leaves of the others.

use vstd::prelude::*;

use crate::api::default_ui_settings;
use crate::client::{
    api_target_of, bridge_to, client_socket_of, encoding_of, error_text, is_detach, main_name_of,
    state_after_error, ApiTargetView, BridgeView, ClientError, ClientSocketView,
};
use crate::seqs::{lemma_pick_covers, lemma_pick_source, pick};
use crate::servers::{ConnectionState, ConnectionView, ServerView, SummaryView};
use crate::supervisor::routes::{
    agent_focus_of, new_workspace_route_of, plan_in_turn, plans_in_turn, plans_of, route_to,
    streamless_id, subscription_of, unavailable_reason_of, unconnected_id, workspace_focus_of,
    FocusView, NewWorkspaceView, PlanView,
};
use crate::supervisor::{
    checked_filter, connected_of, connection_set, destination_named, destination_of, fetch_applied,
    filter_label_of, lemma_index_of_server, lemma_is_index_of_server, new_model, next_filter,
    reconciled_picker, secondary_removed, selection_reconciled, summary_set, synced_state,
    DestinationView, FetchView, ModelView, PickerView,
};
use crate::text::{decimal, trim_spec};

verus! {

/// Why a server cannot be used is told by its connection.
pub proof fn law_reasons_tell_the_connection(server_protocol: Option<u32>, client_protocol: u32)
    ensures
        unavailable_reason_of(ConnectionState::Connecting) == "server connecting"@,
        unavailable_reason_of(ConnectionState::Disconnected) == "server disconnected"@,
        unavailable_reason_of(
            ConnectionState::ProtocolMismatch { server_protocol, client_protocol },
        ) == "protocol mismatch"@,
{
}

/// A plan tells its server.
pub open spec fn plans_for(plan: PlanView, server: ServerView) -> bool {
    &&& plan.server_id == server.id
    &&& plan.display_name == server.display_name
    &&& plan.target == server.target
    &&& plan.keybindings == server.keybindings
}

/// Every remote that is not disabled has a plan for its connection, with its own name, target and
/// keys; nothing else has one.
pub proof fn law_every_enabled_remote_has_a_plan(servers: Seq<ServerView>, i: int, k: int)
    ensures
        0 <= i < servers.len() && servers[i].role is Secondary && !servers[i].disabled
            ==> exists|p: int|
            0 <= p < plans_of(servers).len() && plans_for(
                #[trigger] plans_of(servers)[p],
                servers[i],
            ),
        0 <= k < plans_of(servers).len() ==> exists|j: int|
            0 <= j < servers.len() && plans_for(plans_of(servers)[k], #[trigger] servers[j])
                && servers[j].role is Secondary && !servers[j].disabled,
{
    let all = plans_of(servers);
    let first = plans_in_turn(servers, 0);
    let second = plans_in_turn(servers, 1);
    if 0 <= i < servers.len() && servers[i].role is Secondary && !servers[i].disabled {
        let turn: int = match servers[i].target {
            ConnectionView::LocalSession(_) => 0,
            ConnectionView::Ssh(_) => 1,
            ConnectionView::Main => 2,
        };
        let f = |s: ServerView| plan_in_turn(s, turn);
        assert(f(servers[i]) is Some);
        let p = lemma_pick_covers(servers, f, i);
        let at = if turn == 0 {
            p
        } else if turn == 1 {
            first.len() + p
        } else {
            first.len() + second.len() + p
        };
        assert(all[at] == f(servers[i])->0);
    }
    if 0 <= k < all.len() {
        let (turn, at): (int, int) = if k < first.len() {
            (0, k)
        } else if k < first.len() + second.len() {
            (1, k - first.len())
        } else {
            (2, k - first.len() - second.len())
        };
        let f = |s: ServerView| plan_in_turn(s, turn);
        let j = lemma_pick_source(servers, f, at);
        assert(f(servers[j]) == Some(all[k]));
        assert(plans_for(all[k], servers[j]));
    }
}

/// Sessions on this machine are connected before hosts over ssh.
pub proof fn law_local_sessions_come_first(servers: Seq<ServerView>, a: int, b: int)
    requires
        0 <= a < plans_of(servers).len(),
        0 <= b < plans_of(servers).len(),
        plans_of(servers)[a].target is LocalSession,
        plans_of(servers)[b].target is Ssh,
    ensures
        a < b,
{
    let first = plans_in_turn(servers, 0);
    let second = plans_in_turn(servers, 1);
    let f0 = |s: ServerView| plan_in_turn(s, 0);
    let f1 = |s: ServerView| plan_in_turn(s, 1);
    let f2 = |s: ServerView| plan_in_turn(s, 2);
    if a >= first.len() {
        if a < first.len() + second.len() {
            let j = lemma_pick_source(servers, f1, a - first.len());
            assert(f1(servers[j]) == Some(plans_of(servers)[a]));
        } else {
            let j = lemma_pick_source(servers, f2, a - first.len() - second.len());
            assert(f2(servers[j]) == Some(plans_of(servers)[a]));
        }
    }
    if b < first.len() {
        let j = lemma_pick_source(servers, f0, b);
        assert(f0(servers[j]) == Some(plans_of(servers)[b]));
    }
}

/// A connected server is followed where it is; a remote that is enabled and still connecting or
/// was lost is tried again, and so is one without a stream unless its protocol differs.
pub proof fn law_who_is_followed_and_tried(server: ServerView, streams: Seq<Seq<char>>)
    ensures
        server.connection_state is Connected ==> subscription_of(server) == Some(
            (server.id, server.target),
        ),
        !(server.connection_state is Connected) ==> subscription_of(server) is None,
        unconnected_id(server) is Some <==> server.role is Secondary && !server.disabled && (
        server.connection_state is Connecting || server.connection_state is Disconnected),
        unconnected_id(server) is Some ==> unconnected_id(server)->0 == server.id,
        streamless_id(server, streams) is Some <==> server.role is Secondary && !server.disabled
            && !streams.contains(server.id) && !(server.connection_state is ProtocolMismatch),
        streamless_id(server, streams) is Some ==> streamless_id(server, streams)->0 == server.id,
{
}

/// A workspace can be made, and a workspace or an agent focused, on a server exactly while it is
/// connected and, for the latter, knows what is asked for.
pub proof fn law_routes_go_to_the_server(m: ModelView, i: int, target: Seq<char>, w: int, a: int)
    requires
        0 <= i < m.servers.len(),
        forall|j: int| 0 <= j < i ==> (#[trigger] m.servers[j]).id != m.servers[i].id,
    ensures
        ({
            let server = m.servers[i];
            &&& server.connection_state is Connected ==> route_to(m.servers, server.id) == (
            NewWorkspaceView::CreateOn { server_id: server.id })
            &&& server.connection_state is Disconnected ==> route_to(m.servers, server.id) == (
            NewWorkspaceView::Unavailable {
                server_id: server.id,
                reason: "server disconnected"@,
            })
            &&& server.connection_state is Connecting ==> route_to(m.servers, server.id) == (
            NewWorkspaceView::Unavailable { server_id: server.id, reason: "server connecting"@ })
            &&& server.connection_state is ProtocolMismatch ==> route_to(m.servers, server.id) == (
            NewWorkspaceView::Unavailable { server_id: server.id, reason: "protocol mismatch"@ })
            &&& server.connection_state is Connected && 0 <= w < server.summaries.workspaces.len()
                && server.summaries.workspaces[w].workspace_id == target ==> workspace_focus_of(
                m,
                server.id,
                target,
            ) == (FocusView::Workspace { server_id: server.id, workspace_id: target })
            &&& server.connection_state is Connected && 0 <= a < server.summaries.agents.len()
                && server.summaries.agents[a].agent_id == target ==> agent_focus_of(
                m,
                server.id,
                target,
            ) == (FocusView::Agent { server_id: server.id, target })
            &&& server.connection_state is Disconnected ==> workspace_focus_of(
                m,
                server.id,
                target,
            ) == (FocusView::Unavailable {
                server_id: server.id,
                reason: "server disconnected"@,
            }) && agent_focus_of(m, server.id, target) == (FocusView::Unavailable {
                server_id: server.id,
                reason: "server disconnected"@,
            })
            &&& (forall|k: int|
                0 <= k < server.summaries.workspaces.len()
                    ==> (#[trigger] server.summaries.workspaces[k]).workspace_id != target)
                && server.connection_state is Connected ==> workspace_focus_of(
                m,
                server.id,
                target,
            ) == FocusView::NotFound
        }),
{
    lemma_is_index_of_server(m.servers, m.servers[i].id, i);
}

/// With no filter a new workspace goes to the one connected server; where several are connected
/// they are all offered, with their names, and where none is, it goes nowhere.
pub proof fn law_unfiltered_workspace_goes_to_a_connected_server(m: ModelView, i: int)
    requires
        m.filter is None,
    ensures
        match new_workspace_route_of(m) {
            NewWorkspaceView::CreateOn { server_id } => exists|j: int|
                0 <= j < m.servers.len() && (#[trigger] m.servers[j]).id == server_id
                    && m.servers[j].connection_state is Connected,
            NewWorkspaceView::PickDestination { destinations } => {
                &&& destinations.len() > 1
                &&& 0 <= i < m.servers.len() && m.servers[i].connection_state is Connected ==> (
                exists|k: int|
                    0 <= k < destinations.len() && (#[trigger] destinations[k]).server_id
                        == m.servers[i].id && destinations[k].display_name
                        == m.servers[i].display_name)
            },
            NewWorkspaceView::Unavailable { server_id, reason } => {
                &&& server_id == "main"@
                &&& reason == "server disconnected"@
                &&& 0 <= i < m.servers.len() ==> !(m.servers[i].connection_state is Connected)
            },
        },
{
    let f = |s: ServerView| destination_of(s);
    let connected = connected_of(m.servers);
    if connected.len() == 1 {
        let j = lemma_pick_source(m.servers, f, 0);
        assert(f(m.servers[j]) == Some(connected[0]));
        assert(m.servers[j].id == connected[0].server_id);
    }
    if 0 <= i < m.servers.len() && m.servers[i].connection_state is Connected {
        assert(f(m.servers[i]) is Some);
        let k = lemma_pick_covers(m.servers, f, i);
        assert(connected[k] == f(m.servers[i])->0);
    }
}

/// The filter steps from all servers through each in turn and back to all, and its label is the
/// name of the server that it shows, or `all`.
pub proof fn law_filter_steps_and_label(m: ModelView, i: int)
    ensures
        m.servers.len() > 0 ==> next_filter(m.servers, None) == Some(m.servers[0].id),
        0 <= i < m.servers.len() && (forall|j: int|
            0 <= j < i ==> (#[trigger] m.servers[j]).id != m.servers[i].id) ==> {
            &&& i + 1 < m.servers.len() ==> next_filter(m.servers, Some(m.servers[i].id)) == Some(
                m.servers[i + 1].id,
            )
            &&& i + 1 == m.servers.len() ==> next_filter(m.servers, Some(m.servers[i].id)) is None
            &&& m.filter == Some(m.servers[i].id) ==> filter_label_of(m)
                == m.servers[i].display_name
            &&& checked_filter(m.servers, Some(m.servers[i].id)) == Some(m.servers[i].id)
        },
        m.filter is None ==> filter_label_of(m) == "all"@,
        checked_filter(m.servers, None) is None,
{
    if 0 <= i < m.servers.len() && (forall|j: int|
        0 <= j < i ==> (#[trigger] m.servers[j]).id != m.servers[i].id) {
        lemma_is_index_of_server(m.servers, m.servers[i].id, i);
    }
}

/// A change of a server's connection is noted there, except that a disabled one stays
/// disconnected; it changes no other server and nothing else of that one, and the client goes
/// back to the main server where the one it shows is lost.
pub proof fn law_connection_is_noted(
    m: ModelView,
    i: int,
    state: ConnectionState,
    j: int,
)
    requires
        0 <= i < m.servers.len(),
        0 <= j < m.servers.len(),
    ensures
        ({
            let id = m.servers[i].id;
            let after = connection_set(m, i, id, state);
            &&& after.servers.len() == m.servers.len()
            &&& !m.servers[i].disabled ==> after.servers[i].connection_state == state
            &&& m.servers[i].disabled ==> after.servers[i].connection_state is Disconnected
            &&& after.servers[i].summaries == m.servers[i].summaries
            &&& after.servers[i].id == id
            &&& after.servers[i].target == m.servers[i].target
            &&& after.servers[i].disabled == m.servers[i].disabled
            &&& j != i ==> after.servers[j] == m.servers[j]
            &&& m.active == id && !(state is Connected) ==> after.active == "main"@
            &&& m.active == id && state is Connected && !m.servers[i].disabled ==> after.active
                == id
            &&& m.active != id ==> after.active == m.active
            &&& after.filter == m.filter
            &&& after.overlay == m.overlay
            &&& after.ui_settings == m.ui_settings
        }),
{
}

/// A fetch that succeeds makes its server connected and replaces what was known of it; one that
/// fails notes why and keeps what was known; no other server changes.
pub proof fn law_fetch_is_noted_on_its_server(
    servers: Seq<ServerView>,
    i: int,
    summary: SummaryView,
    state: ConnectionState,
    j: int,
)
    requires
        0 <= i < servers.len(),
        0 <= j < servers.len(),
        forall|k: int| 0 <= k < i ==> (#[trigger] servers[k]).id != servers[i].id,
        !servers[i].disabled,
    ensures
        ({
            let good = fetch_applied(servers, servers[i].id, FetchView::Fetched(summary));
            let bad = fetch_applied(servers, servers[i].id, FetchView::Failed(state));
            &&& good.len() == servers.len()
            &&& bad.len() == servers.len()
            &&& good[i].connection_state is Connected
            &&& good[i].summaries == summary
            &&& good[i].id == servers[i].id
            &&& bad[i].connection_state == state
            &&& bad[i].summaries == servers[i].summaries
            &&& j != i ==> good[j] == servers[j] && bad[j] == servers[j]
        }),
{
    lemma_is_index_of_server(servers, servers[i].id, i);
}

/// A new summary replaces what was known of its server, and nothing else changes.
pub proof fn law_summary_is_noted(m: ModelView, i: int, summary: SummaryView, j: int)
    requires
        0 <= i < m.servers.len(),
        0 <= j < m.servers.len(),
    ensures
        ({
            let after = summary_set(m, i, summary);
            &&& after.servers.len() == m.servers.len()
            &&& after.servers[i].summaries == summary
            &&& after.servers[i].connection_state == m.servers[i].connection_state
            &&& after.servers[i].display_name == m.servers[i].display_name
            &&& j != i ==> after.servers[j] == m.servers[j]
            &&& after == (ModelView { servers: after.servers, ..m })
        }),
{
}

/// A remote that is taken away is gone, the others stay as they are and in order, and the client
/// shows the main server and all servers again where it showed that one.
pub proof fn law_removed_remote_is_gone(m: ModelView, i: int, j: int)
    requires
        0 <= i < m.servers.len(),
        0 <= j < m.servers.len() - 1,
    ensures
        ({
            let id = m.servers[i].id;
            let after = secondary_removed(m, id, i);
            &&& after.servers.len() == m.servers.len() - 1
            &&& j < i ==> after.servers[j] == m.servers[j]
            &&& j >= i ==> after.servers[j] == m.servers[j + 1]
            &&& m.active == id ==> after.active == "main"@
            &&& m.active != id ==> after.active == m.active
            &&& m.filter == Some(id) ==> after.filter is None
            &&& m.filter != Some(id) ==> after.filter == m.filter
            &&& after.overlay == m.overlay
        }),
{
}

/// A remote that is switched on again is connected anew, one that is switched off is
/// disconnected, and one that is left alone keeps its connection.
pub proof fn law_switched_remotes(server: ServerView)
    ensures
        server.disabled ==> synced_state(server, false) is Connecting,
        synced_state(server, true) is Disconnected,
        !server.disabled ==> synced_state(server, false) == server.connection_state,
{
}

/// What is shown is kept where it can be: the active server while it is known and not disabled,
/// the filter while its server is known; else the main server, and all servers.
pub proof fn law_selection_is_kept_where_it_can_be(m: ModelView, i: int, f: int)
    ensures
        0 <= i < m.servers.len() && m.servers[i].id == m.active && !m.servers[i].disabled && (
        forall|j: int| 0 <= j < i ==> (#[trigger] m.servers[j]).id != m.active)
            ==> selection_reconciled(m).active == m.active,
        0 <= i < m.servers.len() && m.servers[i].id == m.active && m.servers[i].disabled && (
        forall|j: int| 0 <= j < i ==> (#[trigger] m.servers[j]).id != m.active)
            ==> selection_reconciled(m).active == "main"@,
        (forall|j: int| 0 <= j < m.servers.len() ==> (#[trigger] m.servers[j]).id != m.active)
            ==> selection_reconciled(m).active == "main"@,
        m.filter is Some && 0 <= f < m.servers.len() && m.servers[f].id == m.filter->0
            ==> selection_reconciled(m).filter == m.filter,
        m.filter is Some && (forall|j: int|
            0 <= j < m.servers.len() ==> (#[trigger] m.servers[j]).id != m.filter->0)
            ==> selection_reconciled(m).filter is None,
        selection_reconciled(m).servers == m.servers,
{
    lemma_index_of_server(m.servers, m.active);
    if 0 <= i < m.servers.len() && m.servers[i].id == m.active && (forall|j: int|
        0 <= j < i ==> (#[trigger] m.servers[j]).id != m.active) {
        lemma_is_index_of_server(m.servers, m.active, i);
    }
    if m.filter is Some {
        lemma_index_of_server(m.servers, m.filter->0);
    }
}

/// A list of destinations that stays open keeps those that are still connected, under their
/// present names, and closes where none is left.
pub proof fn law_open_list_follows_the_servers(picker: PickerView, servers: Seq<ServerView>, k: int)
    ensures
        match reconciled_picker(Some(picker), servers) {
            Some(after) => {
                &&& 0 < after.destinations.len() <= picker.destinations.len()
                &&& after.selected < after.destinations.len()
                &&& picker.selected < after.destinations.len() ==> after.selected
                    == picker.selected
                &&& 0 <= k < after.destinations.len() ==> exists|j: int|
                    0 <= j < servers.len() && (#[trigger] servers[j]).connection_state is Connected
                        && servers[j].id == after.destinations[k].server_id
                        && servers[j].display_name == after.destinations[k].display_name
            },
            None => 0 <= k < servers.len() && servers[k].connection_state is Connected
                ==> forall|j: int|
                0 <= j < picker.destinations.len() ==> (#[trigger] picker.destinations[j]).server_id
                    != servers[k].id,
        },
        reconciled_picker(None, servers) is None,
{
    let g = |d: DestinationView| destination_named(connected_of(servers), d.server_id);
    let f = |s: ServerView| destination_of(s);
    let left = pick(picker.destinations, g);
    lemma_pick_len(picker.destinations, g);
    match reconciled_picker(Some(picker), servers) {
        Some(after) => {
            if 0 <= k < after.destinations.len() {
                let i = lemma_pick_source(picker.destinations, g, k);
                lemma_destination_named(connected_of(servers), picker.destinations[i].server_id);
                let found = after.destinations[k];
                assert(g(picker.destinations[i]) == Some(found));
                let at = choose|at: int|
                    0 <= at < connected_of(servers).len() && connected_of(servers)[at] == found;
                let j = lemma_pick_source(servers, f, at);
                assert(f(servers[j]) == Some(found));
            }
        },
        None => {
            if 0 <= k < servers.len() && servers[k].connection_state is Connected {
                assert forall|j: int| 0 <= j < picker.destinations.len() implies (
                #[trigger] picker.destinations[j]).server_id != servers[k].id by {
                    if picker.destinations[j].server_id == servers[k].id {
                        assert(f(servers[k]) is Some);
                        let at = lemma_pick_covers(servers, f, k);
                        lemma_destination_named(connected_of(servers), servers[k].id);
                        assert(connected_of(servers)[at].server_id == servers[k].id);
                        assert(g(picker.destinations[j]) is Some);
                        let p = lemma_pick_covers(picker.destinations, g, j);
                        assert(left.len() > 0);
                    }
                }
            }
        },
    }
}

proof fn lemma_pick_len<A, B>(s: Seq<A>, f: spec_fn(A) -> Option<B>)
    ensures
        pick(s, f).len() <= s.len(),
    decreases s.len(),
{
    if s.len() > 0 {
        lemma_pick_len(s.drop_last(), f);
    }
}

proof fn lemma_destination_named(destinations: Seq<DestinationView>, id: Seq<char>)
    ensures
        match destination_named(destinations, id) {
            Some(d) => d.server_id == id && exists|i: int|
                0 <= i < destinations.len() && #[trigger] destinations[i] == d,
            None => forall|i: int|
                0 <= i < destinations.len() ==> (#[trigger] destinations[i]).server_id != id,
        },
    decreases destinations.len(),
{
    if destinations.len() > 0 && destinations[0].server_id != id {
        let rest = destinations.drop_first();
        lemma_destination_named(rest, id);
        match destination_named(rest, id) {
            Some(d) => {
                let i = choose|i: int| 0 <= i < rest.len() && #[trigger] rest[i] == d;
                assert(destinations[i + 1] == d);
            },
            None => {
                assert forall|i: int| 0 <= i < destinations.len() implies (
                #[trigger] destinations[i]).server_id != id by {
                    if i > 0 {
                        assert(rest[i - 1] == destinations[i]);
                    }
                }
            },
        }
    } else if destinations.len() > 0 {
        assert(destinations[0] == destination_named(destinations, id)->0);
    }
}

/// A client starts with the main server alone, shown and unfiltered, with nothing open and the
/// usual settings.
pub proof fn law_client_starts_with_the_main_server(name: Seq<char>)
    ensures
        ({
            let m = new_model(name);
            &&& m.servers.len() == 1
            &&& m.servers[0].id == "main"@
            &&& m.servers[0].display_name == name
            &&& m.active == "main"@
            &&& m.filter is None
            &&& m.picker is None
            &&& m.overlay is Closed
            &&& !m.adding
            &&& m.ui_settings.sidebar_width == 26
            &&& m.ui_settings.sidebar_default_width == 26
            &&& m.ui_settings.sidebar_min_width == 18
            &&& m.ui_settings.sidebar_max_width == 36
            &&& m.ui_settings.sidebar_spaces.branch
            &&& m.ui_settings.sidebar_spaces.branch_status
            &&& m.ui_settings.sidebar_host.animation is Animated
        }),
        ({
            let s = default_ui_settings();
            s.sidebar_min_width <= s.sidebar_default_width <= s.sidebar_max_width
        }),
{
}

/// The main server and the sessions on this machine are reached there; a host over ssh is reached
/// through its own bridge, its calls by one socket and its screen by the other, and not at all
/// without one.
pub proof fn law_servers_are_reached_where_they_are(
    id: Seq<char>,
    session: Option<Seq<char>>,
    host: Seq<char>,
    bridges: Seq<BridgeView>,
    i: int,
)
    ensures
        api_target_of(id, ConnectionView::Main, bridges) == Some(ApiTargetView::LocalSession(None)),
        api_target_of(id, ConnectionView::LocalSession(session), bridges) == Some(
            ApiTargetView::LocalSession(session),
        ),
        client_socket_of(id, ConnectionView::Main, bridges) == Some(ClientSocketView::Main),
        client_socket_of(id, ConnectionView::LocalSession(session), bridges) == Some(
            ClientSocketView::Session(session),
        ),
        0 <= i < bridges.len() && bridges[i].server_id == id && (forall|j: int|
            0 <= j < i ==> (#[trigger] bridges[j]).server_id != id) ==> {
            &&& api_target_of(id, ConnectionView::Ssh(host), bridges) == Some(
                ApiTargetView::SocketPath(bridges[i].api_socket),
            )
            &&& client_socket_of(id, ConnectionView::Ssh(host), bridges) == Some(
                ClientSocketView::Path(bridges[i].client_socket),
            )
        },
        (forall|j: int| 0 <= j < bridges.len() ==> (#[trigger] bridges[j]).server_id != id) ==> {
            &&& api_target_of(id, ConnectionView::Ssh(host), bridges) is None
            &&& client_socket_of(id, ConnectionView::Ssh(host), bridges) is None
        },
{
    if 0 <= i < bridges.len() && bridges[i].server_id == id && (forall|j: int|
        0 <= j < i ==> (#[trigger] bridges[j]).server_id != id) {
        lemma_bridge_to(bridges, id, i);
    }
    if forall|j: int| 0 <= j < bridges.len() ==> (#[trigger] bridges[j]).server_id != id {
        lemma_no_bridge(bridges, id);
    }
}

proof fn lemma_bridge_to(bridges: Seq<BridgeView>, id: Seq<char>, i: int)
    requires
        0 <= i < bridges.len(),
        bridges[i].server_id == id,
        forall|j: int| 0 <= j < i ==> (#[trigger] bridges[j]).server_id != id,
    ensures
        bridge_to(bridges, id) == Some(bridges[i]),
    decreases bridges.len(),
{
    if i > 0 {
        let rest = bridges.drop_first();
        assert forall|j: int| 0 <= j < i - 1 implies (#[trigger] rest[j]).server_id != id by {
            assert(rest[j] == bridges[j + 1]);
        }
        lemma_bridge_to(rest, id, i - 1);
    }
}

proof fn lemma_no_bridge(bridges: Seq<BridgeView>, id: Seq<char>)
    requires
        forall|j: int| 0 <= j < bridges.len() ==> (#[trigger] bridges[j]).server_id != id,
    ensures
        bridge_to(bridges, id) is None,
    decreases bridges.len(),
{
    if bridges.len() > 0 {
        let rest = bridges.drop_first();
        assert forall|j: int| 0 <= j < rest.len() implies (#[trigger] rest[j]).server_id != id by {
            assert(rest[j] == bridges[j + 1]);
        }
        lemma_no_bridge(rest, id);
    }
}

/// A server that refuses the handshake speaks another protocol and is noted so, with its own
/// version; any other fault leaves it disconnected.
pub proof fn law_refused_handshake_is_a_mismatch(error: ClientError)
    ensures
        error is HandshakeRejected ==> state_after_error(error) == (
        ConnectionState::ProtocolMismatch {
            server_protocol: Some(error->version),
            client_protocol: 11,
        }),
        !(error is HandshakeRejected) ==> state_after_error(error) is Disconnected,
{
}

/// A user who detached is told how to come back, by the remote's command where the session is a
/// remote one; any other end of the server is told with its reason, and each other fault by its
/// own words.
pub proof fn law_errors_say_what_happened(
    error: ClientError,
    socket_path: Seq<char>,
    remote: Option<Seq<char>>,
    local: Seq<char>,
)
    ensures
        is_detach(error) <==> error is ServerShutdown && error->reason is Some
            && error->reason->0@ == "detached"@,
        is_detach(error) && remote is Some ==> error_text(error, socket_path, remote, local)
            == "detached from remote server"@ + "\nRun `"@ + remote->0 + "` to reattach"@,
        is_detach(error) && remote is None ==> error_text(error, socket_path, remote, local)
            == "detached from server"@ + "\nRun `"@ + local + "` to reattach"@,
        error is ServerShutdown && error->reason is None ==> error_text(
            error,
            socket_path,
            remote,
            local,
        ) == "server shut down"@,
        error is ServerShutdown && error->reason is Some && error->reason->0@ != "detached"@
            ==> error_text(error, socket_path, remote, local) == "server shut down"@ + ": "@
            + error->reason->0@,
        error is HandshakeRejected ==> error_text(error, socket_path, remote, local)
            == "server rejected handshake (version "@ + decimal(error->version as nat) + "): "@
            + error->HandshakeRejected_error@,
        error is ConnectionLost ==> error_text(error, socket_path, remote, local)
            == "lost connection to server: "@ + error->ConnectionLost_error@,
{
}

/// The setting for how a screen is sent is taken by any of its three names, and screens are sent
/// as frames where it is unset or unknown; a main server without a name is called `local`.
pub proof fn law_settings_have_their_names(name: Seq<char>)
    ensures
        encoding_of(Some("terminal-ansi"@)) is TerminalAnsi,
        encoding_of(Some("terminal_ansi"@)) is TerminalAnsi,
        encoding_of(Some("ansi"@)) is TerminalAnsi,
        encoding_of(None) is SemanticFrame,
        encoding_of(Some(name)) is TerminalAnsi ==> name == "terminal-ansi"@ || name
            == "terminal_ansi"@ || name == "ansi"@,
        main_name_of(None) == "local"@,
        trim_spec(name).len() == 0 ==> main_name_of(Some(name)) == "local"@,
        trim_spec(name).len() > 0 ==> main_name_of(Some(name)) == name,
{
}

} // verus!
