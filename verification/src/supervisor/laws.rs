//! What holds of the model whatever is done to it.

use vstd::prelude::*;

use crate::input::TerminalKey;
use crate::remote_registry::RemoteView;
use crate::seqs::{lemma_pick_covers, lemma_pick_source, pick};
use crate::servers::{
    connection_of, empty_summary, law_secondary_ids, main_id, secondary_id, secondary_server,
    settled, ssh_args_of, summary_with_focus, workspace_of_agent, ConnectionState, ServerRole,
    ServerView, SummaryView,
};
use crate::supervisor::overlay::{
    form_key_handled, form_opened, menu_items, menu_moved, menu_opened, menu_selected,
    overlay_closed,
};
use crate::supervisor::routes::{
    agent_focus_of, destination_chosen, focus_moved, focused, new_workspace_route_of,
    picker_opened, plan_in_turn, streamless_id, subscription_of, unconnected_id,
    workspace_focus_of, FocusView, NewWorkspaceView,
};
use crate::supervisor::rows::rows_of_server;
use crate::supervisor::{
    can_be_active, connected_of, connection_set, destination_named, destination_of, fetches_applied,
    filter_cycled, filter_set, has_server, index_of_secondary, index_of_server,
    lemma_index_of_secondary, lemma_index_of_server, lemma_is_index_of_server, main_only, new_model,
    next_filter, picker_closed, picker_reconciled, reconciled_picker, registry_synced,
    secondary_removed, selection_reconciled, server_named, summary_set, synced_server,
    synced_servers, DestinationView, FetchView, ModelView, PickerView,
};

verus! {

/// Whether an id is that of a remote's server.
pub open spec fn is_secondary_id(id: Seq<char>) -> bool {
    exists|remote: Seq<char>| id == #[trigger] secondary_id(remote)
}

/// The main server stands first, and the remotes' servers behind it; those that are switched off
/// are disconnected.
pub open spec fn servers_valid(servers: Seq<ServerView>) -> bool {
    &&& servers.len() > 0
    &&& servers[0].id == main_id()
    &&& servers[0].role == ServerRole::Main
    &&& !servers[0].disabled
    &&& forall|i: int|
        1 <= i < servers.len() ==> (#[trigger] servers[i]).role == ServerRole::Secondary
            && is_secondary_id(servers[i].id)
    &&& forall|i: int|
        0 <= i < servers.len() && (#[trigger] servers[i]).disabled
            ==> servers[i].connection_state is Disconnected
}

/// The picker shows connected servers, at least one, and one of its rows is selected.
pub open spec fn picker_valid(picker: Option<PickerView>, servers: Seq<ServerView>) -> bool {
    match picker {
        None => true,
        Some(p) => p.selected < p.destinations.len() && forall|k: int|
            0 <= k < p.destinations.len() ==> connected_of(servers).contains(
                #[trigger] p.destinations[k],
            ),
    }
}

/// The model is as it should be: its servers, the filter and the active server, the picker, and
/// not more than one thing that lies over the sidebar.
pub open spec fn valid(m: ModelView) -> bool {
    &&& servers_valid(m.servers)
    &&& has_server(m.servers, m.active)
    &&& m.filter is Some ==> has_server(m.servers, m.filter->0)
    &&& picker_valid(m.picker, m.servers)
    &&& m.picker is Some ==> m.overlay is Closed
    &&& m.overlay is GlobalMenu ==> m.overlay->highlighted < menu_items().len()
}

proof fn lemma_has_server_at(servers: Seq<ServerView>, i: int)
    requires
        0 <= i < servers.len(),
    ensures
        has_server(servers, servers[i].id),
{
    lemma_index_of_server(servers, servers[i].id);
}

proof fn lemma_main_is_there(servers: Seq<ServerView>)
    requires
        servers_valid(servers),
    ensures
        index_of_server(servers, main_id()) == Some(0int),
        has_server(servers, main_id()),
{
    lemma_is_index_of_server(servers, main_id(), 0);
}

/// A server that was there is there in a list with the same ids.
proof fn lemma_has_server_kept(a: Seq<ServerView>, b: Seq<ServerView>, id: Seq<char>)
    requires
        a.len() <= b.len(),
        forall|i: int| 0 <= i < a.len() ==> (#[trigger] a[i]).id == b[i].id,
        has_server(a, id),
    ensures
        has_server(b, id),
{
    lemma_index_of_server(a, id);
    let i = index_of_server(a, id)->0;
    assert(a[i].id == b[i].id);
    lemma_has_server_at(b, i);
}

proof fn lemma_connected_kept(a: Seq<ServerView>, b: Seq<ServerView>, d: DestinationView)
    requires
        a.len() <= b.len(),
        forall|i: int|
            0 <= i < a.len() ==> destination_of(#[trigger] a[i]) == destination_of(b[i]),
        connected_of(a).contains(d),
    ensures
        connected_of(b).contains(d),
{
    let f = |s: ServerView| destination_of(s);
    let k = choose|k: int| 0 <= k < connected_of(a).len() && connected_of(a)[k] == d;
    let i = lemma_pick_source(a, f, k);
    assert(destination_of(a[i]) == destination_of(b[i]));
    let j = lemma_pick_covers(b, f, i);
    assert(connected_of(b)[j] == d);
}

proof fn lemma_destination_named(destinations: Seq<DestinationView>, id: Seq<char>)
    ensures
        match destination_named(destinations, id) {
            Some(d) => destinations.contains(d) && d.server_id == id,
            None => forall|k: int|
                0 <= k < destinations.len() ==> (#[trigger] destinations[k]).server_id != id,
        },
    decreases destinations.len(),
{
    if destinations.len() > 0 {
        if destinations[0].server_id == id {
            assert(destinations.contains(destinations[0]));
        } else {
            let rest = destinations.drop_first();
            lemma_destination_named(rest, id);
            match destination_named(rest, id) {
                Some(d) => {
                    let k = choose|k: int| 0 <= k < rest.len() && rest[k] == d;
                    assert(destinations[k + 1] == d);
                },
                None => {
                    assert forall|k: int| 0 <= k < destinations.len() implies (
                    #[trigger] destinations[k]).server_id != id by {
                        if k > 0 {
                            assert(rest[k - 1] == destinations[k]);
                        }
                    }
                },
            }
        }
    }
}

/// A reconciled picker fits the servers, whatever it showed before.
pub proof fn law_reconciled_picker_fits(picker: Option<PickerView>, servers: Seq<ServerView>)
    ensures
        picker_valid(reconciled_picker(picker, servers), servers),
{
    match picker {
        None => {},
        Some(p) => {
            let f = |d: DestinationView| destination_named(connected_of(servers), d.server_id);
            let left = pick(p.destinations, f);
            assert forall|k: int| 0 <= k < left.len() implies connected_of(servers).contains(
                #[trigger] left[k],
            ) by {
                let i = lemma_pick_source(p.destinations, f, k);
                lemma_destination_named(connected_of(servers), p.destinations[i].server_id);
            }
        },
    }
}

/// A new model is valid.
pub proof fn law_new_model_is_valid(name: Seq<char>)
    ensures
        valid(new_model(name)),
{
    lemma_main_is_there(new_model(name).servers);
}

/// Choosing and cycling the filter keep the model valid.
pub proof fn law_filter_keeps_valid(m: ModelView, filter: Option<Seq<char>>)
    requires
        valid(m),
    ensures
        valid(filter_set(m, filter)),
        valid(filter_cycled(m)),
{
    match next_filter(m.servers, m.filter) {
        Some(id) => {
            match m.filter {
                None => lemma_has_server_at(m.servers, 0),
                Some(current) => {
                    lemma_index_of_server(m.servers, current);
                    lemma_has_server_at(m.servers, index_of_server(m.servers, current)->0 + 1);
                },
            }
        },
        None => {},
    }
}

/// Making a server that is there the active one keeps the model valid, and so does going back to
/// the main server.
pub proof fn law_activation_keeps_valid(m: ModelView, id: Seq<char>)
    requires
        valid(m),
        has_server(m.servers, id),
    ensures
        valid(ModelView { active: id, ..m }),
        valid(ModelView { active: main_id(), ..picker_closed(m) }),
{
    lemma_main_is_there(m.servers);
}

/// Adding the server of a remote keeps the model valid.
pub proof fn law_add_secondary_keeps_valid(
    m: ModelView,
    definition: RemoteView,
    state: ConnectionState,
)
    requires
        valid(m),
    ensures
        valid(ModelView { servers: m.servers.push(secondary_server(definition, state)), ..m }),
{
    let grown = m.servers.push(secondary_server(definition, state));
    assert(grown.last().id == secondary_id(definition.id));
    assert forall|i: int| 1 <= i < grown.len() implies (#[trigger] grown[i]).role
        == ServerRole::Secondary && is_secondary_id(grown[i].id) by {
        if i < m.servers.len() {
            assert(grown[i] == m.servers[i]);
        }
    }
    lemma_has_server_kept(m.servers, grown, m.active);
    if m.filter is Some {
        lemma_has_server_kept(m.servers, grown, m.filter->0);
    }
    if m.picker is Some {
        let p = m.picker->0;
        assert forall|k: int| 0 <= k < p.destinations.len() implies connected_of(grown).contains(
            #[trigger] p.destinations[k],
        ) by {
            assert(connected_of(m.servers).contains(p.destinations[k]));
            lemma_connected_kept(m.servers, grown, p.destinations[k]);
        }
    }
}

proof fn lemma_mains(servers: Seq<ServerView>, n: int)
    requires
        servers_valid(servers),
        1 <= n <= servers.len(),
    ensures
        pick(servers.take(n), |s: ServerView| main_only(s)) =~= seq![servers[0]],
    decreases n,
{
    let f = |s: ServerView| main_only(s);
    let part = servers.take(n);
    if n == 1 {
        assert(part.drop_last() =~= Seq::<ServerView>::empty());
        assert(pick(part.drop_last(), f) =~= Seq::<ServerView>::empty());
        assert(part.last() == servers[0]);
    } else {
        lemma_mains(servers, n - 1);
        assert(part.drop_last() =~= servers.take(n - 1));
        assert(part.last() == servers[n - 1]);
    }
}

/// Reading the registry puts its remotes, in its order, behind the main server, and keeps the
/// model valid.
pub proof fn law_sync_keeps_valid(m: ModelView, remotes: Seq<RemoteView>)
    requires
        valid(m),
    ensures
        valid(registry_synced(m, remotes)),
        registry_synced(m, remotes).servers.len() == remotes.len() + 1,
        registry_synced(m, remotes).servers[0] == m.servers[0],
        forall|i: int|
            0 <= i < remotes.len() ==> (#[trigger] registry_synced(m, remotes).servers[i + 1])
                == synced_server(m.servers, remotes[i]),
        forall|i: int|
            0 <= i < remotes.len() ==> (#[trigger] registry_synced(m, remotes).servers[i + 1]).id
                == secondary_id(remotes[i].id),
{
    lemma_mains(m.servers, m.servers.len() as int);
    assert(m.servers.take(m.servers.len() as int) =~= m.servers);
    let next = synced_servers(m.servers, remotes);
    let tail = remotes.map_values(|d: RemoteView| synced_server(m.servers, d));
    assert(next =~= seq![m.servers[0]] + tail);
    assert forall|i: int| 0 <= i < remotes.len() implies (#[trigger] next[i + 1]) == synced_server(
        m.servers,
        remotes[i],
    ) by {
        assert(next[i + 1] == tail[i]);
    }
    assert forall|i: int| 1 <= i < next.len() implies (#[trigger] next[i]).role
        == ServerRole::Secondary && is_secondary_id(next[i].id) && next[i].id == secondary_id(
        remotes[i - 1].id,
    ) by {
        assert(next[i] == tail[i - 1]);
        lemma_index_of_secondary(m.servers, secondary_id(remotes[i - 1].id));
    }
    lemma_main_is_there(next);
    let n = ModelView { servers: next, ..m };
    law_reconciled_picker_fits(selection_reconciled(n).picker, next);
}

/// What is known of a remote that stays in the registry is kept, and its name, its target with the
/// ssh options, and its key bindings follow the registry.
pub proof fn law_sync_keeps_what_is_known(servers: Seq<ServerView>, definition: RemoteView)
    ensures
        match index_of_secondary(servers, secondary_id(definition.id)) {
            Some(i) => synced_server(servers, definition).summaries == servers[i].summaries && (
            definition.disabled == servers[i].disabled && !definition.disabled
                ==> synced_server(servers, definition).connection_state
                == servers[i].connection_state),
            None => !definition.disabled ==> synced_server(
                servers,
                definition,
            ).connection_state is Connecting,
        },
        synced_server(servers, definition).display_name == definition.name,
        synced_server(servers, definition).keybindings == definition.keybindings,
        synced_server(servers, definition).target == connection_of(definition.target),
        synced_server(servers, definition).ssh_args == ssh_args_of(definition.target),
{
}

/// After the registry was read the servers behind the main one are exactly its remotes, in its
/// order: each has the id, the name, the target with the ssh options, the key bindings and the
/// switch of its remote. What was known of it stays; one that is new is being connected, and one
/// that is switched off has no connection.
pub proof fn law_sync_matches_the_registry(m: ModelView, remotes: Seq<RemoteView>, i: int)
    requires
        valid(m),
        0 <= i < remotes.len(),
    ensures
        registry_synced(m, remotes).servers.len() == remotes.len() + 1,
        ({
            let server = registry_synced(m, remotes).servers[i + 1];
            let remote = remotes[i];
            &&& server.id == secondary_id(remote.id)
            &&& server.role == ServerRole::Secondary
            &&& server.display_name == remote.name
            &&& server.target == connection_of(remote.target)
            &&& server.ssh_args == ssh_args_of(remote.target)
            &&& server.keybindings == remote.keybindings
            &&& server.disabled == remote.disabled
            &&& match index_of_secondary(m.servers, secondary_id(remote.id)) {
                Some(k) => {
                    &&& server.summaries == m.servers[k].summaries
                    &&& server.connection_state == (if remote.disabled {
                        ConnectionState::Disconnected
                    } else if m.servers[k].disabled {
                        ConnectionState::Connecting
                    } else {
                        m.servers[k].connection_state
                    })
                },
                None => {
                    &&& server.summaries == empty_summary()
                    &&& server.connection_state == (if remote.disabled {
                        ConnectionState::Disconnected
                    } else {
                        ConnectionState::Connecting
                    })
                },
            }
        }),
{
    law_sync_keeps_valid(m, remotes);
    lemma_index_of_secondary(m.servers, secondary_id(remotes[i].id));
    assert(registry_synced(m, remotes).servers[i + 1] == synced_server(m.servers, remotes[i]));
}

/// Removing a remote keeps the model valid; neither filter nor active server is left on it.
pub proof fn law_remove_keeps_valid(m: ModelView, id: Seq<char>)
    requires
        valid(m),
        index_of_secondary(m.servers, id) is Some,
    ensures
        ({
            let after = secondary_removed(m, id, index_of_secondary(m.servers, id)->0);
            &&& valid(after)
            &&& after.filter != Some(id)
            &&& after.active != id
        }),
{
    lemma_index_of_secondary(m.servers, id);
    let i = index_of_secondary(m.servers, id)->0;
    let left = m.servers.remove(i);
    assert(i > 0);
    assert(is_secondary_id(m.servers[i].id));
    let remote = choose|remote: Seq<char>| id == #[trigger] secondary_id(remote);
    law_secondary_ids(remote, remote);
    assert forall|j: int| 1 <= j < left.len() implies (#[trigger] left[j]).role
        == ServerRole::Secondary && is_secondary_id(left[j].id) by {
        let k = if j < i {
            j
        } else {
            j + 1
        };
        assert(left[j] == m.servers[k]);
    }
    assert(left[0] == m.servers[0]);
    lemma_main_is_there(left);
    lemma_other_server_stays(m.servers, i, m.active);
    if m.filter is Some {
        lemma_other_server_stays(m.servers, i, m.filter->0);
    }
    law_reconciled_picker_fits(m.picker, left);
}

proof fn lemma_other_server_stays(servers: Seq<ServerView>, i: int, id: Seq<char>)
    requires
        0 <= i < servers.len(),
        has_server(servers, id),
    ensures
        servers[i].id != id ==> has_server(servers.remove(i), id),
{
    if servers[i].id != id {
        lemma_index_of_server(servers, id);
        let k = index_of_server(servers, id)->0;
        let left = servers.remove(i);
        if k < i {
            assert(left[k] == servers[k]);
            lemma_has_server_at(left, k);
        } else {
            assert(left[k - 1] == servers[k]);
            lemma_has_server_at(left, k - 1);
        }
    }
}

proof fn lemma_update_keeps_valid(servers: Seq<ServerView>, i: int, changed: ServerView)
    requires
        servers_valid(servers),
        0 <= i < servers.len(),
        changed.id == servers[i].id,
        changed.role == servers[i].role,
        changed.disabled == servers[i].disabled,
        changed.disabled ==> changed.connection_state is Disconnected,
    ensures
        servers_valid(servers.update(i, changed)),
        forall|id: Seq<char>|
            has_server(servers, id) ==> #[trigger] has_server(servers.update(i, changed), id),
{
    let next = servers.update(i, changed);
    assert forall|j: int| 1 <= j < next.len() implies (#[trigger] next[j]).role
        == ServerRole::Secondary && is_secondary_id(next[j].id) by {
        assert(is_secondary_id(servers[j].id));
        assert(servers[j].role == ServerRole::Secondary);
    }
    assert forall|id: Seq<char>| has_server(servers, id) implies #[trigger] has_server(next, id) by {
        lemma_has_server_kept(servers, next, id);
    }
}

/// A change of a connection keeps the model valid, and an active remote that is no longer
/// connected gives way to the main server.
pub proof fn law_connection_keeps_valid(m: ModelView, id: Seq<char>, state: ConnectionState)
    requires
        valid(m),
        has_server(m.servers, id),
    ensures
        ({
            let after = connection_set(m, index_of_server(m.servers, id)->0, id, state);
            &&& valid(after)
            &&& id != main_id() && !(state is Connected) ==> after.active != id
            &&& after.active == m.active || after.active == main_id()
        }),
{
    lemma_index_of_server(m.servers, id);
    let i = index_of_server(m.servers, id)->0;
    let changed = ServerView {
        connection_state: settled(m.servers[i].disabled, state),
        ..m.servers[i]
    };
    lemma_update_keeps_valid(m.servers, i, changed);
    lemma_main_is_there(m.servers.update(i, changed));
    law_reconciled_picker_fits(m.picker, m.servers.update(i, changed));
    assert(has_server(m.servers.update(i, changed), m.active));
    if m.filter is Some {
        assert(has_server(m.servers.update(i, changed), m.filter->0));
    }
}

/// A new summary keeps the model valid.
pub proof fn law_summary_keeps_valid(m: ModelView, id: Seq<char>, summary: SummaryView)
    requires
        valid(m),
        has_server(m.servers, id),
    ensures
        valid(summary_set(m, index_of_server(m.servers, id)->0, summary)),
{
    lemma_index_of_server(m.servers, id);
    let i = index_of_server(m.servers, id)->0;
    let changed = ServerView { summaries: summary, ..m.servers[i] };
    let next = m.servers.update(i, changed);
    lemma_update_keeps_valid(m.servers, i, changed);
    assert(has_server(next, m.active));
    if m.filter is Some {
        assert(has_server(next, m.filter->0));
    }
    if m.picker is Some {
        let p = m.picker->0;
        assert forall|k: int| 0 <= k < p.destinations.len() implies connected_of(next).contains(
            #[trigger] p.destinations[k],
        ) by {
            assert(connected_of(m.servers).contains(p.destinations[k]));
            lemma_connected_kept(m.servers, next, p.destinations[k]);
        }
    }
}

proof fn lemma_fetches_keep_servers(
    servers: Seq<ServerView>,
    results: Seq<(Seq<char>, FetchView)>,
)
    requires
        servers_valid(servers),
    ensures
        servers_valid(fetches_applied(servers, results)),
        fetches_applied(servers, results).len() == servers.len(),
        forall|id: Seq<char>|
            has_server(servers, id) ==> #[trigger] has_server(
                fetches_applied(servers, results),
                id,
            ),
        forall|i: int|
            0 <= i < servers.len() ==> (#[trigger] fetches_applied(servers, results)[i]).target
                == servers[i].target,
    decreases results.len(),
{
    if results.len() > 0 {
        let before = fetches_applied(servers, results.drop_last());
        lemma_fetches_keep_servers(servers, results.drop_last());
        let (id, result) = results.last();
        lemma_index_of_server(before, id);
        match index_of_server(before, id) {
            Some(i) => {
                let changed = match result {
                    FetchView::Fetched(summary) => ServerView {
                        connection_state: settled(before[i].disabled, ConnectionState::Connected),
                        summaries: summary,
                        ..before[i]
                    },
                    FetchView::Failed(state) => ServerView {
                        connection_state: settled(before[i].disabled, state),
                        ..before[i]
                    },
                };
                lemma_update_keeps_valid(before, i, changed);
            },
            None => {},
        }
    }
}

/// Taking over fetched summaries keeps the model valid, and changes nothing but connections,
/// summaries and the picker.
pub proof fn law_fetches_keep_valid(m: ModelView, results: Seq<(Seq<char>, FetchView)>)
    requires
        valid(m),
    ensures
        ({
            let after = picker_reconciled(
                ModelView { servers: fetches_applied(m.servers, results), ..m },
            );
            &&& valid(after)
            &&& after.servers.len() == m.servers.len()
            &&& after.active == m.active
            &&& after.filter == m.filter
        }),
{
    lemma_fetches_keep_servers(m.servers, results);
    let next = fetches_applied(m.servers, results);
    law_reconciled_picker_fits(m.picker, next);
    assert(has_server(next, m.active));
    if m.filter is Some {
        assert(has_server(next, m.filter->0));
    }
}

/// Asking for a new workspace keeps the model valid.
pub proof fn law_picker_keeps_valid(m: ModelView, id: Seq<char>)
    requires
        valid(m),
    ensures
        valid(picker_opened(m)),
        valid(destination_chosen(m, id)),
{
    let connected = connected_of(m.servers);
    assert forall|k: int| 0 <= k < connected.len() implies connected.contains(
        #[trigger] connected[k],
    ) by {}
    match new_workspace_route_of(m) {
        NewWorkspaceView::CreateOn { server_id } => {
            if m.filter is None {
                let i = lemma_pick_source(m.servers, |s: ServerView| destination_of(s), 0);
                lemma_has_server_at(m.servers, i);
            }
        },
        _ => {},
    }
}

/// A focus change keeps the model valid.
pub proof fn law_focus_keeps_valid(m: ModelView, server_id: Seq<char>, target: Seq<char>)
    requires
        valid(m),
    ensures
        valid(focused(m, workspace_focus_of(m, server_id, target), server_id)),
        valid(focused(m, agent_focus_of(m, server_id, target), server_id)),
{
    lemma_index_of_server(m.servers, server_id);
    match index_of_server(m.servers, server_id) {
        Some(i) => {
            let agents = m.servers[i].summaries.agents;
            lemma_focus_moved_keeps_valid(m, i, target, None);
            lemma_focus_moved_keeps_valid(m, i, workspace_of_agent(agents, target), Some(target));
        },
        None => {},
    }
}

proof fn lemma_focus_moved_keeps_valid(
    m: ModelView,
    i: int,
    workspace_id: Seq<char>,
    agent_id: Option<Seq<char>>,
)
    requires
        valid(m),
        0 <= i < m.servers.len(),
    ensures
        valid(focus_moved(m, i, m.servers[i].id, workspace_id, agent_id)),
{
    let changed = ServerView {
        summaries: summary_with_focus(m.servers[i].summaries, workspace_id, agent_id),
        ..m.servers[i]
    };
    let next = m.servers.update(i, changed);
    lemma_update_keeps_valid(m.servers, i, changed);
    lemma_has_server_at(m.servers, i);
    assert(has_server(next, m.servers[i].id));
    if m.filter is Some {
        assert(has_server(next, m.filter->0));
    }
}

/// A focus change shows at once: of the owner's workspaces exactly the one with this id has the
/// focus, and of its agents exactly the one that was asked for, if one was.
pub proof fn law_focus_shows_at_once(
    m: ModelView,
    server_id: Seq<char>,
    target: Seq<char>,
    k: int,
    a: int,
)
    requires
        has_server(m.servers, server_id),
    ensures
        ({
            let i = index_of_server(m.servers, server_id)->0;
            let route = workspace_focus_of(m, server_id, target);
            let after = focused(m, route, server_id).servers[i].summaries;
            route is Workspace && 0 <= k < after.workspaces.len() ==> (after.workspaces[k].focused
                <==> after.workspaces[k].workspace_id == target)
        }),
        ({
            let i = index_of_server(m.servers, server_id)->0;
            let route = agent_focus_of(m, server_id, target);
            let after = focused(m, route, server_id).servers[i].summaries;
            route is Agent ==> {
                &&& 0 <= a < after.agents.len() ==> (after.agents[a].focused
                    <==> after.agents[a].agent_id == target)
                &&& 0 <= k < after.workspaces.len() ==> (after.workspaces[k].focused
                    <==> after.workspaces[k].workspace_id == workspace_of_agent(
                    m.servers[i].summaries.agents,
                    target,
                ))
            }
        }),
{
    lemma_index_of_server(m.servers, server_id);
}

/// A focus change touches no other server, and of its owner nothing but the focus.
pub proof fn law_focus_leaves_others_alone(
    m: ModelView,
    route: FocusView,
    server_id: Seq<char>,
    j: int,
)
    requires
        0 <= j < m.servers.len(),
    ensures
        focused(m, route, server_id).servers.len() == m.servers.len(),
        m.servers[j].id != server_id ==> focused(m, route, server_id).servers[j] == m.servers[j],
        ({
            let after = focused(m, route, server_id).servers[j];
            &&& after.connection_state == m.servers[j].connection_state
            &&& after.display_name == m.servers[j].display_name
            &&& after.summaries.workspaces.len() == m.servers[j].summaries.workspaces.len()
            &&& after.summaries.agents.len() == m.servers[j].summaries.agents.len()
        }),
{
    lemma_index_of_server(m.servers, server_id);
}

/// Opening, moving in and closing the overlays keeps the model valid.
pub proof fn law_overlays_keep_valid(
    m: ModelView,
    index: nat,
    highlighted: nat,
    key: TerminalKey,
)
    requires
        valid(m),
        highlighted < menu_items().len(),
    ensures
        valid(menu_opened(m)),
        valid(menu_moved(m, highlighted)),
        valid(menu_selected(m, index)),
        valid(form_opened(m)),
        valid(overlay_closed(m)),
        valid(form_key_handled(m, key)),
{
    assert(menu_items().len() == 5);
}

/// Whether each id occurs once.
pub open spec fn ids_differ(servers: Seq<ServerView>) -> bool {
    forall|i: int, j: int|
        0 <= i < j < servers.len() ==> (#[trigger] servers[i]).id != (#[trigger] servers[j]).id
}

/// The model after `n` steps of the filter.
pub open spec fn cycled(m: ModelView, n: nat) -> ModelView
    decreases n,
{
    if n == 0 {
        m
    } else {
        filter_cycled(cycled(m, (n - 1) as nat))
    }
}

/// From all, the filter goes through the servers in their order, the main server first, and then
/// back to all.
pub proof fn law_filter_cycles(m: ModelView, n: nat)
    requires
        m.filter is None,
        ids_differ(m.servers),
        n <= m.servers.len() + 1,
    ensures
        cycled(m, n).servers == m.servers,
        cycled(m, n).filter == (if 1 <= n <= m.servers.len() {
            Some(m.servers[n - 1].id)
        } else {
            None
        }),
    decreases n,
{
    if n > 0 {
        law_filter_cycles(m, (n - 1) as nat);
        if n >= 2 {
            let i = n - 2;
            assert forall|j: int| 0 <= j < i implies (#[trigger] m.servers[j]).id
                != m.servers[i].id by {}
            lemma_is_index_of_server(m.servers, m.servers[i].id, i);
        }
    }
}

/// With one server shown, a new workspace goes there or nowhere.
pub proof fn law_shown_server_gets_the_workspace(m: ModelView)
    requires
        m.filter is Some,
    ensures
        match new_workspace_route_of(m) {
            NewWorkspaceView::CreateOn { server_id } => server_id == m.filter->0,
            NewWorkspaceView::Unavailable { server_id, reason } => server_id == m.filter->0,
            NewWorkspaceView::PickDestination { destinations } => false,
        },
{
}

/// A new workspace is only created on a connected server.
pub proof fn law_workspaces_go_to_connected_servers(m: ModelView)
    ensures
        match new_workspace_route_of(m) {
            NewWorkspaceView::CreateOn { server_id } => exists|i: int|
                0 <= i < m.servers.len() && (#[trigger] m.servers[i]).id == server_id
                    && m.servers[i].connection_state is Connected,
            _ => true,
        },
{
    match new_workspace_route_of(m) {
        NewWorkspaceView::CreateOn { server_id } => {
            if m.filter is None {
                let i = lemma_pick_source(m.servers, |s: ServerView| destination_of(s), 0);
                assert(m.servers[i].id == server_id);
            } else {
                lemma_index_of_server(m.servers, server_id);
                let i = index_of_server(m.servers, server_id)->0;
                assert(m.servers[i].id == server_id);
            }
        },
        _ => {},
    }
}

/// A focus change that goes somewhere goes to a connected server that tells of the workspace; one
/// that does not leaves the model as it was.
pub proof fn law_focus_goes_to_connected_owner(
    m: ModelView,
    server_id: Seq<char>,
    workspace_id: Seq<char>,
)
    ensures
        ({
            let route = workspace_focus_of(m, server_id, workspace_id);
            &&& route is Workspace ==> server_named(m.servers, server_id) is Some
                && server_named(m.servers, server_id)->0.connection_state is Connected && focused(
                m,
                route,
                server_id,
            ).active == server_id
            &&& !(route is Workspace) ==> focused(m, route, server_id) == m
        }),
{
}

/// A row names its server's workspaces only, and can be used exactly where the server is
/// connected.
pub proof fn law_rows_follow_the_connection(server: ServerView, all_shown: bool, k: int)
    requires
        0 <= k < rows_of_server(server, all_shown).len(),
    ensures
        ({
            let row = rows_of_server(server, all_shown)[k];
            &&& row.server_id == server.id
            &&& row.workspace_id is Some ==> (row.disabled <==> !(
            server.connection_state is Connected))
            &&& row.workspace_id is None ==> row.disabled
        }),
{
}

/// A remote that is switched off is left alone: nothing is connected to it, nothing is tried
/// again, it is not followed, no workspace goes there, and its rows cannot be used.
pub proof fn law_disabled_remote_is_left_alone(
    m: ModelView,
    i: int,
    turn: int,
    streams: Seq<Seq<char>>,
    all_filter: bool,
    k: int,
)
    requires
        valid(m),
        0 <= i < m.servers.len(),
        m.servers[i].disabled,
    ensures
        plan_in_turn(m.servers[i], turn) is None,
        unconnected_id(m.servers[i]) is None,
        streamless_id(m.servers[i], streams) is None,
        subscription_of(m.servers[i]) is None,
        destination_of(m.servers[i]) is None,
        0 <= k < rows_of_server(m.servers[i], all_filter).len() ==> rows_of_server(
            m.servers[i],
            all_filter,
        )[k].disabled,
{
}

/// Switching a remote off disconnects it and takes it from the screen; switching it on again has
/// it connected anew.
pub proof fn law_switching_a_remote(m: ModelView, remotes: Seq<RemoteView>, i: int)
    requires
        valid(m),
        0 <= i < remotes.len(),
    ensures
        ({
            let after = registry_synced(m, remotes);
            let server = after.servers[i + 1];
            &&& server.disabled == remotes[i].disabled
            &&& remotes[i].disabled ==> server.connection_state is Disconnected
            &&& can_be_active(after.servers, after.active)
            &&& match index_of_secondary(m.servers, secondary_id(remotes[i].id)) {
                Some(at) => m.servers[at].disabled && !remotes[i].disabled
                    ==> server.connection_state is Connecting,
                None => true,
            }
        }),
{
    law_sync_keeps_valid(m, remotes);
    let after = registry_synced(m, remotes);
    lemma_main_is_there(after.servers);
}

} // verus!
