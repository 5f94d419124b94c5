//! What the client keeps and shows of its servers: what each told of its workspaces and agents,
//! and nothing else.

use vstd::prelude::*;

use crate::api::{AgentInfo, AgentStatus, WorkspaceInfo};
use crate::remote_registry::{RemoteKeybindingsSnapshot, RemoteView, TargetView};
use crate::seqs::{flat, lemma_pick_covers, lemma_pick_source};
use crate::servers::{
    agent_label_of, connection_of, main_id, main_server, secondary_server, settled, ssh_args_of,
    status_word, summary_of, summary_with_focus, workspace_of_agent, AgentView, ConnectionState,
    ConnectionView, ServerSummary, ServerView, SummaryView, WorkspaceView,
};
use crate::sidebar_plan::{
    agents_of_row, first_focused, group_agents, last_focused, planned_agent, planned_rows,
    row_has_focus, selected_row, since_of, state_of_word, AgentState, SinceView,
};
use crate::supervisor::rows::{
    agent_row, agent_rows, any_focused, banners_above, group_of, groups_of_server, rows_of_server,
    visible_of, AgentRowView, GroupView, RowView,
};
use crate::supervisor::{lemma_index_of_server, ModelView};

verus! {

/// What is kept of a server is what it told: for each of its workspaces the id, the label, the
/// branch and whether it has the focus, and for each of its agents the terminal, the workspace and
/// whether it has the focus, in the order told.
pub proof fn law_kept_summary_is_what_was_told(
    workspaces: Seq<WorkspaceInfo>,
    agents: Seq<AgentInfo>,
    i: int,
)
    ensures
        summary_of(workspaces, agents).workspaces.len() == workspaces.len(),
        summary_of(workspaces, agents).agents.len() == agents.len(),
        0 <= i < workspaces.len() ==> {
            let kept = summary_of(workspaces, agents).workspaces[i];
            &&& kept.workspace_id == workspaces[i].workspace_id@
            &&& kept.label == workspaces[i].label@
            &&& workspaces[i].branch is Some ==> kept.branch == Some(workspaces[i].branch->0@)
            &&& workspaces[i].branch is None ==> kept.branch is None
            &&& kept.focused == workspaces[i].focused
        },
        0 <= i < agents.len() ==> {
            let kept = summary_of(workspaces, agents).agents[i];
            &&& kept.agent_id == agents[i].terminal_id@
            &&& kept.workspace_id == agents[i].workspace_id@
            &&& kept.focused == agents[i].focused
            &&& agents[i].name is Some ==> kept.label == agents[i].name->0@
        },
{
}

/// The same, of the function that keeps it, field by field.
pub proof fn law_from_api_keeps_every_field(
    workspaces: &Vec<WorkspaceInfo>,
    agents: &Vec<AgentInfo>,
    r: ServerSummary,
    i: int,
)
    requires
        call_ensures(ServerSummary::from_api, (workspaces, agents), r),
    ensures
        r.workspaces@.len() == workspaces@.len(),
        0 <= i < workspaces@.len() ==> {
            &&& r.workspaces@[i].workspace_id@ == workspaces@[i].workspace_id@
            &&& r.workspaces@[i].label@ == workspaces@[i].label@
            &&& r.workspaces@[i].branch is Some <==> workspaces@[i].branch is Some
            &&& workspaces@[i].branch is Some ==> r.workspaces@[i].branch->0@
                == workspaces@[i].branch->0@
            &&& r.workspaces@[i].focused == workspaces@[i].focused
        },
        r.agents@.len() == agents@.len(),
        0 <= i < agents@.len() ==> {
            &&& r.agents@[i].agent_id@ == agents@[i].terminal_id@
            &&& r.agents@[i].workspace_id@ == agents@[i].workspace_id@
            &&& r.agents@[i].focused == agents@[i].focused
            &&& agents@[i].agent_status is Working ==> r.agents@[i].status@ == "working"@
            &&& agents@[i].agent_status is Blocked ==> r.agents@[i].status@ == "blocked"@
            &&& agents@[i].agent_status is Done ==> r.agents@[i].status@ == "done"@
            &&& agents@[i].agent_status is Idle ==> r.agents@[i].status@ == "idle"@
            &&& agents@[i].name is Some ==> r.agents@[i].label@ == agents@[i].name->0@
            &&& agents@[i].name is None && agents@[i].display_agent is Some
                ==> r.agents@[i].label@ == agents@[i].display_agent->0@
            &&& agents@[i].name is None && agents@[i].display_agent is None
                && agents@[i].agent is Some ==> r.agents@[i].label@ == agents@[i].agent->0@
            &&& agents@[i].name is None && agents@[i].display_agent is None
                && agents@[i].agent is None && agents@[i].title is Some ==> r.agents@[i].label@
                == agents@[i].title->0@
            &&& agents@[i].name is None && agents@[i].display_agent is None
                && agents@[i].agent is None && agents@[i].title is None ==> r.agents@[i].label@
                == agents@[i].terminal_id@
        },
{
    if 0 <= i < workspaces@.len() {
        let kept = r.workspaces@[i];
    }
    if 0 <= i < agents@.len() {
        let kept = r.agents@[i];
        assert(r.deep_view().agents[i] == kept.deep_view());
        assert(summary_of(workspaces@, agents@).agents[i] == crate::servers::agent_of(agents@[i]));
    }
}

/// An agent is called by the first of these that it has: its own name, the name that its agent
/// shows, its agent, its title; and else by its terminal.
pub proof fn law_agent_label_order(
    name: Seq<char>,
    display: Seq<char>,
    agent: Seq<char>,
    title: Seq<char>,
    terminal: Seq<char>,
    d: Option<Seq<char>>,
    a: Option<Seq<char>>,
    t: Option<Seq<char>>,
)
    ensures
        agent_label_of(Some(name), d, a, t, terminal) == name,
        agent_label_of(None, Some(display), a, t, terminal) == display,
        agent_label_of(None, None, Some(agent), t, terminal) == agent,
        agent_label_of(None, None, None, Some(title), terminal) == title,
        agent_label_of(None, None, None, None, terminal) == terminal,
{
}

/// What an agent does survives its way through the words that tell it: one that works, waits for
/// an answer or is idle is shown so, and one that is done is shown idle and not yet seen.
pub proof fn law_status_survives_its_word(status: AgentStatus)
    ensures
        state_of_word(status_word(status)) == (match status {
            AgentStatus::Working => (AgentState::Working, true),
            AgentStatus::Blocked => (AgentState::Blocked, true),
            AgentStatus::Done => (AgentState::Idle, false),
            AgentStatus::Idle => (AgentState::Idle, true),
            AgentStatus::Unknown => (AgentState::Unknown, true),
        }),
        status_word(AgentStatus::Working) == "working"@,
{
    reveal_strlit("working");
    reveal_strlit("blocked");
    reveal_strlit("done");
    reveal_strlit("idle");
    reveal_strlit("unknown");
    assert("working"@[0] == 'w' && "blocked"@[0] == 'b' && "done"@[0] == 'd' && "idle"@[0] == 'i'
        && "unknown"@[0] == 'u');
}

/// A remote is reached as its definition says: a host over ssh with its own options, a session on
/// this machine by its name and with none.
pub proof fn law_remote_is_reached_as_defined(
    definition: RemoteView,
    host: Seq<char>,
    args: Seq<Seq<char>>,
    session: Option<Seq<char>>,
    state: ConnectionState,
)
    ensures
        connection_of(TargetView::Ssh { target: host, args }) == ConnectionView::Ssh(host),
        ssh_args_of(TargetView::Ssh { target: host, args }) == args,
        connection_of(TargetView::Local { session }) == ConnectionView::LocalSession(session),
        ssh_args_of(TargetView::Local { session }).len() == 0,
        ({
            let server = secondary_server(definition, state);
            &&& server.id == "secondary:"@ + definition.id
            &&& server.display_name == definition.name
            &&& server.role is Secondary
            &&& server.keybindings == definition.keybindings
            &&& server.disabled == definition.disabled
            &&& definition.disabled ==> server.connection_state is Disconnected
            &&& !definition.disabled ==> server.connection_state == state
            &&& server.summaries.workspaces.len() == 0
            &&& server.summaries.agents.len() == 0
            &&& definition.target is Ssh ==> server.target == ConnectionView::Ssh(
                definition.target->target,
            ) && server.ssh_args == definition.target->args
            &&& definition.target is Local ==> server.target == ConnectionView::LocalSession(
                definition.target->session,
            ) && server.ssh_args.len() == 0
        }),
        settled(true, state) == ConnectionState::Disconnected,
        settled(false, state) == state,
{
}

/// The main server is there from the start, connected, under the name given, and obeys its own
/// keys.
pub proof fn law_main_server(name: Seq<char>)
    ensures
        main_id() == "main"@,
        main_server(name).id == "main"@,
        main_server(name).display_name == name,
        main_server(name).role is Main,
        main_server(name).target is Main,
        main_server(name).ssh_args.len() == 0,
        main_server(name).keybindings == RemoteKeybindingsSnapshot::Server,
        !main_server(name).disabled,
        main_server(name).connection_state is Connected,
        main_server(name).summaries.workspaces.len() == 0,
        main_server(name).summaries.agents.len() == 0,
{
}

/// Moving the focus changes nothing of a summary but the focus: no workspace or agent comes or
/// goes, and each keeps its id, label, branch, workspace and status.
pub proof fn law_focus_changes_only_the_focus(
    s: SummaryView,
    workspace_id: Seq<char>,
    agent_id: Option<Seq<char>>,
    i: int,
)
    ensures
        ({
            let after = summary_with_focus(s, workspace_id, agent_id);
            &&& after.workspaces.len() == s.workspaces.len()
            &&& after.agents.len() == s.agents.len()
            &&& 0 <= i < s.workspaces.len() ==> {
                &&& after.workspaces[i].workspace_id == s.workspaces[i].workspace_id
                &&& after.workspaces[i].label == s.workspaces[i].label
                &&& after.workspaces[i].branch == s.workspaces[i].branch
                &&& after.workspaces[i].focused <==> s.workspaces[i].workspace_id == workspace_id
            }
            &&& 0 <= i < s.agents.len() ==> {
                &&& after.agents[i].agent_id == s.agents[i].agent_id
                &&& after.agents[i].workspace_id == s.agents[i].workspace_id
                &&& after.agents[i].label == s.agents[i].label
                &&& after.agents[i].status == s.agents[i].status
                &&& agent_id is Some ==> (after.agents[i].focused <==> s.agents[i].agent_id
                    == agent_id->0)
                &&& agent_id is None ==> (after.agents[i].focused <==> s.agents[i].focused
                    && s.agents[i].workspace_id == workspace_id)
            }
        }),
{
}

/// The workspace of an agent is the one that the first agent of that id is in, and the empty one
/// where there is no such agent.
pub proof fn law_workspace_of_agent(agents: Seq<AgentView>, id: Seq<char>, i: int)
    requires
        0 <= i < agents.len(),
        agents[i].agent_id == id,
        forall|j: int| 0 <= j < i ==> (#[trigger] agents[j]).agent_id != id,
    ensures
        workspace_of_agent(agents, id) == agents[i].workspace_id,
    decreases agents.len(),
{
    if i > 0 {
        let rest = agents.drop_first();
        assert forall|j: int| 0 <= j < i - 1 implies (#[trigger] rest[j]).agent_id != id by {
            assert(rest[j] == agents[j + 1]);
        }
        law_workspace_of_agent(rest, id, i - 1);
    }
}

/// Each workspace of a server has its row, in order, with its own id, branch and focus; it can be
/// chosen exactly while the server is connected, and its label tells the remote where the servers
/// are all shown.
pub proof fn law_each_workspace_has_its_row(server: ServerView, all_shown: bool, i: int)
    requires
        0 <= i < server.summaries.workspaces.len(),
    ensures
        rows_of_server(server, all_shown).len() == server.summaries.workspaces.len(),
        ({
            let row = rows_of_server(server, all_shown)[i];
            let told = server.summaries.workspaces[i];
            &&& row.server_id == server.id
            &&& row.workspace_id == Some(told.workspace_id)
            &&& row.branch == told.branch
            &&& row.focused == told.focused
            &&& row.disabled <==> !(server.connection_state is Connected)
            &&& all_shown && server.role is Secondary ==> row.label == server.display_name
                + seq![' '] + told.label
            &&& !all_shown || server.role is Main ==> row.label == told.label
        }),
{
    reveal_strlit(" ");
    assert(" "@ =~= seq![' ']);
}

/// A server with no workspaces has one row that cannot be chosen and says why, except the main
/// server while it is connected, which has none.
pub proof fn law_empty_server_says_why(server: ServerView, all_shown: bool)
    requires
        server.summaries.workspaces.len() == 0,
    ensures
        ({
            let rows = rows_of_server(server, all_shown);
            &&& server.connection_state is Connected && server.role is Main ==> rows.len() == 0
            &&& !(server.connection_state is Connected && server.role is Main) ==> rows.len() == 1
                && rows[0].server_id == server.id && rows[0].workspace_id is None
                && rows[0].branch is None && !rows[0].focused && rows[0].disabled
            &&& server.connection_state is Connecting ==> rows[0].label == server.display_name
                + " connecting"@
            &&& server.connection_state is Disconnected ==> rows[0].label == server.display_name
                + " offline"@
            &&& server.connection_state is ProtocolMismatch ==> rows[0].label
                == server.display_name + " protocol mismatch"@
            &&& server.connection_state is Connected && server.role is Secondary ==> rows[0].label
                == server.display_name + " no workspaces"@
        }),
{
}

/// With no filter every server is shown, in order; with one, the server that it names alone.
pub proof fn law_filter_shows_its_server(m: ModelView)
    ensures
        m.filter is None ==> visible_of(m) == m.servers,
        m.filter is Some ==> visible_of(m).len() <= 1,
        m.filter is Some && visible_of(m).len() == 1 ==> visible_of(m)[0].id == m.filter->0
            && m.servers.contains(visible_of(m)[0]),
        m.filter is Some && visible_of(m).len() == 0 ==> forall|i: int|
            0 <= i < m.servers.len() ==> (#[trigger] m.servers[i]).id != m.filter->0,
{
    if m.filter is Some {
        lemma_index_of_server(m.servers, m.filter->0);
    }
}

/// Each agent of a connected server is listed under its own workspace, with its label, its status
/// and whether it has the focus; and a group lists no agent of another workspace.
pub proof fn law_agents_are_listed_under_their_workspace(
    server: ServerView,
    workspace: WorkspaceView,
    all_shown: bool,
    i: int,
)
    ensures
        0 <= i < server.summaries.agents.len() && server.summaries.agents[i].workspace_id
            == workspace.workspace_id ==> {
            let told = server.summaries.agents[i];
            let group = group_of(server, workspace, all_shown);
            &&& group is Some
            &&& exists|k: int|
                0 <= k < group->0.agents.len() && (#[trigger] group->0.agents[k]).agent_id
                    == told.agent_id && group->0.agents[k].label == told.label
                    && group->0.agents[k].status == told.status && group->0.agents[k].focused
                    == told.focused
            &&& told.focused ==> group->0.focused
        },
        group_of(server, workspace, all_shown) is Some ==> {
            let group = group_of(server, workspace, all_shown)->0;
            &&& group.server_id == server.id
            &&& group.workspace_id == workspace.workspace_id
            &&& group.agents.len() > 0
            &&& workspace.focused ==> group.focused
            &&& forall|k: int|
                0 <= k < group.agents.len() ==> exists|j: int|
                    0 <= j < server.summaries.agents.len()
                        && (#[trigger] server.summaries.agents[j]).workspace_id
                        == workspace.workspace_id && server.summaries.agents[j].agent_id
                        == (#[trigger] group.agents[k]).agent_id
        },
        (forall|j: int|
            0 <= j < server.summaries.agents.len()
                ==> (#[trigger] server.summaries.agents[j]).workspace_id
                != workspace.workspace_id) ==> group_of(server, workspace, all_shown) is None,
{
    let agents = server.summaries.agents;
    let f = |a: AgentView| agent_row(a, workspace.workspace_id);
    let listed = agent_rows(agents, workspace.workspace_id);
    if 0 <= i < agents.len() && agents[i].workspace_id == workspace.workspace_id {
        assert(f(agents[i]) is Some);
        let k = lemma_pick_covers(agents, f, i);
        let group = group_of(server, workspace, all_shown);
        assert(group is Some && group->0.agents == listed);
        assert(group->0.agents[k] == f(agents[i])->0);
        if agents[i].focused {
            assert(listed[k].focused);
            assert(any_focused(listed));
        }
    }
    assert forall|k: int| 0 <= k < listed.len() implies exists|j: int|
        0 <= j < agents.len() && (#[trigger] agents[j]).workspace_id == workspace.workspace_id
            && agents[j].agent_id == (#[trigger] listed[k]).agent_id by {
        let j = lemma_pick_source(agents, f, k);
        assert(f(agents[j]) == Some(listed[k]));
    }
    if forall|j: int|
        0 <= j < agents.len() ==> (#[trigger] agents[j]).workspace_id != workspace.workspace_id {
        if listed.len() > 0 {
            let j = lemma_pick_source(agents, f, 0);
            assert(f(agents[j]) == Some(listed[0]));
        }
    }
}

/// A connected server lists a group for each of its workspaces that has an agent, and every group
/// that it lists is one of those.
pub proof fn law_connected_server_lists_its_agents(
    server: ServerView,
    all_shown: bool,
    w: int,
    k: int,
)
    requires
        server.connection_state is Connected,
    ensures
        0 <= w < server.summaries.workspaces.len() && group_of(
            server,
            server.summaries.workspaces[w],
            all_shown,
        ) is Some ==> groups_of_server(server, all_shown).contains(
            group_of(server, server.summaries.workspaces[w], all_shown)->0,
        ),
        0 <= k < groups_of_server(server, all_shown).len() ==> exists|j: int|
            0 <= j < server.summaries.workspaces.len() && (
            #[trigger] server.summaries.workspaces[j]).workspace_id == groups_of_server(
                server,
                all_shown,
            )[k].workspace_id,
{
    let spaces = server.summaries.workspaces;
    let f = |x: WorkspaceView| group_of(server, x, all_shown);
    let groups = groups_of_server(server, all_shown);
    if 0 <= w < spaces.len() && group_of(server, spaces[w], all_shown) is Some {
        assert(f(spaces[w]) is Some);
        let at = lemma_pick_covers(spaces, f, w);
        assert(groups[at] == f(spaces[w])->0);
    }
    if 0 <= k < groups.len() {
        let j = lemma_pick_source(spaces, f, k);
        assert(f(spaces[j]) == Some(groups[k]));
        assert(spaces[j].workspace_id == groups[k].workspace_id);
    }
}

/// A server that is not connected lists no agents.
pub proof fn law_agents_need_a_connection(server: ServerView, all_shown: bool)
    requires
        !(server.connection_state is Connected),
    ensures
        groups_of_server(server, all_shown).len() == 0,
{
}

/// The sidebar shows each row as it is: its place, its label, its branch and whether it can be
/// chosen; a row of another server than the main one is a remote's.
pub proof fn law_planned_row_shows_its_row(
    rows: Seq<RowView>,
    groups: Seq<GroupView>,
    since: Seq<SinceView>,
    now: u64,
    k: int,
)
    requires
        0 <= k < rows.len(),
    ensures
        planned_rows(rows, groups, since, now).len() == rows.len(),
        ({
            let shown = planned_rows(rows, groups, since, now)[k];
            &&& shown.server_id == rows[k].server_id
            &&& shown.workspace_id == rows[k].workspace_id
            &&& rows[k].workspace_id is Some ==> shown.key == rows[k].workspace_id->0
            &&& shown.label == rows[k].label
            &&& shown.branch == rows[k].branch
            &&& shown.disabled == rows[k].disabled
            &&& shown.is_remote <==> rows[k].server_id != "main"@
            &&& rows[k].workspace_id is None ==> shown.agents.len() == 0
            &&& shown.agents.len() == agents_of_row(rows, groups, k).len()
        }),
{
}

/// An agent is shown under its own label and in the state that its status tells; since when it
/// has worked is shown exactly while it works, and is now where it was not known before.
pub proof fn law_planned_agent_shows_its_agent(
    agent: AgentRowView,
    server_id: Seq<char>,
    since: Seq<SinceView>,
    now: u64,
)
    ensures
        ({
            let shown = planned_agent(agent, server_id, since, now);
            &&& shown.agent_id == agent.agent_id
            &&& shown.label == agent.label
            &&& agent.status == "working"@ ==> shown.state is Working && shown.seen
            &&& agent.status == "blocked"@ ==> shown.state is Blocked && shown.seen
            &&& agent.status == "done"@ ==> shown.state is Idle && !shown.seen
            &&& agent.status == "idle"@ ==> shown.state is Idle && shown.seen
            &&& shown.working_since is Some <==> agent.status == "working"@
            &&& agent.status == "working"@ ==> shown.working_since->0 == (match since_of(
                since,
                server_id,
                agent.agent_id,
            ) {
                Some(start) => start,
                None => now,
            })
        }),
{
    reveal_strlit("working");
    reveal_strlit("blocked");
    reveal_strlit("done");
    reveal_strlit("idle");
    assert("working"@[0] == 'w' && "blocked"@[0] == 'b' && "done"@[0] == 'd' && "idle"@[0] == 'i');
}

/// A row shows the agents of its own workspace on its own server, unless an earlier row for the
/// same workspace shows them already.
pub proof fn law_row_shows_the_agents_of_its_workspace(
    rows: Seq<RowView>,
    group: GroupView,
    k: int,
    server_id: Seq<char>,
    workspace_id: Seq<char>,
)
    requires
        0 <= k < rows.len(),
        rows[k].server_id == server_id,
        rows[k].workspace_id == Some(workspace_id),
        forall|j: int|
            0 <= j < k ==> (#[trigger] rows[j]).server_id != server_id || rows[j].workspace_id
                != Some(workspace_id),
    ensures
        group.server_id == server_id && group.workspace_id == workspace_id ==> agents_of_row(
            rows,
            seq![group],
            k,
        ) == group.agents,
        group.server_id != server_id || group.workspace_id != workspace_id ==> agents_of_row(
            rows,
            seq![group],
            k,
        ).len() == 0,
{
    let f = |g: GroupView| group_agents(g, server_id, workspace_id);
    let one = seq![group];
    assert(!crate::sidebar_plan::shown_before(rows, k));
    reveal_with_fuel(flat, 2);
    assert(one.drop_last() =~= Seq::<GroupView>::empty());
    assert(flat(one, f) =~= f(group));
}

proof fn lemma_last_focused(rows: Seq<RowView>, groups: Seq<GroupView>, n: int)
    ensures
        match last_focused(rows, groups, n) {
            Some(k) => 0 <= k < n && row_has_focus(rows, groups, k) && forall|j: int|
                k < j < n ==> !#[trigger] row_has_focus(rows, groups, j),
            None => forall|j: int| 0 <= j < n ==> !#[trigger] row_has_focus(rows, groups, j),
        },
    decreases n,
{
    if n > 0 && !row_has_focus(rows, groups, n - 1) {
        lemma_last_focused(rows, groups, n - 1);
    }
}

proof fn lemma_first_focused(agents: Seq<AgentRowView>)
    ensures
        match first_focused(agents) {
            Some(i) => 0 <= i < agents.len() && agents[i].focused && forall|j: int|
                0 <= j < i ==> !(#[trigger] agents[j]).focused,
            None => forall|j: int| 0 <= j < agents.len() ==> !(#[trigger] agents[j]).focused,
        },
    decreases agents.len(),
{
    if agents.len() > 0 && !agents[0].focused {
        let rest = agents.drop_first();
        lemma_first_focused(rest);
        match first_focused(rest) {
            Some(i) => {
                assert(agents[i + 1] == rest[i]);
                assert forall|j: int| 0 <= j < i + 1 implies !(#[trigger] agents[j]).focused by {
                    if j > 0 {
                        assert(rest[j - 1] == agents[j]);
                    }
                }
            },
            None => {
                assert forall|j: int| 0 <= j < agents.len() implies !(
                #[trigger] agents[j]).focused by {
                    if j > 0 {
                        assert(rest[j - 1] == agents[j]);
                    }
                }
            },
        }
    }
}

/// The selected row is the last that has the focus, itself or through an agent, and the first row
/// where none has it.
pub proof fn law_selected_row_has_the_focus(rows: Seq<RowView>, groups: Seq<GroupView>, k: int)
    ensures
        rows.len() == 0 ==> selected_row(rows, groups) is None,
        rows.len() > 0 ==> selected_row(rows, groups) is Some && 0 <= selected_row(
            rows,
            groups,
        )->0 < rows.len(),
        0 <= k < rows.len() && rows[k].focused ==> {
            let at = selected_row(rows, groups)->0;
            &&& at >= k
            &&& rows[at].focused || exists|i: int|
                0 <= i < agents_of_row(rows, groups, at).len() && (#[trigger] agents_of_row(
                    rows,
                    groups,
                    at,
                )[i]).focused
        },
{
    lemma_last_focused(rows, groups, rows.len() as int);
    if 0 <= k < rows.len() && rows[k].focused {
        assert(row_has_focus(rows, groups, k));
        let at = selected_row(rows, groups)->0;
        lemma_first_focused(agents_of_row(rows, groups, at));
    }
}

/// Each remote that is shown has a banner with its name, above the first of its rows; the main
/// server has none.
pub proof fn law_each_remote_has_its_banner(servers: Seq<ServerView>, all_shown: bool, n: int, j: int)
    requires
        0 <= j < n <= servers.len(),
    ensures
        servers[j].role is Secondary ==> exists|k: int|
            0 <= k < banners_above(servers, all_shown, n).len() && (#[trigger] banners_above(
                servers,
                all_shown,
                n,
            )[k]).display_name == servers[j].display_name && banners_above(
                servers,
                all_shown,
                n,
            )[k].row == flat(
                servers.take(j),
                |s: ServerView| rows_of_server(s, all_shown),
            ).len(),
        (forall|i: int| 0 <= i < n ==> (#[trigger] servers[i]).role is Main) ==> banners_above(
            servers,
            all_shown,
            n,
        ).len() == 0,
    decreases n,
{
    let before = banners_above(servers, all_shown, n - 1);
    let after = banners_above(servers, all_shown, n);
    if servers[j].role is Secondary {
        if j == n - 1 {
            assert(after[after.len() - 1].display_name == servers[j].display_name);
        } else {
            law_each_remote_has_its_banner(servers, all_shown, n - 1, j);
            let k = choose|k: int|
                0 <= k < before.len() && (#[trigger] before[k]).display_name
                    == servers[j].display_name && before[k].row == flat(
                    servers.take(j),
                    |s: ServerView| rows_of_server(s, all_shown),
                ).len();
            assert(after[k] == before[k]);
        }
    }
    if forall|i: int| 0 <= i < n ==> (#[trigger] servers[i]).role is Main {
        assert(servers[n - 1].role is Main);
        if n > 1 {
            law_each_remote_has_its_banner(servers, all_shown, n - 1, 0);
        }
    }
}

} // verus!
