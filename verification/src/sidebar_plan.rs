//! What the sidebar is to show: the rows with their agents, the row that is selected, and where a
//! click on a row or an agent goes.

use vstd::prelude::*;

use crate::seqs::{flat, lemma_flat_step};
use crate::servers::{main_id, ServerId};
use crate::supervisor::rows::{
    agent_groups_of, workspace_rows_of, AgentRowView, AgentSidebarGroup, AgentSidebarRow,
    GroupView, RowView, WorkspaceSidebarRow,
};
use crate::supervisor::{ClientSupervisorModel, ModelView};
use crate::text;
use crate::text::decimal;

verus! {

/// What an agent is shown to be doing.
#[derive(Debug, Clone, Copy, PartialEq, Eq, Structural)]
pub enum AgentState {
    Working,
    Blocked,
    Idle,
    Unknown,
}

/// What the word for a status shows: the state, and whether the user has seen it.
pub open spec fn state_of_word(status: Seq<char>) -> (AgentState, bool) {
    if status == "working"@ {
        (AgentState::Working, true)
    } else if status == "blocked"@ {
        (AgentState::Blocked, true)
    } else if status == "done"@ {
        (AgentState::Idle, false)
    } else if status == "idle"@ {
        (AgentState::Idle, true)
    } else {
        (AgentState::Unknown, true)
    }
}

/// What the word for a status shows.
pub fn agent_state_from_status(status: &str) -> (r: (AgentState, bool))
    ensures
        r == state_of_word(status@),
{
    if text::same(status, "working") {
        (AgentState::Working, true)
    } else if text::same(status, "blocked") {
        (AgentState::Blocked, true)
    } else if text::same(status, "done") {
        (AgentState::Idle, false)
    } else if text::same(status, "idle") {
        (AgentState::Idle, true)
    } else {
        (AgentState::Unknown, true)
    }
}

/// When an agent was first seen working, in milliseconds.
#[derive(Debug)]
pub struct WorkingSince {
    pub server_id: ServerId,
    pub agent_id: String,
    pub since: u64,
}

/// When an agent was first seen working, as a mathematical value.
#[verifier::ext_equal]
pub struct SinceView {
    pub server_id: Seq<char>,
    pub agent_id: Seq<char>,
    pub since: u64,
}

impl DeepView for WorkingSince {
    type V = SinceView;

    open spec fn deep_view(&self) -> SinceView {
        SinceView { server_id: self.server_id@, agent_id: self.agent_id@, since: self.since }
    }
}

/// When an agent was first seen working.
pub open spec fn since_of(
    entries: Seq<SinceView>,
    server_id: Seq<char>,
    agent_id: Seq<char>,
) -> Option<u64>
    decreases entries.len(),
{
    if entries.len() == 0 {
        None
    } else if entries[0].server_id == server_id && entries[0].agent_id == agent_id {
        Some(entries[0].since)
    } else {
        since_of(entries.drop_first(), server_id, agent_id)
    }
}

/// When an agent was first seen working.
pub(crate) fn find_since(
    entries: &Vec<WorkingSince>,
    server_id: &ServerId,
    agent_id: &String,
) -> (r: Option<u64>)
    ensures
        r == since_of(entries.deep_view(), server_id@, agent_id@),
{
    let ghost all = entries.deep_view();
    let mut i: usize = 0;
    assert(all.skip(0) =~= all);
    while i < entries.len()
        invariant
            i <= entries@.len(),
            all == entries.deep_view(),
            since_of(all, server_id@, agent_id@) == since_of(
                all.skip(i as int),
                server_id@,
                agent_id@,
            ),
        decreases entries@.len() - i,
    {
        assert(all.skip(i as int)[0] == entries@[i as int].deep_view());
        if entries[i].server_id.is(server_id) && entries[i].agent_id == *agent_id {
            return Some(entries[i].since);
        }
        assert(all.skip(i as int).drop_first() =~= all.skip(i + 1));
        i = i + 1;
    }
    None
}

/// An agent as it is to be shown.
#[derive(Debug, PartialEq, Eq)]
pub struct PlannedAgent {
    pub agent_id: String,
    pub label: String,
    pub state: AgentState,
    pub seen: bool,
    /// Since when a working agent works.
    pub working_since: Option<u64>,
}

/// A row as it is to be shown, with its agents.
#[derive(Debug, PartialEq, Eq)]
pub struct PlannedRow {
    pub server_id: ServerId,
    pub workspace_id: Option<String>,
    /// The workspace id, or a name for a row without one.
    pub key: String,
    pub label: String,
    pub branch: Option<String>,
    pub disabled: bool,
    pub is_remote: bool,
    pub agents: Vec<PlannedAgent>,
    pub focused_agent: Option<usize>,
}

/// An agent that a click leads to.
#[derive(Debug, PartialEq, Eq)]
pub struct AgentRoute {
    pub server_id: ServerId,
    pub agent_id: String,
}

/// What the sidebar is to show.
#[derive(Debug, PartialEq, Eq)]
pub struct SidebarPlan {
    pub rows: Vec<PlannedRow>,
    pub agent_routes: Vec<AgentRoute>,
    /// The selected row, where there is any.
    pub selected: Option<usize>,
}

#[verifier::ext_equal]
pub struct PlannedAgentView {
    pub agent_id: Seq<char>,
    pub label: Seq<char>,
    pub state: AgentState,
    pub seen: bool,
    pub working_since: Option<u64>,
}

#[verifier::ext_equal]
pub struct PlannedRowView {
    pub server_id: Seq<char>,
    pub workspace_id: Option<Seq<char>>,
    pub key: Seq<char>,
    pub label: Seq<char>,
    pub branch: Option<Seq<char>>,
    pub disabled: bool,
    pub is_remote: bool,
    pub agents: Seq<PlannedAgentView>,
    pub focused_agent: Option<int>,
}

#[verifier::ext_equal]
pub struct AgentRouteView {
    pub server_id: Seq<char>,
    pub agent_id: Seq<char>,
}

impl DeepView for PlannedAgent {
    type V = PlannedAgentView;

    open spec fn deep_view(&self) -> PlannedAgentView {
        PlannedAgentView {
            agent_id: self.agent_id@,
            label: self.label@,
            state: self.state,
            seen: self.seen,
            working_since: self.working_since,
        }
    }
}

impl DeepView for PlannedRow {
    type V = PlannedRowView;

    open spec fn deep_view(&self) -> PlannedRowView {
        PlannedRowView {
            server_id: self.server_id@,
            workspace_id: self.workspace_id.deep_view(),
            key: self.key@,
            label: self.label@,
            branch: self.branch.deep_view(),
            disabled: self.disabled,
            is_remote: self.is_remote,
            agents: self.agents.deep_view(),
            focused_agent: match self.focused_agent {
                Some(i) => Some(i as int),
                None => None,
            },
        }
    }
}

impl DeepView for AgentRoute {
    type V = AgentRouteView;

    open spec fn deep_view(&self) -> AgentRouteView {
        AgentRouteView { server_id: self.server_id@, agent_id: self.agent_id@ }
    }
}

/// The agents of a group, where it is that of this workspace.
pub open spec fn group_agents(
    group: GroupView,
    server_id: Seq<char>,
    workspace_id: Seq<char>,
) -> Seq<AgentRowView> {
    if group.server_id == server_id && group.workspace_id == workspace_id {
        group.agents
    } else {
        Seq::empty()
    }
}

/// The agents of a workspace, from all its groups.
pub open spec fn grouped_agents(
    groups: Seq<GroupView>,
    server_id: Seq<char>,
    workspace_id: Seq<char>,
) -> Seq<AgentRowView> {
    flat(groups, |g: GroupView| group_agents(g, server_id, workspace_id))
}

/// Whether an earlier row shows the same workspace.
pub open spec fn shown_before(rows: Seq<RowView>, k: int) -> bool {
    exists|j: int|
        0 <= j < k && (#[trigger] rows[j]).server_id == rows[k].server_id && rows[j].workspace_id
            == rows[k].workspace_id
}

/// The agents of a row: those of its workspace, under the first row that shows it.
pub open spec fn agents_of_row(
    rows: Seq<RowView>,
    groups: Seq<GroupView>,
    k: int,
) -> Seq<AgentRowView> {
    match rows[k].workspace_id {
        None => Seq::empty(),
        Some(workspace_id) => if shown_before(rows, k) {
            Seq::empty()
        } else {
            grouped_agents(groups, rows[k].server_id, workspace_id)
        },
    }
}

/// The first agent that has the focus.
pub open spec fn first_focused(agents: Seq<AgentRowView>) -> Option<int>
    decreases agents.len(),
{
    if agents.len() == 0 {
        None
    } else if agents[0].focused {
        Some(0)
    } else {
        match first_focused(agents.drop_first()) {
            Some(i) => Some(i + 1),
            None => None,
        }
    }
}

/// An agent as it is to be shown. One that works has done so since it was first seen to, or just
/// now.
pub open spec fn planned_agent(
    agent: AgentRowView,
    server_id: Seq<char>,
    since: Seq<SinceView>,
    now: u64,
) -> PlannedAgentView {
    let (state, seen) = state_of_word(agent.status);
    PlannedAgentView {
        agent_id: agent.agent_id,
        label: agent.label,
        state,
        seen,
        working_since: if state == AgentState::Working {
            Some(
                match since_of(since, server_id, agent.agent_id) {
                    Some(start) => start,
                    None => now,
                },
            )
        } else {
            None
        },
    }
}

/// The name of a row without a workspace.
pub open spec fn placeholder_key(k: int) -> Seq<char> {
    "client-sidebar-row-"@ + decimal(k as nat)
}

/// A row as it is to be shown.
pub open spec fn planned_row(
    rows: Seq<RowView>,
    groups: Seq<GroupView>,
    since: Seq<SinceView>,
    now: u64,
    k: int,
) -> PlannedRowView {
    let row = rows[k];
    let agents = agents_of_row(rows, groups, k);
    PlannedRowView {
        server_id: row.server_id,
        workspace_id: row.workspace_id,
        key: match row.workspace_id {
            Some(id) => id,
            None => placeholder_key(k),
        },
        label: row.label,
        branch: row.branch,
        disabled: row.disabled,
        is_remote: row.server_id != main_id(),
        agents: agents.map_values(|a: AgentRowView| planned_agent(a, row.server_id, since, now)),
        focused_agent: first_focused(agents),
    }
}

/// The rows as they are to be shown.
pub open spec fn planned_rows(
    rows: Seq<RowView>,
    groups: Seq<GroupView>,
    since: Seq<SinceView>,
    now: u64,
) -> Seq<PlannedRowView> {
    Seq::new(rows.len(), |k: int| planned_row(rows, groups, since, now, k))
}

/// Whether a row, or one of its agents, has the focus.
pub open spec fn row_has_focus(rows: Seq<RowView>, groups: Seq<GroupView>, k: int) -> bool {
    rows[k].focused || first_focused(agents_of_row(rows, groups, k)) is Some
}

/// The last of the first `n` rows that has the focus.
pub open spec fn last_focused(rows: Seq<RowView>, groups: Seq<GroupView>, n: int) -> Option<int>
    decreases n,
{
    if n <= 0 {
        None
    } else if row_has_focus(rows, groups, n - 1) {
        Some(n - 1)
    } else {
        last_focused(rows, groups, n - 1)
    }
}

/// The selected row: the last one that has the focus, or the first one.
pub open spec fn selected_row(rows: Seq<RowView>, groups: Seq<GroupView>) -> Option<int> {
    if rows.len() == 0 {
        None
    } else {
        match last_focused(rows, groups, rows.len() as int) {
            Some(k) => Some(k),
            None => Some(0),
        }
    }
}

/// The agents of a row as routes.
pub open spec fn routes_of_row(row: PlannedRowView) -> Seq<AgentRouteView> {
    row.agents.map_values(
        |a: PlannedAgentView| AgentRouteView { server_id: row.server_id, agent_id: a.agent_id },
    )
}

/// The agents of all rows as routes, in the order in which they are shown.
pub open spec fn agent_routes_of(rows: Seq<PlannedRowView>) -> Seq<AgentRouteView> {
    flat(rows, |r: PlannedRowView| routes_of_row(r))
}

/// What the sidebar is to show of a model.
pub open spec fn plan_is(plan: SidebarPlan, m: ModelView, since: Seq<SinceView>, now: u64) -> bool {
    let rows = planned_rows(workspace_rows_of(m), agent_groups_of(m), since, now);
    &&& plan.rows.deep_view() == rows
    &&& plan.agent_routes.deep_view() == agent_routes_of(rows)
    &&& (match plan.selected {
        Some(i) => Some(i as int),
        None => None,
    }) == selected_row(workspace_rows_of(m), agent_groups_of(m))
}

/// The agents of a workspace, from all its groups, as they are to be shown; and the first one
/// that has the focus.
fn plan_agents(
    groups: &Vec<AgentSidebarGroup>,
    server_id: &ServerId,
    workspace_id: &String,
    since: &Vec<WorkingSince>,
    now: u64,
) -> (r: (Vec<PlannedAgent>, Option<usize>))
    ensures
        ({
            let agents = grouped_agents(groups.deep_view(), server_id@, workspace_id@);
            &&& r.0.deep_view() == agents.map_values(
                |a: AgentRowView| planned_agent(a, server_id@, since.deep_view(), now),
            )
            &&& (match r.1 {
                Some(i) => Some(i as int),
                None => None,
            }) == first_focused(agents)
        }),
{
    let ghost all = groups.deep_view();
    let ghost f = |g: GroupView| group_agents(g, server_id@, workspace_id@);
    let ghost p = |a: AgentRowView| planned_agent(a, server_id@, since.deep_view(), now);
    let mut planned: Vec<PlannedAgent> = Vec::new();
    let mut focused: Option<usize> = None;
    let mut i: usize = 0;
    assert(flat(all.take(0), f) =~= Seq::<AgentRowView>::empty());
    assert(planned.deep_view() =~= flat(all.take(0), f).map_values(p));
    while i < groups.len()
        invariant
            i <= groups@.len(),
            all == groups.deep_view(),
            f == (|g: GroupView| group_agents(g, server_id@, workspace_id@)),
            p == (|a: AgentRowView| planned_agent(a, server_id@, since.deep_view(), now)),
            planned.deep_view() =~= flat(all.take(i as int), f).map_values(p),
            (match focused {
                Some(k) => Some(k as int),
                None => None,
            }) == first_focused(flat(all.take(i as int), f)),
        decreases groups@.len() - i,
    {
        let group: &AgentSidebarGroup = &groups[i];
        let ghost done = flat(all.take(i as int), f);
        let ghost members = group.agents.deep_view();
        assert(all[i as int] == group.deep_view());
        proof {
            lemma_flat_step(all, i as int, f);
        }
        if group.server_id.is(server_id) && group.workspace_id == *workspace_id {
            let mut j: usize = 0;
            assert(done + members.take(0) =~= done);
            while j < group.agents.len()
                invariant
                    j <= group.agents@.len(),
                    members == group.agents.deep_view(),
                    p == (|a: AgentRowView| planned_agent(a, server_id@, since.deep_view(), now)),
                    planned.deep_view() =~= (done + members.take(j as int)).map_values(p),
                    (match focused {
                        Some(k) => Some(k as int),
                        None => None,
                    }) == first_focused(done + members.take(j as int)),
                decreases group.agents@.len() - j,
            {
                let agent: &AgentSidebarRow = &group.agents[j];
                assert(members[j as int] == agent.deep_view());
                let ghost before = done + members.take(j as int);
                let ghost after = done + members.take(j + 1);
                assert(after =~= before.push(agent.deep_view()));
                proof {
                    lemma_first_focused_push(before, agent.deep_view());
                    assert(planned.deep_view().len() == before.len());
                }
                if agent.focused && focused.is_none() {
                    focused = Some(planned.len());
                }
                let (state, seen) = agent_state_from_status(agent.status.as_str());
                let working_since: Option<u64> = if state == AgentState::Working {
                    match find_since(since, server_id, &agent.agent_id) {
                        Some(start) => Some(start),
                        None => Some(now),
                    }
                } else {
                    None
                };
                let shown: PlannedAgent = PlannedAgent {
                    agent_id: agent.agent_id.clone(),
                    label: agent.label.clone(),
                    state,
                    seen,
                    working_since,
                };
                let ghost listed = planned.deep_view();
                planned.push(shown);
                assert(planned.deep_view() =~= listed.push(shown.deep_view()));
                j = j + 1;
            }
            assert(members.take(j as int) =~= members);
        } else {
            assert(done + Seq::<AgentRowView>::empty() =~= done);
        }
        i = i + 1;
    }
    assert(all.take(i as int) =~= all);
    (planned, focused)
}

proof fn lemma_first_focused_push(agents: Seq<AgentRowView>, agent: AgentRowView)
    ensures
        first_focused(agents.push(agent)) == (match first_focused(agents) {
            Some(i) => Some(i),
            None => if agent.focused {
                Some(agents.len() as int)
            } else {
                None
            },
        }),
    decreases agents.len(),
{
    let grown = agents.push(agent);
    if agents.len() == 0 {
        assert(grown.drop_first() =~= Seq::<AgentRowView>::empty());
        assert(first_focused(grown.drop_first()) is None);
    } else {
        lemma_first_focused_push(agents.drop_first(), agent);
        assert(grown.drop_first() =~= agents.drop_first().push(agent));
        assert(grown[0] == agents[0]);
    }
}

/// Whether an earlier row shows the same workspace.
fn is_shown_before(rows: &Vec<WorkspaceSidebarRow>, k: usize) -> (r: bool)
    requires
        k < rows@.len(),
        rows@[k as int].workspace_id is Some,
    ensures
        r == shown_before(rows.deep_view(), k as int),
{
    let ghost all = rows.deep_view();
    let row: &WorkspaceSidebarRow = &rows[k];
    assert(all[k as int] == row.deep_view());
    let mut j: usize = 0;
    while j < k
        invariant
            j <= k < rows@.len(),
            all == rows.deep_view(),
            *row == rows@[k as int],
            row.workspace_id is Some,
            all[k as int] == row.deep_view(),
            forall|i: int|
                0 <= i < j ==> !((#[trigger] all[i]).server_id == all[k as int].server_id
                    && all[i].workspace_id == all[k as int].workspace_id),
        decreases k - j,
    {
        assert(all[j as int] == rows@[j as int].deep_view());
        let same_workspace: bool = match (&rows[j].workspace_id, &row.workspace_id) {
            (Some(a), Some(b)) => *a == *b,
            _ => false,
        };
        if same_workspace && rows[j].server_id.is(&row.server_id) {
            return true;
        }
        j = j + 1;
    }
    false
}

/// What the sidebar is to show of a model. `since` says when agents were first seen working.
pub fn sidebar_plan(model: &ClientSupervisorModel, since: &Vec<WorkingSince>, now: u64) -> (r:
    SidebarPlan)
    ensures
        plan_is(r, model@, since.deep_view(), now),
{
    let rows: Vec<WorkspaceSidebarRow> = model.workspace_rows();
    let groups: Vec<AgentSidebarGroup> = model.agent_groups();
    let ghost all = rows.deep_view();
    let ghost listed = groups.deep_view();
    let ghost starts = since.deep_view();
    let ghost wanted = planned_rows(all, listed, starts, now);
    let ghost f = |r: PlannedRowView| routes_of_row(r);
    let mut planned: Vec<PlannedRow> = Vec::new();
    let mut routes: Vec<AgentRoute> = Vec::new();
    let mut active: Option<usize> = None;
    let mut k: usize = 0;
    assert(routes.deep_view() =~= flat(wanted.take(0), f));
    while k < rows.len()
        invariant
            k <= rows@.len(),
            all == rows.deep_view(),
            listed == groups.deep_view(),
            starts == since.deep_view(),
            wanted == planned_rows(all, listed, starts, now),
            f == (|r: PlannedRowView| routes_of_row(r)),
            planned.deep_view() =~= wanted.take(k as int),
            routes.deep_view() =~= flat(wanted.take(k as int), f),
            (match active {
                Some(i) => Some(i as int),
                None => None,
            }) == last_focused(all, listed, k as int),
            active is Some ==> active->0 < k,
        decreases rows@.len() - k,
    {
        let row: &WorkspaceSidebarRow = &rows[k];
        assert(all[k as int] == row.deep_view());
        let ghost agents = agents_of_row(all, listed, k as int);
        let (planned_agents, focused_agent): (Vec<PlannedAgent>, Option<usize>) =
            match &row.workspace_id {
            Some(workspace_id) => {
                if is_shown_before(&rows, k) {
                    (Vec::new(), None)
                } else {
                    plan_agents(&groups, &row.server_id, workspace_id, since, now)
                }
            },
            None => (Vec::new(), None),
        };
        assert(planned_agents.deep_view() =~= agents.map_values(
            |a: AgentRowView| planned_agent(a, row.server_id@, starts, now),
        ));
        if row.focused || focused_agent.is_some() {
            active = Some(k);
        }
        let key: String = match &row.workspace_id {
            Some(workspace_id) => workspace_id.clone(),
            None => {
                let mut name: String = "client-sidebar-row-".to_owned();
                name.append(text::decimal_of(k as u128).as_str());
                name
            },
        };
        let main: ServerId = ServerId::main();
        let is_remote: bool = !row.server_id.is(&main);
        let mut j: usize = 0;
        let ghost routed = routes.deep_view();
        let ghost shown = planned_agents.deep_view();
        let ghost g = |a: PlannedAgentView|
            AgentRouteView { server_id: row.server_id@, agent_id: a.agent_id };
        assert(routed + shown.take(0).map_values(g) =~= routed);
        while j < planned_agents.len()
            invariant
                j <= planned_agents@.len(),
                shown == planned_agents.deep_view(),
                g == (|a: PlannedAgentView|
                    AgentRouteView { server_id: row.server_id@, agent_id: a.agent_id }),
                routes.deep_view() =~= routed + shown.take(j as int).map_values(g),
            decreases planned_agents@.len() - j,
        {
            let ghost before = routes.deep_view();
            assert(shown[j as int] == planned_agents@[j as int].deep_view());
            let route: AgentRoute = AgentRoute {
                server_id: row.server_id.clone(),
                agent_id: planned_agents[j].agent_id.clone(),
            };
            routes.push(route);
            assert(routes.deep_view() =~= before.push(route.deep_view()));
            j = j + 1;
        }
        assert(shown.take(j as int) =~= shown);
        let planned_row: PlannedRow = PlannedRow {
            server_id: row.server_id.clone(),
            workspace_id: text::clone_option(&row.workspace_id),
            key,
            label: row.label.clone(),
            branch: text::clone_option(&row.branch),
            disabled: row.disabled,
            is_remote,
            agents: planned_agents,
            focused_agent,
        };
        proof {
            assert(planned_row.deep_view() =~= wanted[k as int]);
            lemma_flat_step(wanted, k as int, f);
        }
        let ghost before = planned.deep_view();
        planned.push(planned_row);
        assert(planned.deep_view() =~= before.push(planned_row.deep_view()));
        k = k + 1;
    }
    assert(wanted.take(k as int) =~= wanted);
    let selected: Option<usize> = if planned.len() == 0 {
        None
    } else {
        match active {
            Some(i) => Some(i),
            None => Some(0),
        }
    };
    assert(planned.deep_view().len() == planned@.len());
    SidebarPlan { rows: planned, agent_routes: routes, selected }
}

} // verus!
