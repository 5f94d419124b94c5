//! How the client keeps up: what it starts with, what it follows and tries, what it draws, and how
//! input finds its way.

use vstd::prelude::*;

use crate::add_remote::reply_comes_to;
use crate::api::{SuccessResponse, UiSettingsInfo};
use crate::bundle::{extract_outcome, inflated, EntryView, ExtractErrorView};
use crate::client::{bridge_to, ApiTargetView, BridgeView, ClientError, ClientRenderPlan, SshBridge};
use crate::client_loop::{add_remote_done, input_outcome, is_forwarded, ActionView, LoopOutcome};
use crate::client_state::{
    attach_failed, connect_failed, disabled_id, follows, new_follows, plan_named, reachable,
    stream_attached, try_done, ClientState, StateView, TryOutcome,
};
use crate::compositor::{
    new_compositor, snapshot_is, working_route, ClientCompositor, ClientSidebarSnapshot,
    CompositorView,
};
use crate::dispatch::{ends_input, input_leaves, mouse_dispatched, Dispatched, DispatchView};
use crate::frame::contains;
use crate::graphics::{
    byte_index, command_end, command_id, command_start, found_at, image_ids, lemma_found_at,
    part_id, stands_at,
};
use crate::input::RawInputEvent;
use crate::layout::SidebarLayout;
use crate::remote::probed_path;
use crate::remote_registry::RemoteDefinitionSnapshot;
use crate::servers::{summary_of, ConnectionView, ServerId, ServerSummary, ServerView};
use crate::sidebar_plan::AgentRouteView;
use crate::startup::{initial_state, streams_opened, ClientSettings};
use crate::supervisor::routes::PlanView;
use crate::supervisor::rows::AgentRowView;
use crate::supervisor::{fetches_applied, filter_set, ClientSupervisorModel, FetchView, ModelView};
use crate::supervisor_api::{
    agents_of, main_summary_read, started, summary_is, unexpected, workspaces_of, Reply,
};
use crate::text::{decimal, is_digit, lemma_decimal_value, number_value};

verus! {

/// A client starts with the main server's stream and those that were opened, with nothing drawn or
/// tried yet; it has a sidebar of twenty-six columns where its plan says so, and waits for no
/// prefix unless it is attached to one terminal.
pub proof fn law_first_state(
    model: Option<ClientSupervisorModel>,
    plan: &ClientRenderPlan,
    settings: ClientSettings,
    streams: Vec<ServerId>,
    bridges: Vec<SshBridge>,
    now: u64,
    r: ClientState,
    i: int,
)
    requires
        call_ensures(initial_state, (model, plan, settings, streams, bridges, now), r),
    ensures
        r@.model is Some <==> model is Some,
        model is Some ==> r@.model == Some(model->0@),
        plan.use_client_compositor ==> r@.compositor is Some && r@.compositor->0.sidebar_width == 26
            && r@.compositor->0.hover is None && !r@.compositor->0.resizing
            && r@.compositor->0.workspace_scroll == 0 && r@.compositor->0.agent_panel_scroll == 0
            && r@.compositor->0.working_since.len() == 0,
        !plan.use_client_compositor ==> r@.compositor is None,
        settings.direct_attach ==> r@.pending_prefix == Some(false),
        !settings.direct_attach ==> r@.pending_prefix is None,
        r@.reported_size == plan.server_size,
        r@.host_size == settings.host_size,
        r@.cell_size_px == settings.cell_size_px,
        r@.kitty_graphics_enabled == settings.kitty_graphics_enabled,
        r@.mouse_capture_active == plan.use_client_compositor,
        r@.mouse_scroll_lines == settings.mouse_scroll_lines,
        r@.last_refresh == now,
        r@.frames.len() == 0,
        r@.subscriptions.len() == 0,
        r@.retries.len() == 0,
        0 <= i < streams@.len() ==> r@.streams.contains(streams@[i]@),
        r@.streams.contains("main"@),
{
    lemma_streams(seq!["main"@], streams.deep_view(), "main"@);
    assert(seq!["main"@].contains("main"@)) by {
        assert(seq!["main"@][0] == "main"@);
    }
    if 0 <= i < streams@.len() {
        assert(streams.deep_view()[i] == streams@[i]@);
        assert(streams.deep_view().contains(streams@[i]@));
        lemma_streams(seq!["main"@], streams.deep_view(), streams@[i]@);
    }
}

proof fn lemma_streams(streams: Seq<Seq<char>>, ids: Seq<Seq<char>>, id: Seq<char>)
    ensures
        streams.contains(id) || ids.contains(id) ==> streams_opened(streams, ids).contains(id),
    decreases ids.len(),
{
    if ids.len() > 0 {
        let front = ids.drop_last();
        lemma_streams(streams, front, id);
        let before = streams_opened(streams, front);
        let after = streams_opened(streams, ids);
        if id == ids.last() {
            assert(after[after.len() - 1] == id);
        } else if streams.contains(id) || ids.contains(id) {
            if ids.contains(id) && !streams.contains(id) {
                let k = choose|k: int| 0 <= k < ids.len() && ids[k] == id;
                assert(front[k] == id);
            }
            crate::client_state::lemma_ids_without_source(before, ids.last(), id);
            let left = crate::client_state::ids_without(before, ids.last());
            let k = choose|k: int| 0 <= k < left.len() && left[k] == id;
            assert(after[k] == id);
        }
    }
}

/// A reply to the request for a new remote gives that remote, or the error in the form's own
/// words; any other reply is an error.
pub proof fn law_added_remote_in_reply(
    reply: Result<SuccessResponse, String>,
    r: Result<RemoteDefinitionSnapshot, String>,
)
    requires
        reply_comes_to(reply, r),
    ensures
        reply is Err && reply->Err_0@ == "remote target already exists"@ ==> r is Err
            && r->Err_0@ == "remote already added"@,
        reply is Err && reply->Err_0@ != "remote target already exists"@ && reply->Err_0@
            != "remote name already exists"@ ==> r is Err && r->Err_0@ == reply->Err_0@,
        reply is Ok && reply->Ok_0.result is RemoteAdded ==> r == Ok::<
            RemoteDefinitionSnapshot,
            String,
        >(reply->Ok_0.result->remote),
        reply is Ok && !(reply->Ok_0.result is RemoteAdded) ==> r is Err && r->Err_0@
            == "remote.add"@ + " returned unexpected result: "@ + crate::supervisor_api::debug_form(
            reply->Ok_0.result.deep_view(),
        ),
{
}

/// An addition that failed leaves the form open and shows what was wrong; one that worked counts
/// as a fresh look at the servers.
pub proof fn law_end_of_an_addition(s: StateView, error: Seq<char>, now: u64)
    requires
        s.model is Some,
    ensures
        add_remote_done(s, Ok(()), now).last_refresh == now,
        add_remote_done(s, Ok(()), now).model == s.model,
        add_remote_done(s, Ok(()), now).full_redraw,
        s.model->0.overlay is AddRemote ==> {
            let form = s.model->0.overlay->AddRemote_form;
            let after = add_remote_done(s, Err(error), now);
            &&& after.model is Some
            &&& after.model->0.overlay is AddRemote
            &&& after.model->0.overlay->AddRemote_form.error == Some(error)
            &&& after.model->0.overlay->AddRemote_form.target == form.target
            &&& after.model->0.overlay->AddRemote_form.name == form.name
            &&& after.last_refresh == s.last_refresh
            &&& after.full_redraw
        },
        !(s.model->0.overlay is AddRemote) ==> add_remote_done(s, Err(error), now).model == s.model,
{
}

/// A try ends as it went: a failed connection, a failed attachment and a stream are each noted as
/// what they are.
pub proof fn law_end_of_a_try(
    s: StateView,
    id: Seq<char>,
    attempt: usize,
    error: ClientError,
    now: u64,
)
    ensures
        try_done(s, id, attempt, TryOutcome::ConnectFailed { error }, now) == connect_failed(
            s,
            id,
            attempt,
            error,
            now,
        ),
        try_done(s, id, attempt, TryOutcome::AttachFailed { error }, now) == attach_failed(
            s,
            id,
            attempt,
            error,
            now,
        ),
        try_done(s, id, attempt, TryOutcome::Attached, now) == stream_attached(s, id, now),
{
}

proof fn lemma_plan(plans: Seq<PlanView>, id: Seq<char>, i: int)
    requires
        0 <= i < plans.len(),
        plans[i].server_id == id,
        forall|j: int| 0 <= j < i ==> (#[trigger] plans[j]).server_id != id,
    ensures
        plan_named(plans, id) == Some(plans[i]),
    decreases plans.len(),
{
    if i > 0 {
        let rest = plans.drop_first();
        assert forall|j: int| 0 <= j < i - 1 implies (#[trigger] rest[j]).server_id != id by {
            assert(rest[j] == plans[j + 1]);
        }
        lemma_plan(rest, id, i - 1);
    }
}

/// A remote's plan is the first for its id; what is fetched from it is fetched where it can be
/// reached, and a remote is either reached or not.
pub proof fn law_plans_by_id(
    plans: Seq<PlanView>,
    id: Seq<char>,
    i: int,
    plan: PlanView,
    bridges: Seq<BridgeView>,
)
    ensures
        0 <= i < plans.len() && plans[i].server_id == id && (forall|j: int|
            0 <= j < i ==> (#[trigger] plans[j]).server_id != id) ==> plan_named(plans, id) == Some(
            plans[i],
        ),
        reachable(plan, bridges) is Some <==> crate::client_state::unreachable(plan, bridges) is None,
        reachable(plan, bridges) is Some ==> (reachable(plan, bridges)->0).0 == plan.server_id,
        crate::client_state::unreachable(plan, bridges) is Some ==> crate::client_state::unreachable(plan, bridges)->0 == plan.server_id,
        plan.target is LocalSession ==> reachable(plan, bridges) == Some(
            (plan.server_id, ApiTargetView::LocalSession(plan.target->LocalSession_0)),
        ),
        plan.target is Ssh && bridge_to(bridges, plan.server_id) is None ==> crate::client_state::unreachable(
            plan,
            bridges,
        ) is Some,
        plan.target is Ssh && bridge_to(bridges, plan.server_id) is Some ==> reachable(
            plan,
            bridges,
        ) == Some(
            (
                plan.server_id,
                ApiTargetView::SocketPath(bridge_to(bridges, plan.server_id)->0.api_socket),
            ),
        ),
{
    if 0 <= i < plans.len() && plans[i].server_id == id && (forall|j: int|
        0 <= j < i ==> (#[trigger] plans[j]).server_id != id) {
        lemma_plan(plans, id, i);
    }
}

/// Each connected server that can be reached and is not followed yet is followed from then on,
/// once; one that is followed already is not followed again.
pub proof fn law_new_follows(
    plans: Seq<(Seq<char>, ConnectionView)>,
    subscriptions: Seq<Seq<char>>,
    bridges: Seq<BridgeView>,
    n: int,
    i: int,
)
    requires
        0 <= i < n <= plans.len(),
    ensures
        ({
            let list = new_follows(plans, subscriptions, bridges, n);
            let (id, target) = plans[i];
            &&& target is Main && !subscriptions.contains(id) ==> follows(list, id)
            &&& target is LocalSession && !subscriptions.contains(id) ==> follows(list, id)
            &&& target is Ssh && bridge_to(bridges, id) is Some && !subscriptions.contains(id)
                ==> follows(list, id)
            &&& subscriptions.contains(id) ==> !follows(list, id)
            &&& forall|a: int, b: int|
                0 <= a < b < list.len() ==> (#[trigger] list[a]).0 != (#[trigger] list[b]).0
        }),
    decreases n,
{
    let list = new_follows(plans, subscriptions, bridges, n);
    lemma_follows(plans, subscriptions, bridges, n);
    let before = new_follows(plans, subscriptions, bridges, n - 1);
    let (id, target) = plans[i];
    if i < n - 1 {
        law_new_follows(plans, subscriptions, bridges, n - 1, i);
        if follows(before, id) {
            let k = choose|k: int| 0 <= k < before.len() && (#[trigger] before[k]).0 == id;
            assert(list[k] == before[k]);
        }
    } else {
        if list.len() > before.len() {
            assert(list[list.len() - 1].0 == id);
        }
    }
}

proof fn lemma_follows(
    plans: Seq<(Seq<char>, ConnectionView)>,
    subscriptions: Seq<Seq<char>>,
    bridges: Seq<BridgeView>,
    n: int,
)
    requires
        0 <= n <= plans.len(),
    ensures
        ({
            let list = new_follows(plans, subscriptions, bridges, n);
            &&& forall|a: int|
                0 <= a < list.len() ==> !subscriptions.contains((#[trigger] list[a]).0)
            &&& forall|a: int, b: int|
                0 <= a < b < list.len() ==> (#[trigger] list[a]).0 != (#[trigger] list[b]).0
        }),
    decreases n,
{
    if n > 0 {
        lemma_follows(plans, subscriptions, bridges, n - 1);
        let before = new_follows(plans, subscriptions, bridges, n - 1);
        let list = new_follows(plans, subscriptions, bridges, n);
        if list.len() > before.len() {
            assert(!follows(before, plans[n - 1].0));
            assert forall|a: int, b: int| 0 <= a < b < list.len() implies (#[trigger] list[a]).0
                != (#[trigger] list[b]).0 by {
                if b == before.len() {
                    assert(before[a] == list[a]);
                }
            }
        }
    }
}

/// Only a disabled server is let go of, and an agent counts as working only while it says so.
pub proof fn law_disabled_and_working(server: ServerView, agent: AgentRowView, id: Seq<char>)
    ensures
        disabled_id(server) is Some <==> server.disabled,
        server.disabled ==> disabled_id(server) == Some(server.id),
        working_route(agent, id) is Some <==> agent.status == "working"@,
        agent.status == "working"@ ==> working_route(agent, id) == Some(
            AgentRouteView { server_id: id, agent_id: agent.agent_id },
        ),
{
}

/// What is drawn of the sidebar is what the client knows: its filter's label, the open menu and
/// the item highlighted in it, the open form and list, what lies under the mouse, and how far its
/// lists were scrolled.
pub proof fn law_snapshot_shows_the_model(
    r: ClientSidebarSnapshot,
    c: CompositorView,
    m: ModelView,
    width: u16,
    host: (u16, u16),
    now: u64,
)
    requires
        snapshot_is(r, c, m, width, host, now),
    ensures
        r.settings == m.ui_settings,
        m.filter is None ==> r.filter_label@ == "all"@,
        r.menu_highlighted is Some <==> m.overlay is GlobalMenu,
        m.overlay is GlobalMenu && m.overlay->highlighted < 5 ==> r.menu_highlighted->0
            == m.overlay->highlighted,
        r.spinner_tick == c.animation_tick,
        r.hover == c.hover,
        r.workspace_scroll == c.workspace_scroll,
        r.agent_panel_scroll == c.agent_panel_scroll,
        m.overlay is AddRemote ==> r.add_remote_form.deep_view() == Some(
            m.overlay->AddRemote_form,
        ),
        !(m.overlay is AddRemote) ==> r.add_remote_form.deep_view() is None,
        r.new_workspace_picker.deep_view() == m.picker,
        r.sidebar_rect.x == 0 && r.sidebar_rect.y == 0,
        r.sidebar_rect.width == width && r.sidebar_rect.height == host.1,
        r.terminal_area.x == width && r.terminal_area.y == 0,
        width < host.0 ==> r.terminal_area.width == host.0 - width,
        width >= host.0 ==> r.terminal_area.width == 0,
        r.terminal_area.height == host.1,
{
}

/// A new sidebar has the width that it was given, is not scrolled, held or pointed at, and knows
/// of no agent that works.
pub proof fn law_new_sidebar(width: u16)
    ensures
        new_compositor(width).sidebar_width == width,
        new_compositor(width).workspace_scroll == 0,
        new_compositor(width).agent_panel_scroll == 0,
        !new_compositor(width).resizing,
        new_compositor(width).animation_tick == 0,
        new_compositor(width).hover is None,
        new_compositor(width).working_since.len() == 0,
{
}

/// With nothing open, input goes on to the shown server as it came, except the mouse, which goes
/// to the sidebar or on to the server from the place where it is.
pub proof fn law_input_passes_the_sidebar<F>(
    layout_of: F,
    c: CompositorView,
    m: ModelView,
    data: Seq<u8>,
    events: Seq<RawInputEvent>,
    host: (u16, u16),
    left: Dispatched,
) where F: Fn(&ClientCompositor, &ClientSupervisorModel) -> SidebarLayout
    requires
        input_leaves(layout_of, c, m, data, events, host, left),
        m.overlay is Closed,
    ensures
        events.len() != 1 || !(events[0] is Mouse) ==> left.dispatch == (DispatchView::Forward {
            data,
        }) && left.compositor == c && left.model == m,
        events.len() == 1 && events[0] is Mouse ==> exists|layout: SidebarLayout| #[trigger]
            crate::dispatch::is_layout(layout_of, c, m, layout) && left == mouse_dispatched(
                c,
                m,
                data,
                layout,
                events[0]->Mouse_0,
                host,
            ),
{
}

/// Under an open form or menu nothing is passed on to the shown server, and what is sent, changed
/// or left ends the input at once.
pub proof fn law_input_stays_in_what_is_open<F>(
    layout_of: F,
    c: CompositorView,
    m: ModelView,
    data: Seq<u8>,
    host: (u16, u16),
    left: Dispatched,
    dispatch: DispatchView,
) where F: Fn(&ClientCompositor, &ClientSupervisorModel) -> SidebarLayout
    requires
        input_leaves(layout_of, c, m, data, Seq::empty(), host, left),
        !(m.overlay is Closed),
    ensures
        left.dispatch == DispatchView::Consumed,
        left.model == m,
        left.compositor == c,
        ends_input(dispatch) <==> !(dispatch is Redraw) && !(dispatch is Consumed) && !(
        dispatch is Forward),
{
}

/// A client without a sidebar sends its input to the shown server; one attached to a terminal
/// keeps the prefix that it waits for.
pub proof fn law_input_without_a_sidebar<P, L>(
    s: StateView,
    data: Seq<u8>,
    events: Seq<RawInputEvent>,
    redraw: bool,
    parse: P,
    layout_of: L,
    after: StateView,
    r: LoopOutcome,
) where
    P: Fn(&Vec<u8>) -> Vec<RawInputEvent>,
    L: Fn(&ClientCompositor, &ClientSupervisorModel) -> SidebarLayout,

    requires
        input_outcome(s, data, events, redraw, parse, layout_of, after, r),
    ensures
        s.pending_prefix is None && s.compositor is None ==> after == (StateView {
            full_redraw: s.full_redraw || redraw,
            ..s
        }) && is_forwarded(r, after, parse, data),
        s.pending_prefix == Some(true) && data.len() > 0 && data[0] == 0x71 ==> r.exit == Some(
            Ok::<(), ClientError>(()),
        ) && r.actions.deep_view() == seq![ActionView::DetachMain],
        s.pending_prefix == Some(false) && data == seq![0x02u8] ==> after.pending_prefix == Some(
            true,
        ) && r.actions.deep_view().len() == 0 && r.exit is None,
        s.pending_prefix is Some ==> after == (StateView {
            pending_prefix: after.pending_prefix,
            ..s
        }),
{
    if s.pending_prefix == Some(true) && data.len() > 0 && data[0] == 0x71 {
        crate::laws::commands::law_prefix_key(0, data.skip(1));
        assert(data =~= seq![0x71u8] + data.skip(1));
    }
    if s.pending_prefix == Some(false) && data == seq![0x02u8] {
        crate::laws::commands::law_prefix_key(0, Seq::empty());
    }
}

/// Beside a sidebar, input ends the client only where it asks to detach; a request, a message or a
/// resize that comes of it is carried out, and input for the shown server goes on to it.
pub proof fn law_input_beside_a_sidebar<P, L>(
    s: StateView,
    data: Seq<u8>,
    events: Seq<RawInputEvent>,
    redraw: bool,
    parse: P,
    layout_of: L,
    after: StateView,
    r: LoopOutcome,
) where
    P: Fn(&Vec<u8>) -> Vec<RawInputEvent>,
    L: Fn(&ClientCompositor, &ClientSupervisorModel) -> SidebarLayout,

    requires
        input_outcome(s, data, events, redraw, parse, layout_of, after, r),
        s.pending_prefix is None,
        s.compositor is Some,
        s.model is Some,
    ensures
        exists|left: Dispatched|
            {
                &&& #[trigger] input_leaves(
                    layout_of,
                    s.compositor->0,
                    s.model->0,
                    data,
                    events,
                    s.host_size,
                    left,
                )
                &&& after.compositor == Some(left.compositor)
                &&& after.model == Some(left.model)
                &&& left.dispatch is DetachAll ==> r.exit == Some(Ok::<(), ClientError>(()))
                    && r.actions.deep_view() == seq![ActionView::DetachEverywhere]
                &&& !(left.dispatch is DetachAll) ==> r.exit is None
                &&& left.dispatch is Consumed ==> r.actions.deep_view().len() == 0
                &&& left.dispatch is Redraw ==> r.actions.deep_view() == seq![
                    ActionView::RenderCached,
                ] && after.full_redraw
                &&& left.dispatch is ApiRequest ==> r.actions.deep_view().len() == 1
                    && r.actions.deep_view()[0] is SendRequest
                    && r.actions.deep_view()[0]->SendRequest_server_id
                    == left.dispatch->ApiRequest_server_id
                &&& left.dispatch is Forward ==> is_forwarded(
                    r,
                    after,
                    parse,
                    left.dispatch->data,
                )
            },
{
    let drawn = if redraw {
        crate::client_loop::redrawn(s)
    } else {
        s
    };
    let left = choose|left: Dispatched| #[trigger]
        input_leaves(
            layout_of,
            s.compositor->0,
            s.model->0,
            data,
            events,
            s.host_size,
            left,
        ) && crate::client_loop::dispatched_outcome(drawn, left, after, r, parse);
    assert(input_leaves(
        layout_of,
        s.compositor->0,
        s.model->0,
        data,
        events,
        s.host_size,
        left,
    ));
}

/// A path that a host's shell printed counts only where it is a full one.
pub proof fn law_found_paths(lines: Seq<Seq<char>>)
    ensures
        probed_path(lines) <==> lines.len() > 0 && lines[0].len() > 0 && lines[0][0] == '/',
        lines.len() == 0 ==> !probed_path(lines),
{
}

/// A filter is set where its server is known, and all servers are shown where it is not; an open
/// list of destinations is closed.
pub proof fn law_filter_is_set(m: ModelView, id: Seq<char>, i: int)
    ensures
        0 <= i < m.servers.len() && m.servers[i].id == id ==> filter_set(m, Some(id)).filter
            == Some(id),
        (forall|j: int| 0 <= j < m.servers.len() ==> (#[trigger] m.servers[j]).id != id)
            ==> filter_set(m, Some(id)).filter is None,
        filter_set(m, None).filter is None,
        filter_set(m, Some(id)).picker is None,
        filter_set(m, Some(id)).servers == m.servers,
        filter_set(m, Some(id)).active == m.active,
{
    crate::supervisor::lemma_index_of_server(m.servers, id);
}

/// Fetches are noted one after the other, each on its own server; none changes how many servers
/// there are.
pub proof fn law_fetches_in_order(
    servers: Seq<ServerView>,
    results: Seq<(Seq<char>, FetchView)>,
    last: (Seq<char>, FetchView),
    i: int,
)
    requires
        0 <= i < servers.len(),
    ensures
        fetches_applied(servers, Seq::empty()) == servers,
        fetches_applied(servers, results.push(last)) == crate::supervisor::fetch_applied(
            fetches_applied(servers, results),
            last.0,
            last.1,
        ),
        fetches_applied(servers, results).len() == servers.len(),
        fetches_applied(servers, results)[i].id == servers[i].id,
        (forall|k: int| 0 <= k < results.len() ==> (#[trigger] results[k]).0 != servers[i].id)
            ==> fetches_applied(servers, results)[i] == servers[i],
    decreases results.len(),
{
    assert(results.push(last).drop_last() =~= results);
    if results.len() > 0 {
        let front = results.drop_last();
        let end = results.last();
        law_fetches_in_order(servers, front, end, i);
        let before = fetches_applied(servers, front);
        crate::supervisor::lemma_index_of_server(before, end.0);
        if forall|k: int| 0 <= k < results.len() ==> (#[trigger] results[k]).0 != servers[i].id {
            assert forall|k: int| 0 <= k < front.len() implies (#[trigger] front[k]).0
                != servers[i].id by {
                assert(front[k] == results[k]);
            }
            assert(results[results.len() - 1].0 != servers[i].id);
        }
    }
}

/// The main server's summary is read of its two lists, or not at all: a fault in either is told
/// and leaves what was known.
pub proof fn law_main_summary(
    m: ModelView,
    workspaces: Reply,
    agents: Reply,
    r: Result<ServerSummary, String>,
)
    requires
        m.servers.len() > 0,
        m.servers[0].id == "main"@,
        summary_is(workspaces, agents, r),
    ensures
        workspaces_of(workspaces) is Ok && agents_of(agents) is Ok ==> {
            let told = summary_of(workspaces_of(workspaces)->Ok_0@, agents_of(agents)->Ok_0@);
            let after = main_summary_read(m, workspaces, agents);
            &&& after.1 is Ok
            &&& after.0.servers.len() == m.servers.len()
            &&& after.0.servers[0].summaries == told
            &&& after.0.servers[0].connection_state == m.servers[0].connection_state
            &&& after.0.active == m.active
            &&& r is Ok
            &&& r->Ok_0.deep_view() == told
        },
        workspaces_of(workspaces) is Err ==> main_summary_read(m, workspaces, agents) == (
            m,
            Err::<(), Seq<char>>(workspaces_of(workspaces)->Err_0),
        ) && r is Err && r->Err_0@ == workspaces_of(workspaces)->Err_0,
        workspaces_of(workspaces) is Ok && agents_of(agents) is Err ==> main_summary_read(
            m,
            workspaces,
            agents,
        ) == (m, Err::<(), Seq<char>>(agents_of(agents)->Err_0)) && r is Err && r->Err_0@
            == agents_of(agents)->Err_0,
{
    crate::supervisor::lemma_is_index_of_server(m.servers, "main"@, 0);
}

/// A client does not start without its remotes and its main server's summary, and says which was
/// missing; without the settings it starts with the usual ones.
pub proof fn law_start_needs_its_lists(
    name: Seq<char>,
    remotes: Vec<RemoteDefinitionSnapshot>,
    summary: ServerSummary,
    settings: UiSettingsInfo,
    error: String,
    other: Result<ServerSummary, String>,
    told: Result<UiSettingsInfo, String>,
)
    ensures
        started(name, Err(error), other, told) == Err::<ModelView, Seq<char>>(error@),
        started(name, Ok(remotes), Err(error), told) == Err::<ModelView, Seq<char>>(error@),
        started(name, Ok(remotes), Ok(summary), told) is Ok,
        started(name, Ok(remotes), Ok(summary), Ok(settings))->Ok_0.ui_settings == settings,
        started(name, Ok(remotes), Ok(summary), Err(error))->Ok_0.ui_settings.sidebar_width == 26,
{
}

/// A binary is taken from the part of the file that its entry tells, and a file that ends before
/// that part does is short.
pub proof fn law_extraction(file: Seq<u8>, entry: EntryView)
    requires
        entry.compressed_len > 0,
    ensures
        entry.offset + entry.compressed_len > file.len() ==> extract_outcome(file, entry) == Err::<
            Seq<u8>,
            ExtractErrorView,
        >(ExtractErrorView::Truncated),
        entry.offset + entry.compressed_len <= file.len() ==> {
            let part = file.subrange(
                entry.offset as int,
                (entry.offset + entry.compressed_len) as int,
            );
            &&& inflated(part) is Ok && inflated(part)->Ok_0.len() == entry.uncompressed_len
                && crate::bundle::crc32_of(inflated(part)->Ok_0) == entry.crc32
                ==> extract_outcome(file, entry) == Ok::<Seq<u8>, ExtractErrorView>(
                inflated(part)->Ok_0,
            )
            &&& extract_outcome(file, entry) is Ok ==> inflated(part) == Ok::<Seq<u8>, Seq<char>>(
                extract_outcome(file, entry)->Ok_0,
            )
        },
{
}

proof fn lemma_byte_index(s: Seq<u8>, b: u8, i: int)
    requires
        0 <= i <= s.len(),
        forall|k: int| 0 <= k < i ==> s[k] != b,
        i < s.len() ==> s[i] == b,
    ensures
        byte_index(s, b) == i,
    decreases s.len(),
{
    if i > 0 {
        lemma_byte_index(s.skip(1), b, i - 1);
    }
}

proof fn lemma_digit_is_ascii(c: char)
    requires
        is_digit(c),
    ensures
        '\0' <= c <= '\u{7f}',
        0x30 <= c as u8 <= 0x39,
{
}

/// The id in the header of a picture's command is found, and the command is told from what stands
/// around it: of a text that holds one command with an id, that id comes out and nothing else.
pub proof fn law_picture_ids(n: u32, payload: Seq<u8>, tail: Seq<u8>)
    requires
        forall|i: int| 0 <= i < payload.len() ==> payload[i] != 0x1b,
        forall|i: int| 0 <= i < tail.len() ==> tail[i] != 0x1b,
    ensures
        image_ids(
            seq![0x1bu8, 0x5fu8, 0x47u8] + (seq![0x69u8, 0x3du8] + vstd::utf8::encode_utf8(
                decimal(n as nat),
            ) + (seq![0x3bu8] + payload)) + (seq![0x1bu8, 0x5cu8] + tail),
        ) == seq![n],
        image_ids(tail).len() == 0,
{
    let number = decimal(n as nat);
    let digits = vstd::utf8::encode_utf8(number);
    lemma_decimal_value(n as nat);
    assert(vstd::utf8::is_ascii_chars(number)) by {
        assert forall|i: int| 0 <= i < number.len() implies '\0' <= #[trigger] number[i]
            <= '\u{7f}' by {
            assert(is_digit(number[i]));
            lemma_digit_is_ascii(number[i]);
        }
    }
    vstd::utf8::is_ascii_chars_encode_utf8(number);
    vstd::utf8::encode_utf8_valid_utf8(number);
    vstd::utf8::encode_utf8_decode_utf8(number);
    assert forall|i: int| 0 <= i < digits.len() implies 0x30 <= #[trigger] digits[i] <= 0x39 by {
        assert(is_digit(number[i]));
        lemma_digit_is_ascii(number[i]);
        assert(number[i] as u8 == digits[i]);
    }
    let header = seq![0x69u8, 0x3du8] + digits;
    let command = header + (seq![0x3bu8] + payload);
    let behind = seq![0x1bu8, 0x5cu8] + tail;
    let bytes = seq![0x1bu8, 0x5fu8, 0x47u8] + command + behind;
    // The command begins at the front.
    assert(bytes.subrange(0, 3) =~= command_start());
    assert(found_at(bytes, command_start()) == Some(0int));
    let rest = bytes.skip(3);
    assert(rest =~= command + behind);
    // It ends at the first escape.
    let n_end = command.len() as int;
    assert forall|i: int| 0 <= i < n_end implies command[i] != 0x1b by {
        if i < header.len() {
            if i >= 2 {
                assert(header[i] == digits[i - 2]);
            }
        } else if i > header.len() {
            assert(command[i] == payload[i - header.len() - 1]);
        }
    }
    lemma_found_at(rest, command_end());
    assert(rest.subrange(n_end, n_end + 2) =~= command_end());
    assert(stands_at(command_end(), rest, n_end));
    match found_at(rest, command_end()) {
        Some(i) => {
            if i < n_end {
                assert(rest.subrange(i, i + 2)[0] == rest[i]);
                assert(rest[i] == command[i]);
            }
            assert(i == n_end);
        },
        None => {},
    }
    assert(rest.take(n_end) =~= command);
    // Its id stands before the semicolon.
    lemma_byte_index(command, 0x3b, header.len() as int);
    assert(command.take(header.len() as int) =~= header);
    lemma_byte_index(header, 0x2c, header.len() as int);
    assert(header.take(header.len() as int) =~= header);
    assert(header.skip(2) =~= digits);
    assert(number[0] != '+') by {
        assert(is_digit(number[0]));
    }
    assert(number_value(number) == Some(n as nat));
    assert(part_id(header) == Some(Some(n)));
    assert(command_id(command) == Some(n));
    // Nothing follows it.
    assert(rest.skip(n_end + 2) =~= tail);
    lemma_found_at(tail, command_start());
    match found_at(tail, command_start()) {
        Some(i) => {
            assert(tail.subrange(i, i + 3)[0] == tail[i]);
        },
        None => {},
    }
    assert(image_ids(tail) =~= Seq::<u32>::empty());
    assert(image_ids(bytes) =~= seq![n]);
}

} // verus!
