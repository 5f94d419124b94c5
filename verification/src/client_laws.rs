//! What holds of the client's lists through all its steps: one entry for each server, and tries
//! that are carried out when they are due.

use vstd::prelude::*;

use crate::add_remote_steps::{add_remote_stepped, AddEventView, AddStepView, SocketsView};
use crate::client::{bridge_to, BridgeView, ClientError};
use crate::client_loop::{
    add_remote_done, host_resized, input_outcome, message_handled, redrawn, refreshed,
    screen_drawn, timer_passed, LoopOutcome,
};
use crate::client_state::{
    attach_failed, bridges_with, bridges_without, connect_failed, due_retry, follow_ids, follows,
    follows_of, frames_without, has_retry, ids_without, lemma_bridge_to_others,
    lemma_ids_without_source, lemma_pushed_bridge, missing_scheduled, new_follows, other_bridge,
    other_frame, other_id, other_retry, retries_without, retry_at, retry_plan, retry_scheduled,
    server_dropped, server_lost, servers_released, stream_attached, streams_with, try_done,
    with_first_retries, CachedView, Follow, RetryView, StateView, TryOutcome,
};
use crate::compositor::ClientCompositor;
use crate::frame::FrameData;
use crate::input::RawInputEvent;
use crate::layout::SidebarLayout;
use crate::messages::ServerMessage;
use crate::seqs::{lemma_pick_covers, lemma_pick_source, pick};
use crate::servers::{ConnectionView, ServerView};
use crate::supervisor::routes::subscription_of;
use crate::supervisor::{lemma_index_of_server, ClientSupervisorModel};

verus! {

/// Whether no two entries of a list are for the same server.
pub open spec fn one_each<A>(list: Seq<A>, id_of: spec_fn(A) -> Seq<char>) -> bool {
    forall|i: int, j: int|
        0 <= i < j < list.len() ==> id_of(#[trigger] list[i]) != id_of(#[trigger] list[j])
}

/// Whether every list of a state has at most one entry for each server.
pub open spec fn one_entry_per_server(s: StateView) -> bool {
    &&& one_each(s.frames, |x: CachedView| x.server_id)
    &&& one_each(s.streams, |x: Seq<char>| x)
    &&& one_each(s.subscriptions, |x: Seq<char>| x)
    &&& one_each(s.bridges, |x: BridgeView| x.server_id)
    &&& one_each(s.retries, |x: RetryView| x.server_id)
}

/// Whether two states have the same lists.
pub open spec fn same_lists(s: StateView, t: StateView) -> bool {
    &&& t.frames == s.frames
    &&& t.streams == s.streams
    &&& t.subscriptions == s.subscriptions
    &&& t.bridges == s.bridges
    &&& t.retries == s.retries
}

proof fn lemma_left_one_each<A>(
    list: Seq<A>,
    f: spec_fn(A) -> Option<A>,
    id_of: spec_fn(A) -> Seq<char>,
)
    requires
        one_each(list, id_of),
        forall|a: A| (#[trigger] f(a)) is Some ==> f(a)->0 == a,
    ensures
        one_each(pick(list, f), id_of),
    decreases list.len(),
{
    if list.len() > 0 {
        let rest = list.drop_last();
        assert forall|i: int, j: int| 0 <= i < j < rest.len() implies id_of(#[trigger] rest[i])
            != id_of(#[trigger] rest[j]) by {
            assert(rest[i] == list[i] && rest[j] == list[j]);
        }
        lemma_left_one_each(rest, f, id_of);
        let left = pick(rest, f);
        if f(list.last()) is Some {
            let all = pick(list, f);
            assert(all =~= left.push(list.last()));
            assert forall|i: int, j: int| 0 <= i < j < all.len() implies id_of(#[trigger] all[i])
                != id_of(#[trigger] all[j]) by {
                if j == left.len() {
                    let k = lemma_pick_source(rest, f, i);
                    assert(f(rest[k]) is Some);
                    assert(rest[k] == list[k]);
                    assert(left[i] == list[k]);
                    assert(list[list.len() - 1] == all[j]);
                } else {
                    assert(left[i] == all[i] && left[j] == all[j]);
                }
            }
        }
    }
}

proof fn lemma_pushed_one_each<A>(list: Seq<A>, last: A, id_of: spec_fn(A) -> Seq<char>)
    requires
        one_each(list, id_of),
        forall|i: int| 0 <= i < list.len() ==> id_of(#[trigger] list[i]) != id_of(last),
    ensures
        one_each(list.push(last), id_of),
{
    let all = list.push(last);
    assert forall|i: int, j: int| 0 <= i < j < all.len() implies id_of(#[trigger] all[i]) != id_of(
        #[trigger] all[j],
    ) by {
        assert(all[i] == list[i]);
        if j < list.len() {
            assert(all[j] == list[j]);
        }
    }
}

pub(crate) proof fn lemma_ids_left(ids: Seq<Seq<char>>, id: Seq<char>)
    requires
        one_each(ids, |x: Seq<char>| x),
    ensures
        one_each(ids_without(ids, id), |x: Seq<char>| x),
        one_each(streams_with(ids, id), |x: Seq<char>| x),
{
    let f = |a: Seq<char>| other_id(a, id);
    let left = ids_without(ids, id);
    lemma_left_one_each(ids, f, |x: Seq<char>| x);
    assert forall|i: int| 0 <= i < left.len() implies #[trigger] left[i] != id by {
        let k = lemma_pick_source(ids, f, i);
    }
    lemma_pushed_one_each(left, id, |x: Seq<char>| x);
}

proof fn lemma_frames_left(frames: Seq<CachedView>, id: Seq<char>, frame: FrameData)
    requires
        one_each(frames, |x: CachedView| x.server_id),
    ensures
        one_each(frames_without(frames, id), |x: CachedView| x.server_id),
        one_each(
            frames_without(frames, id).push(CachedView { server_id: id, frame }),
            |x: CachedView| x.server_id,
        ),
{
    let f = |a: CachedView| other_frame(a, id);
    let left = frames_without(frames, id);
    lemma_left_one_each(frames, f, |x: CachedView| x.server_id);
    assert forall|i: int| 0 <= i < left.len() implies (#[trigger] left[i]).server_id != id by {
        let k = lemma_pick_source(frames, f, i);
    }
    lemma_pushed_one_each(left, CachedView { server_id: id, frame }, |x: CachedView| x.server_id);
}

pub(crate) proof fn lemma_bridges_left(bridges: Seq<BridgeView>, bridge: BridgeView)
    requires
        one_each(bridges, |x: BridgeView| x.server_id),
    ensures
        one_each(bridges_without(bridges, bridge.server_id), |x: BridgeView| x.server_id),
        one_each(bridges_with(bridges, bridge), |x: BridgeView| x.server_id),
{
    let id = bridge.server_id;
    let f = |a: BridgeView| other_bridge(a, id);
    let left = bridges_without(bridges, id);
    lemma_left_one_each(bridges, f, |x: BridgeView| x.server_id);
    assert forall|i: int| 0 <= i < left.len() implies (#[trigger] left[i]).server_id != id by {
        let k = lemma_pick_source(bridges, f, i);
    }
    lemma_pushed_one_each(left, bridge, |x: BridgeView| x.server_id);
}

proof fn lemma_bridges_dropped(bridges: Seq<BridgeView>, id: Seq<char>)
    requires
        one_each(bridges, |x: BridgeView| x.server_id),
    ensures
        one_each(bridges_without(bridges, id), |x: BridgeView| x.server_id),
{
    lemma_bridges_left(
        bridges,
        BridgeView { server_id: id, client_socket: Seq::empty(), api_socket: Seq::empty() },
    );
}

proof fn lemma_retries_left(retries: Seq<RetryView>, retry: RetryView)
    requires
        one_each(retries, |x: RetryView| x.server_id),
    ensures
        one_each(retries_without(retries, retry.server_id), |x: RetryView| x.server_id),
        one_each(retries_without(retries, retry.server_id).push(retry), |x: RetryView| x.server_id),
{
    let id = retry.server_id;
    let f = |a: RetryView| other_retry(a, id);
    let left = retries_without(retries, id);
    lemma_left_one_each(retries, f, |x: RetryView| x.server_id);
    assert forall|i: int| 0 <= i < left.len() implies (#[trigger] left[i]).server_id != id by {
        let k = lemma_pick_source(retries, f, i);
    }
    lemma_pushed_one_each(left, retry, |x: RetryView| x.server_id);
}

proof fn lemma_first_retries_one_each(retries: Seq<RetryView>, ids: Seq<Seq<char>>, now: u64)
    requires
        one_each(retries, |x: RetryView| x.server_id),
    ensures
        one_each(with_first_retries(retries, ids, now), |x: RetryView| x.server_id),
    decreases ids.len(),
{
    if ids.len() > 0 {
        lemma_first_retries_one_each(retries, ids.drop_last(), now);
        let before = with_first_retries(retries, ids.drop_last(), now);
        if !has_retry(before, ids.last()) {
            lemma_pushed_one_each(before, retry_at(ids.last(), 0, now), |x: RetryView| x.server_id);
        }
    }
}

/// Scheduling, losing, connecting and attaching leave at most one entry for each server in every
/// list.
pub proof fn law_connections_keep_one_entry_per_server(
    s: StateView,
    id: Seq<char>,
    attempt: usize,
    error: ClientError,
    now: u64,
    redraw: bool,
)
    requires
        one_entry_per_server(s),
    ensures
        one_entry_per_server(retry_scheduled(s, id, attempt, now)),
        one_entry_per_server(missing_scheduled(s, now)),
        one_entry_per_server(server_dropped(s, id)),
        one_entry_per_server(server_lost(s, id, now, redraw)),
        one_entry_per_server(connect_failed(s, id, attempt, error, now)),
        one_entry_per_server(attach_failed(s, id, attempt, error, now)),
        one_entry_per_server(stream_attached(s, id, now)),
        one_entry_per_server(StateView { retries: retries_without(s.retries, id), ..s }),
{
    let next: usize = if attempt == usize::MAX {
        attempt
    } else {
        (attempt + 1) as usize
    };
    lemma_retries_left(s.retries, retry_at(id, attempt, now));
    lemma_retries_left(s.retries, retry_at(id, next, now));
    lemma_retries_left(s.retries, retry_at(id, 0, now));
    lemma_ids_left(s.streams, id);
    lemma_ids_left(s.subscriptions, id);
    lemma_frames_dropped(s.frames, id);
    lemma_bridges_dropped(s.bridges, id);
    if s.model is Some {
        lemma_first_retries_one_each(
            s.retries,
            crate::client_state::wanting_streams(s.model->0, s.streams),
            now,
        );
    }
}

proof fn lemma_frames_dropped(frames: Seq<CachedView>, id: Seq<char>)
    requires
        one_each(frames, |x: CachedView| x.server_id),
    ensures
        one_each(frames_without(frames, id), |x: CachedView| x.server_id),
{
    lemma_left_one_each(frames, |a: CachedView| other_frame(a, id), |x: CachedView| x.server_id);
}

/// A bridge that is noted takes the place of an earlier one to the same server.
pub proof fn law_bridges_keep_one_entry_per_server(s: StateView, bridge: BridgeView)
    requires
        one_entry_per_server(s),
    ensures
        one_entry_per_server(StateView { bridges: bridges_with(s.bridges, bridge), ..s }),
        bridge_to(bridges_with(s.bridges, bridge), bridge.server_id) == Some(bridge),
{
    lemma_bridges_left(s.bridges, bridge);
    lemma_bridge_to_others(s.bridges, bridge.server_id, bridge.server_id);
    lemma_pushed_bridge(
        bridges_without(s.bridges, bridge.server_id),
        bridge,
        bridge.server_id,
    );
}

/// What a server sends leaves at most one entry for each server in every list.
pub proof fn law_messages_keep_one_entry_per_server(
    s: StateView,
    id: Seq<char>,
    message: ServerMessage,
)
    requires
        one_entry_per_server(s),
    ensures
        one_entry_per_server(message_handled(s, id, message).0),
{
    if let ServerMessage::Frame(frame) = message {
        lemma_frames_left(s.frames, id, frame);
    }
}

proof fn lemma_new_follows_one_each(
    plans: Seq<(Seq<char>, ConnectionView)>,
    subscriptions: Seq<Seq<char>>,
    bridges: Seq<BridgeView>,
    n: int,
)
    requires
        one_each(subscriptions, |x: Seq<char>| x),
    ensures
        one_each(
            subscriptions + follow_ids(new_follows(plans, subscriptions, bridges, n)),
            |x: Seq<char>| x,
        ),
    decreases n,
{
    if n <= 0 {
        assert(subscriptions + follow_ids(Seq::<Follow>::empty()) =~= subscriptions);
    } else {
        lemma_new_follows_one_each(plans, subscriptions, bridges, n - 1);
        let before = new_follows(plans, subscriptions, bridges, n - 1);
        let after = new_follows(plans, subscriptions, bridges, n);
        if after != before {
            let last = after.last();
            let id = last.0;
            let noted = subscriptions + follow_ids(before);
            assert(after =~= before.push(last));
            assert(subscriptions + follow_ids(after) =~= noted.push(id));
            assert forall|i: int| 0 <= i < noted.len() implies #[trigger] noted[i] != id by {
                if i < subscriptions.len() {
                    assert(subscriptions[i] == noted[i]);
                    assert(!subscriptions.contains(id));
                } else {
                    assert(before[i - subscriptions.len()].0 == noted[i]);
                    assert(!follows(before, id));
                }
            }
            lemma_pushed_one_each(noted, id, |x: Seq<char>| x);
        }
    }
}

/// Following servers, and ceasing to, leaves at most one entry for each server in every list.
pub proof fn law_subscriptions_keep_one_entry_per_server(s: StateView, id: Seq<char>)
    requires
        one_entry_per_server(s),
    ensures
        one_entry_per_server(
            StateView { subscriptions: s.subscriptions + follow_ids(follows_of(s)), ..s },
        ),
        one_entry_per_server(StateView { subscriptions: ids_without(s.subscriptions, id), ..s }),
{
    lemma_ids_left(s.subscriptions, id);
    match s.model {
        None => {
            assert(s.subscriptions + follow_ids(follows_of(s)) =~= s.subscriptions);
        },
        Some(m) => {
            let plans = pick(m.servers, |x: ServerView| subscription_of(x));
            lemma_new_follows_one_each(plans, s.subscriptions, s.bridges, plans.len() as int);
        },
    }
}

/// Letting go of servers leaves at most one entry for each server in every list.
pub proof fn law_releases_keep_one_entry_per_server(s: StateView, ids: Seq<Seq<char>>)
    requires
        one_entry_per_server(s),
    ensures
        one_entry_per_server(servers_released(s, ids)),
    decreases ids.len(),
{
    if ids.len() > 0 {
        law_releases_keep_one_entry_per_server(s, ids.drop_last());
        let before = servers_released(s, ids.drop_last());
        let id = ids.last();
        lemma_ids_left(before.streams, id);
        lemma_ids_left(before.subscriptions, id);
        lemma_frames_dropped(before.frames, id);
        lemma_bridges_dropped(before.bridges, id);
        lemma_retries_left(before.retries, retry_at(id, 0, 0));
    }
}

/// The steps by which a remote is added leave at most one entry for each server in every list.
pub proof fn law_added_remotes_keep_one_entry_per_server(
    s: StateView,
    step: AddStepView,
    event: AddEventView,
)
    requires
        one_entry_per_server(s),
    ensures
        one_entry_per_server(add_remote_stepped(s, step, event).0),
{
    if let AddEventView::Submitted { result: Ok(remote) } = event {
        if let AddStepView::SendAdd { draft, bridge: Some(b) } = step {
            lemma_bridges_left(
                s.bridges,
                BridgeView {
                    server_id: crate::servers::secondary_id(remote.id),
                    client_socket: b.client_socket,
                    api_socket: b.api_socket,
                },
            );
        }
    }
    if let AddStepView::Attach { server_id } = step {
        lemma_ids_left(s.streams, server_id);
    }
}

/// Neither a new size of the host terminal, nor reading the summaries, nor the end of adding a
/// remote, nor the passing of time, nor drawing the screen touches the lists.
pub proof fn law_drawing_leaves_the_lists_alone(
    s: StateView,
    size: (u16, u16),
    cell: (u32, u32),
    result: Result<(), Seq<char>>,
    now: u64,
)
    ensures
        same_lists(s, host_resized(s, size, cell)),
        same_lists(s, refreshed(s, now)),
        same_lists(s, redrawn(s)),
        same_lists(s, add_remote_done(s, result, now)),
        same_lists(s, timer_passed(s)),
        same_lists(s, screen_drawn(s, now)),
{
}

/// What the user types touches none of the lists.
pub proof fn law_input_leaves_the_lists_alone<P, L>(
    s: StateView,
    data: Seq<u8>,
    events: Seq<RawInputEvent>,
    surface_redraw: bool,
    parse: P,
    layout_of: L,
    after: StateView,
    r: LoopOutcome,
) where
    P: Fn(&Vec<u8>) -> Vec<RawInputEvent>,
    L: Fn(&ClientCompositor, &ClientSupervisorModel) -> SidebarLayout,

    requires
        input_outcome(s, data, events, surface_redraw, parse, layout_of, after, r),
    ensures
        same_lists(s, after),
{
}

/// The state after a due try: one for a server that has a stream, or that no longer wants one, is
/// given up; another is carried out, over a new bridge where one was started.
pub open spec fn retried(
    s: StateView,
    due: (Seq<char>, usize),
    bridge: Option<SocketsView>,
    outcome: TryOutcome,
    now: u64,
) -> StateView {
    let (id, attempt) = due;
    if s.streams.contains(id) || retry_plan(s, id) is None {
        StateView { retries: retries_without(s.retries, id), ..s }
    } else {
        let bridged = StateView {
            bridges: match bridge {
                Some(b) => bridges_with(
                    s.bridges,
                    BridgeView {
                        server_id: id,
                        client_socket: b.client_socket,
                        api_socket: b.api_socket,
                    },
                ),
                None => s.bridges,
            },
            ..s
        };
        try_done(bridged, id, attempt, outcome, now)
    }
}

/// The state after a list of due tries.
pub open spec fn all_retried(
    s: StateView,
    due: Seq<(Seq<char>, usize)>,
    bridges: Seq<Option<SocketsView>>,
    outcomes: Seq<TryOutcome>,
    now: u64,
) -> StateView
    decreases due.len(),
{
    if due.len() == 0 {
        s
    } else {
        let n = due.len() - 1;
        let before = all_retried(s, due.drop_last(), bridges, outcomes, now);
        retried(before, due.last(), bridges[n], outcomes[n], now)
    }
}

/// The tries that are due.
pub open spec fn due_tries(s: StateView, now: u64) -> Seq<(Seq<char>, usize)> {
    pick(s.retries, |x: RetryView| due_retry(x, now))
}

/// Whether a list of tries has one for a server.
pub open spec fn tries(list: Seq<(Seq<char>, usize)>, id: Seq<char>) -> bool {
    exists|i: int| 0 <= i < list.len() && (#[trigger] list[i]).0 == id
}

/// What stays as it was for a server that was not tried.
pub open spec fn untouched(s: StateView, t: StateView, id: Seq<char>) -> bool {
    &&& t.streams.contains(id) <==> s.streams.contains(id)
    &&& bridge_to(t.bridges, id) == bridge_to(s.bridges, id)
    &&& s.model is Some <==> t.model is Some
    &&& s.model is Some ==> {
        let m = s.model->0;
        let n = t.model->0;
        &&& n.servers.len() == m.servers.len()
        &&& forall|i: int|
            0 <= i < m.servers.len() && m.servers[i].id == id ==> #[trigger] n.servers[i]
                == m.servers[i]
        &&& forall|i: int|
            0 <= i < m.servers.len() ==> (#[trigger] n.servers[i]).id == m.servers[i].id
    }
}

/// What a try leaves alone: everything that is not about connections.
pub open spec fn same_surface(s: StateView, t: StateView) -> bool {
    &&& t.frames == s.frames
    &&& t.subscriptions == s.subscriptions
    &&& t.compositor == s.compositor
    &&& t.reported_size == s.reported_size
    &&& t.host_size == s.host_size
    &&& t.mouse_capture_active == s.mouse_capture_active
}

proof fn lemma_retried_once(
    s: StateView,
    due: (Seq<char>, usize),
    bridge: Option<SocketsView>,
    outcome: TryOutcome,
    now: u64,
    other: Seq<char>,
)
    requires
        now + 1000 <= u64::MAX,
    ensures
        ({
            let t = retried(s, due, bridge, outcome, now);
            &&& same_surface(s, t)
            &&& other != due.0 ==> untouched(s, t, other)
            &&& forall|x: RetryView|
                x.server_id != due.0 ==> (#[trigger] t.retries.contains(x)
                    <==> s.retries.contains(x))
            &&& forall|x: RetryView|
                x.server_id == due.0 && #[trigger] t.retries.contains(x) ==> x.next_retry_at > now
        }),
{
    let id = due.0;
    let t = retried(s, due, bridge, outcome, now);
    let f = |a: RetryView| other_retry(a, id);
    let left = retries_without(s.retries, id);
    assert forall|x: RetryView| x.server_id != id implies (#[trigger] t.retries.contains(x)
        <==> s.retries.contains(x)) by {
        if s.retries.contains(x) {
            let i = choose|i: int| 0 <= i < s.retries.len() && s.retries[i] == x;
            let k = lemma_pick_covers(s.retries, f, i);
            assert(left[k] == x);
            assert(t.retries[k] == x);
        }
        if t.retries.contains(x) {
            let k = choose|k: int| 0 <= k < t.retries.len() && t.retries[k] == x;
            assert(k < left.len());
            let i = lemma_pick_source(s.retries, f, k);
            assert(s.retries[i] == x);
        }
    }
    assert forall|x: RetryView| x.server_id == id && #[trigger] t.retries.contains(
        x,
    ) implies x.next_retry_at > now by {
        let k = choose|k: int| 0 <= k < t.retries.len() && t.retries[k] == x;
        if k < left.len() {
            let i = lemma_pick_source(s.retries, f, k);
        }
    }
    if other != id {
        lemma_untouched_once(s, due, bridge, outcome, now, other);
    }
}

proof fn lemma_untouched_once(
    s: StateView,
    due: (Seq<char>, usize),
    bridge: Option<SocketsView>,
    outcome: TryOutcome,
    now: u64,
    other: Seq<char>,
)
    requires
        other != due.0,
    ensures
        untouched(s, retried(s, due, bridge, outcome, now), other),
{
    let id = due.0;
    lemma_ids_without_source(s.streams, id, other);
    let left = ids_without(s.streams, id);
    let streams = streams_with(s.streams, id);
    if left.contains(other) {
        let i = choose|i: int| 0 <= i < left.len() && left[i] == other;
        assert(streams[i] == other);
    }
    if streams.contains(other) {
        let i = choose|i: int| 0 <= i < streams.len() && streams[i] == other;
        assert(left[i] == other);
    }
    lemma_bridge_to_others(s.bridges, id, other);
    if let Some(b) = bridge {
        let new = BridgeView {
            server_id: id,
            client_socket: b.client_socket,
            api_socket: b.api_socket,
        };
        lemma_pushed_bridge(bridges_without(s.bridges, id), new, other);
        lemma_bridge_to_others(bridges_with(s.bridges, new), id, other);
    }
    if s.model is Some {
        lemma_index_of_server(s.model->0.servers, id);
    }
}

proof fn lemma_all_retried(
    s: StateView,
    due: Seq<(Seq<char>, usize)>,
    bridges: Seq<Option<SocketsView>>,
    outcomes: Seq<TryOutcome>,
    now: u64,
    other: Seq<char>,
)
    requires
        now + 1000 <= u64::MAX,
    ensures
        ({
            let t = all_retried(s, due, bridges, outcomes, now);
            &&& same_surface(s, t)
            &&& !tries(due, other) ==> untouched(s, t, other)
            &&& forall|x: RetryView|
                !tries(due, x.server_id) ==> (#[trigger] t.retries.contains(x)
                    <==> s.retries.contains(x))
            &&& forall|x: RetryView|
                tries(due, x.server_id) && #[trigger] t.retries.contains(x) ==> x.next_retry_at
                    > now
        }),
    decreases due.len(),
{
    if due.len() > 0 {
        let n = due.len() - 1;
        let front = due.drop_last();
        let before = all_retried(s, front, bridges, outcomes, now);
        lemma_all_retried(s, front, bridges, outcomes, now, other);
        lemma_retried_once(before, due.last(), bridges[n], outcomes[n], now, other);
        let t = all_retried(s, due, bridges, outcomes, now);
        assert forall|id: Seq<char>| #[trigger] tries(due, id) == (tries(front, id) || due.last().0
            == id) by {
            if tries(front, id) {
                let i = choose|i: int| 0 <= i < front.len() && (#[trigger] front[i]).0 == id;
                assert(due[i].0 == id);
            }
            if due.last().0 == id {
                assert(due[n].0 == id);
            }
            if tries(due, id) {
                let i = choose|i: int| 0 <= i < due.len() && (#[trigger] due[i]).0 == id;
                if i < n {
                    assert(front[i].0 == id);
                }
            }
        }
        assert forall|x: RetryView| !tries(due, x.server_id) implies (#[trigger]
        t.retries.contains(x) <==> s.retries.contains(x)) by {
            assert(before.retries.contains(x) <==> s.retries.contains(x));
        }
        assert forall|x: RetryView| tries(due, x.server_id) && #[trigger] t.retries.contains(
            x,
        ) implies x.next_retry_at > now by {
            if x.server_id != due.last().0 {
                assert(before.retries.contains(x));
            }
        }
    }
}

/// Once the due tries have been carried out, whatever came of each, no try is due any more, and
/// the tries that were not due stand as they stood. A server without a due try keeps its stream,
/// its bridge and what is known of it; frames, subscriptions and the surface stay as they were.
pub proof fn law_no_due_try_is_left(
    s: StateView,
    bridges: Seq<Option<SocketsView>>,
    outcomes: Seq<TryOutcome>,
    now: u64,
    x: RetryView,
    other: Seq<char>,
)
    requires
        one_entry_per_server(s),
        now + 1000 <= u64::MAX,
    ensures
        ({
            let t = all_retried(s, due_tries(s, now), bridges, outcomes, now);
            &&& t.retries.contains(x) ==> x.next_retry_at > now
            &&& s.retries.contains(x) && x.next_retry_at > now ==> t.retries.contains(x)
            &&& !tries(due_tries(s, now), other) ==> untouched(s, t, other)
            &&& same_surface(s, t)
        }),
{
    let due = due_tries(s, now);
    let f = |r: RetryView| due_retry(r, now);
    lemma_all_retried(s, due, bridges, outcomes, now, other);
    let t = all_retried(s, due, bridges, outcomes, now);
    if t.retries.contains(x) && !tries(due, x.server_id) {
        assert(s.retries.contains(x));
        let i = choose|i: int| 0 <= i < s.retries.len() && s.retries[i] == x;
        if x.next_retry_at <= now {
            let k = lemma_pick_covers(s.retries, f, i);
            assert(due[k].0 == x.server_id);
        }
    }
    if s.retries.contains(x) && x.next_retry_at > now {
        let i = choose|i: int| 0 <= i < s.retries.len() && s.retries[i] == x;
        if tries(due, x.server_id) {
            let k = choose|k: int| 0 <= k < due.len() && (#[trigger] due[k]).0 == x.server_id;
            let j = lemma_pick_source(s.retries, f, k);
            let id_of = |r: RetryView| r.server_id;
            assert(id_of(s.retries[i]) == id_of(s.retries[j]));
            assert(i == j);
        }
    }
}

} // verus!
