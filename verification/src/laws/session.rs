//! What the running client does with what reaches it: messages, input, time and lost servers.

use vstd::prelude::*;

use crate::client::{bridge_to, ClientError};
use crate::client_loop::{
    after_change, asks_for_image, attach_outcome_is, dispatch_actions, dispatch_state, forwarded,
    frame_to_draw, host_resized, message_handled, refresh_actions, refreshed, resize_message,
    screen_drawn, timer_actions, timer_passed, write_failure_actions, ActionView, LoopOutcome,
};
use crate::client_state::{
    attach_failed, connect_failed, due_retry, has_retry, lemma_bridge_to_others, missing_scheduled,
    refresh_due, retry_at, retry_delay, stream_attached, with_first_retries, RetryView, StateView,
};
use crate::attach::AttachInputAction;
use crate::compositor::{wants_animation, CompositorView};
use crate::dispatch::ClientInputDispatch;
use crate::frame::FrameData;
use crate::input::{KeyCode, RawInputEvent};
use crate::messages::{ClientMessage, NotifyKind, ServerMessage};
use crate::seqs::{lemma_pick_covers, lemma_pick_source, pick};
use crate::servers::ServerView;
use crate::supervisor::lemma_is_index_of_server;
use crate::supervisor::routes::streamless_id;
use crate::supervisor::rows::agent_groups_of;

verus! {

/// The server that the client shows: the active one, and the main one before it knows any.
pub open spec fn shown_server(s: StateView) -> Seq<char> {
    if s.model is Some {
        s.model->0.active
    } else {
        "main"@
    }
}

/// Summaries are read again two seconds after the last time.
pub proof fn law_summaries_are_read_every_two_seconds(now: u64, last: u64)
    ensures
        refresh_due(now, last) <==> now >= last + 2000,
{
}

/// A lost server is tried again after one, two and five seconds, and then every fifteen; the try
/// is due from then on.
pub proof fn law_tries_and_their_delays(id: Seq<char>, attempt: usize, now: u64, then: u64)
    requires
        now + 15000 <= u64::MAX,
    ensures
        retry_delay(0) == 1000,
        retry_delay(1) == 2000,
        retry_delay(2) == 5000,
        attempt >= 3 ==> retry_delay(attempt) == 15000,
        retry_at(id, attempt, now).server_id == id,
        retry_at(id, attempt, now).attempt == attempt,
        retry_at(id, attempt, now).next_retry_at == now + retry_delay(attempt),
        due_retry(retry_at(id, attempt, now), then) is Some <==> then >= now + retry_delay(attempt),
        due_retry(retry_at(id, attempt, now), then) is Some ==> due_retry(
            retry_at(id, attempt, now),
            then,
        )->0 == (id, attempt),
{
}

proof fn lemma_other_retries(s: Seq<RetryView>, id: Seq<char>, k: int)
    ensures
        0 <= k < s.len() && s[k].server_id != id ==> crate::client_state::retries_without(
            s,
            id,
        ).contains(s[k]),
        !has_retry(crate::client_state::retries_without(s, id), id),
{
    let f = |r: RetryView| crate::client_state::other_retry(r, id);
    if 0 <= k < s.len() && s[k].server_id != id {
        assert(f(s[k]) is Some);
        let at = lemma_pick_covers(s, f, k);
        assert(pick(s, f)[at] == s[k]);
    }
    if has_retry(crate::client_state::retries_without(s, id), id) {
        let i = choose|i: int|
            0 <= i < pick(s, f).len() && (#[trigger] pick(s, f)[i]).server_id == id;
        let j = lemma_pick_source(s, f, i);
        assert(f(s[j]) == Some(pick(s, f)[i]));
    }
}

/// A failed try is followed by a later one, with its bridge given up where the connection failed
/// and kept where only the attaching did; a server of another protocol is not tried again. The
/// tries of other servers stay.
pub proof fn law_failed_try_is_followed_by_another(
    s: StateView,
    id: Seq<char>,
    attempt: usize,
    error: ClientError,
    now: u64,
    k: int,
)
    requires
        attempt < usize::MAX,
    ensures
        !(error is HandshakeRejected) ==> connect_failed(s, id, attempt, error, now).retries.last()
            == retry_at(id, (attempt + 1) as usize, now),
        error is HandshakeRejected ==> !has_retry(
            connect_failed(s, id, attempt, error, now).retries,
            id,
        ),
        attach_failed(s, id, attempt, error, now).retries.last() == retry_at(
            id,
            (attempt + 1) as usize,
            now,
        ),
        bridge_to(connect_failed(s, id, attempt, error, now).bridges, id) is None,
        attach_failed(s, id, attempt, error, now).bridges == s.bridges,
        connect_failed(s, id, attempt, error, now).full_redraw,
        attach_failed(s, id, attempt, error, now).full_redraw,
        0 <= k < s.retries.len() && s.retries[k].server_id != id ==> connect_failed(
            s,
            id,
            attempt,
            error,
            now,
        ).retries.contains(s.retries[k]) && attach_failed(
            s,
            id,
            attempt,
            error,
            now,
        ).retries.contains(s.retries[k]),
        connect_failed(s, id, attempt, error, now).frames == s.frames,
        connect_failed(s, id, attempt, error, now).streams == s.streams,
{
    lemma_other_retries(s.retries, id, k);
    lemma_bridge_to_others(s.bridges, id, id);
    let without = crate::client_state::retries_without(s.retries, id);
    if 0 <= k < s.retries.len() && s.retries[k].server_id != id {
        let at = choose|at: int| 0 <= at < without.len() && without[at] == s.retries[k];
        let next = without.push(retry_at(id, (attempt + 1) as usize, now));
        assert(next[at] == s.retries[k]);
        assert(connect_failed(s, id, attempt, error, now).retries[at] == s.retries[k]);
        assert(attach_failed(s, id, attempt, error, now).retries[at] == s.retries[k]);
    }
}

/// A server that was reached is connected, has a stream and is not tried again, and its summaries
/// count as just read.
pub proof fn law_reached_server_is_connected(s: StateView, id: Seq<char>, now: u64, i: int)
    ensures
        ({
            let after = stream_attached(s, id, now);
            &&& after.streams.contains(id)
            &&& !has_retry(after.retries, id)
            &&& after.full_redraw
            &&& s.model is Some ==> after.last_refresh == now && after.model is Some
            &&& s.model is None ==> after.model is None
            &&& s.model is Some && 0 <= i < s.model->0.servers.len()
                && s.model->0.servers[i].id == id && !s.model->0.servers[i].disabled && (
            forall|j: int| 0 <= j < i ==> (#[trigger] s.model->0.servers[j]).id != id)
                ==> after.model->0.servers[i].connection_state is Connected
            &&& after.bridges == s.bridges
            &&& after.frames == s.frames
        }),
{
    lemma_other_retries(s.retries, id, 0);
    let after = stream_attached(s, id, now);
    assert(after.streams.last() == id);
    assert(after.streams[after.streams.len() - 1] == id);
    if s.model is Some && 0 <= i < s.model->0.servers.len() && s.model->0.servers[i].id == id && (
    forall|j: int| 0 <= j < i ==> (#[trigger] s.model->0.servers[j]).id != id) {
        lemma_is_index_of_server(s.model->0.servers, id, i);
    }
}

proof fn lemma_first_retries(retries: Seq<RetryView>, ids: Seq<Seq<char>>, now: u64)
    ensures
        forall|k: int|
            0 <= k < ids.len() ==> has_retry(
                with_first_retries(retries, ids, now),
                #[trigger] ids[k],
            ),
        with_first_retries(retries, ids, now).len() >= retries.len(),
        with_first_retries(retries, ids, now).take(retries.len() as int) == retries,
    decreases ids.len(),
{
    if ids.len() == 0 {
        assert(retries.take(retries.len() as int) =~= retries);
    } else {
        let front = ids.drop_last();
        lemma_first_retries(retries, front, now);
        let before = with_first_retries(retries, front, now);
        let after = with_first_retries(retries, ids, now);
        assert forall|k: int| 0 <= k < ids.len() implies has_retry(after, #[trigger] ids[k]) by {
            if k < front.len() {
                assert(front[k] == ids[k]);
                let i = choose|i: int|
                    0 <= i < before.len() && (#[trigger] before[i]).server_id == ids[k];
                assert(after[i] == before[i]);
            } else if !has_retry(before, ids.last()) {
                assert(after[after.len() - 1].server_id == ids[k]);
            }
        }
        assert(after.take(retries.len() as int) =~= before.take(retries.len() as int));
    }
}

/// Every enabled remote without a stream, unless its protocol differs, is going to be tried, and
/// a try that was set already is left as it was.
pub proof fn law_remotes_without_a_stream_are_tried(s: StateView, now: u64, i: int, k: int)
    requires
        s.model is Some,
        0 <= i < s.model->0.servers.len(),
        s.model->0.servers[i].role is Secondary,
        !s.model->0.servers[i].disabled,
        !s.streams.contains(s.model->0.servers[i].id),
        !(s.model->0.servers[i].connection_state is ProtocolMismatch),
    ensures
        has_retry(missing_scheduled(s, now).retries, s.model->0.servers[i].id),
        0 <= k < s.retries.len() ==> missing_scheduled(s, now).retries[k] == s.retries[k],
        missing_scheduled(s, now).model == s.model,
        missing_scheduled(s, now).streams == s.streams,
{
    let m = s.model->0;
    let f = |x: ServerView| streamless_id(x, s.streams);
    assert(f(m.servers[i]) is Some);
    let at = lemma_pick_covers(m.servers, f, i);
    let ids = crate::client_state::wanting_streams(m, s.streams);
    assert(ids[at] == m.servers[i].id);
    lemma_first_retries(s.retries, ids, now);
    if 0 <= k < s.retries.len() {
        let after = with_first_retries(s.retries, ids, now);
        assert(after.take(s.retries.len() as int)[k] == after[k]);
    }
}

/// A host that changed its size is noted, and the servers are told the room beside the sidebar.
pub proof fn law_resize_tells_the_room(s: StateView, size: (u16, u16), cell: (u32, u32))
    ensures
        ({
            let after = host_resized(s, size, cell);
            &&& after.host_size == size
            &&& after.cell_size_px == cell
            &&& s.compositor is None ==> after.reported_size == size
            &&& s.compositor is Some && s.compositor->0.sidebar_width < size.0
                ==> after.reported_size == ((size.0 - s.compositor->0.sidebar_width) as u16, size.1)
            &&& resize_message(after) == (ClientMessage::Resize {
                cols: after.reported_size.0,
                rows: after.reported_size.1,
                cell_width_px: cell.0,
                cell_height_px: cell.1,
            })
            &&& after.model == s.model
            &&& after.compositor == s.compositor
            &&& after.frames == s.frames
        }),
{
}

/// Each message of a server is given its due: a notice is shown and a clipboard set whoever sends
/// them, output is printed only where it comes from the server that is shown, pictures only where
/// they can be drawn, and the mouse is taken where that server, or the sidebar, wants it.
pub proof fn law_messages_are_given_their_due(
    s: StateView,
    id: Seq<char>,
    bytes: Vec<u8>,
    kind: NotifyKind,
    text: String,
    enabled: bool,
)
    ensures
        message_handled(s, id, ServerMessage::Notify { kind, message: text }) == (
            s,
            seq![ActionView::Notify { kind, message: text }],
        ),
        message_handled(s, id, ServerMessage::Clipboard { data: text }) == (
            s,
            seq![ActionView::SetClipboard { data: text }],
        ),
        message_handled(s, id, ServerMessage::ReloadSoundConfig) == (
            s,
            seq![ActionView::ReloadConfig],
        ),
        id == shown_server(s) ==> {
            let r = message_handled(s, id, ServerMessage::Terminal { bytes });
            &&& r.0 == s
            &&& r.1.len() == 1
            &&& r.1[0] is Print
            &&& r.1[0]->Print_bytes == bytes
            &&& !s.kitty_graphics_enabled ==> !r.1[0]->record_graphics
        },
        id != shown_server(s) ==> message_handled(s, id, ServerMessage::Terminal { bytes }) == (
            s,
            Seq::<ActionView>::empty(),
        ),
        id == shown_server(s) && s.kitty_graphics_enabled ==> message_handled(
            s,
            id,
            ServerMessage::Graphics { bytes },
        ) == (s, seq![ActionView::Print { bytes, record_graphics: true }]),
        id != shown_server(s) || !s.kitty_graphics_enabled ==> message_handled(
            s,
            id,
            ServerMessage::Graphics { bytes },
        ) == (s, Seq::<ActionView>::empty()),
        ({
            let r = message_handled(s, id, ServerMessage::MouseCapture { enabled });
            let wanted = enabled || s.compositor is Some;
            &&& id == shown_server(s) ==> r.0.mouse_capture_active == wanted
            &&& id == shown_server(s) && wanted != s.mouse_capture_active ==> r.1 == seq![
                ActionView::SetMouseCapture { enabled: wanted },
            ]
            &&& id == shown_server(s) && wanted == s.mouse_capture_active ==> r.1.len() == 0
            &&& id != shown_server(s) ==> r.0 == s && r.1.len() == 0
        }),
{
}

/// A frame is kept for its server and drawn where the server that is shown has one; without a
/// sidebar it is shown as it is.
pub proof fn law_frames_are_kept_and_drawn(s: StateView, id: Seq<char>, frame: FrameData)
    ensures
        s.compositor is None || s.model is None ==> message_handled(
            s,
            id,
            ServerMessage::Frame(frame),
        ) == (s, seq![ActionView::ShowFrame { frame }]),
        s.compositor is Some && s.model is Some ==> {
            let r = message_handled(s, id, ServerMessage::Frame(frame));
            &&& r.0.frames.len() > 0
            &&& r.0.frames.last().server_id == id
            &&& r.0.frames.last().frame == frame
            &&& id == s.model->0.active ==> r.1 == seq![ActionView::RenderCached]
            &&& id == s.model->0.active ==> frame_to_draw(r.0) == Some(frame)
            &&& r.0.model == s.model
            &&& r.0.compositor == s.compositor
        },
{
    if s.compositor is Some && s.model is Some {
        crate::client_loop::law_last_frame_is_drawn(s, id, frame);
    }
}

/// A screen that was drawn needs no full drawing again, and drawing changes nothing but what is
/// known of the agents that work; with no frame to draw nothing changes.
pub proof fn law_drawing_the_screen(s: StateView, now: u64)
    ensures
        frame_to_draw(s) is None ==> screen_drawn(s, now) == s,
        frame_to_draw(s) is Some ==> {
            let after = screen_drawn(s, now);
            &&& !after.full_redraw
            &&& after.model == s.model
            &&& after.frames == s.frames
            &&& after.retries == s.retries
            &&& after.compositor is Some
            &&& after.compositor->0.sidebar_width == s.compositor->0.sidebar_width
            &&& after.compositor->0.hover == s.compositor->0.hover
        },
        s.compositor is None || s.model is None ==> frame_to_draw(s) is None,
{
}

/// What is read again, in order: the summaries, then what is tried, then what is followed, and
/// then the screen is drawn.
pub proof fn law_refresh_goes_in_order(s: StateView, now: u64)
    ensures
        refresh_actions(true) == seq![
            ActionView::RefreshSummaries,
            ActionView::ScheduleRetries,
            ActionView::StartSubscriptions,
            ActionView::RenderCached,
        ],
        refresh_actions(false) == seq![ActionView::ScheduleRetries, ActionView::RenderCached],
        after_change(true) == seq![
            ActionView::RefreshSummaries,
            ActionView::StartSubscriptions,
            ActionView::RenderCached,
        ],
        after_change(false) == seq![ActionView::RenderCached],
        s.model is Some ==> refreshed(s, now).last_refresh == now && refreshed(s, now).full_redraw,
        refreshed(s, now).model == s.model,
{
}

/// Input goes to the server that is shown, as it came, except a paste that may be a picture, which
/// is looked for in the clipboard first: an empty paste, or a press of `v` with control and no
/// other key.
pub proof fn law_input_goes_to_the_shown_server(
    s: StateView,
    data: Vec<u8>,
    events: Seq<RawInputEvent>,
)
    ensures
        asks_for_image(data@, events) ==> forwarded(s, data, events) == seq![
            ActionView::ReadClipboardImage { data },
        ],
        !asks_for_image(data@, events) ==> forwarded(s, data, events) == seq![
            ActionView::Write {
                server_id: shown_server(s),
                message: ClientMessage::Input { data },
            },
        ],
        data@ == seq![
            0x1bu8,
            0x5bu8,
            0x32u8,
            0x30u8,
            0x30u8,
            0x7eu8,
            0x1bu8,
            0x5bu8,
            0x32u8,
            0x30u8,
            0x31u8,
            0x7eu8,
        ] ==> asks_for_image(data@, events),
        asks_for_image(data@, events) && data@.len() != 12 ==> events.len() == 1 && events[0] is Key
            && events[0]->Key_0.modifiers.control && !events[0]->Key_0.modifiers.shift
            && !events[0]->Key_0.modifiers.alt && events[0]->Key_0.kind is Press && (
        events[0]->Key_0.code == KeyCode::Char('v') || events[0]->Key_0.code == KeyCode::Char(
            'V',
        )),
        events.len() == 1 && events[0] is Key && events[0]->Key_0.kind is Press
            && events[0]->Key_0.code == KeyCode::Char('v') && events[0]->Key_0.modifiers == (
        crate::input::KeyModifiers { control: true, ..crate::input::no_modifiers() })
            ==> asks_for_image(data@, events),
{
}

/// What becomes of input that the client took for itself: a request goes to its server, a
/// message likewise and the screen is drawn, a resize is told to every server, a detach leaves
/// them all, and what was consumed does nothing.
pub proof fn law_taken_input_is_carried_out(s: StateView, dispatch: ClientInputDispatch)
    ensures
        dispatch is ApiRequest ==> dispatch_actions(s, dispatch) == seq![
            ActionView::SendRequest {
                server_id: dispatch->ApiRequest_server_id@,
                refresh: dispatch->refresh,
                request: dispatch->request,
            },
        ] && dispatch_state(s, dispatch) == s,
        dispatch is ServerControl ==> dispatch_actions(s, dispatch) == seq![
            ActionView::Write {
                server_id: dispatch->ServerControl_server_id@,
                message: dispatch->message,
            },
            ActionView::RenderCached,
        ] && dispatch_state(s, dispatch).full_redraw,
        dispatch is Resize ==> {
            let after = dispatch_state(s, dispatch);
            &&& after.reported_size == (dispatch->cols, dispatch->rows)
            &&& after.full_redraw
            &&& dispatch_actions(s, dispatch) == seq![
                ActionView::Broadcast {
                    message: ClientMessage::Resize {
                        cols: dispatch->cols,
                        rows: dispatch->rows,
                        cell_width_px: s.cell_size_px.0,
                        cell_height_px: s.cell_size_px.1,
                    },
                },
                ActionView::RenderCached,
            ]
        },
        dispatch is AddRemote ==> dispatch_actions(s, dispatch) == seq![
            ActionView::AddRemote { draft: dispatch->AddRemote_0 },
        ],
        dispatch is DetachAll ==> dispatch_actions(s, dispatch) == seq![
            ActionView::DetachEverywhere,
        ],
        dispatch is Redraw ==> dispatch_actions(s, dispatch) == seq![ActionView::RenderCached]
            && dispatch_state(s, dispatch).full_redraw,
        dispatch is Consumed ==> dispatch_actions(s, dispatch).len() == 0 && dispatch_state(
            s,
            dispatch,
        ) == s,
{
}

/// While attached to one terminal, scrolling is asked of the main server, a detach ends the
/// client, and what was swallowed does nothing.
pub proof fn law_attached_input_is_carried_out<P>(
    r: LoopOutcome,
    s: StateView,
    parse: P,
    action: AttachInputAction,
) where P: Fn(&Vec<u8>) -> Vec<RawInputEvent>
    requires
        attach_outcome_is(r, s, parse, action),
    ensures
        action is Scroll ==> r.exit is None && r.actions.deep_view() == seq![
            ActionView::Write {
                server_id: "main"@,
                message: ClientMessage::AttachScroll(action->Scroll_0),
            },
        ],
        action is Swallow ==> r.exit is None && r.actions.deep_view().len() == 0,
        action is Detach ==> r.exit == Some(Ok::<(), ClientError>(())) && r.actions.deep_view()
            == seq![ActionView::DetachMain],
{
}

/// A message that could not be sent closes its server; where it was input, the screen is drawn
/// again.
pub proof fn law_failed_write_closes_the_server(id: Seq<char>, message: ClientMessage)
    ensures
        write_failure_actions(id, message).len() >= 1,
        write_failure_actions(id, message)[0] == (ActionView::Close { server_id: id }),
        message is Input || message is ClipboardImage ==> write_failure_actions(id, message)
            == seq![ActionView::Close { server_id: id }, ActionView::RenderCached],
        !(message is Input) && !(message is ClipboardImage) ==> write_failure_actions(
            id,
            message,
        ).len() == 1,
{
}

/// With each beat of the timer the tries that are due are made and the summaries checked; the
/// sidebar moves on, and is drawn, exactly while something in it moves.
pub proof fn law_timer(s: StateView)
    ensures
        ({
            let moves = s.compositor is Some && s.model is Some && wants_animation(s.model->0);
            let after = timer_passed(s);
            &&& moves ==> timer_actions(s) == seq![
                ActionView::RetryDue,
                ActionView::CheckRefresh,
                ActionView::RenderCached,
            ]
            &&& !moves ==> timer_actions(s) == seq![ActionView::RetryDue, ActionView::CheckRefresh]
            &&& !moves ==> after == s
            &&& moves && s.compositor->0.animation_tick <= u32::MAX - 8 ==> after.compositor == Some(
                CompositorView {
                    animation_tick: (s.compositor->0.animation_tick + 8) as u32,
                    ..s.compositor->0
                },
            )
            &&& moves ==> after.compositor is Some && after.compositor->0.animation_tick
                != s.compositor->0.animation_tick
            &&& after.model == s.model
        }),
{
}

/// Something in the sidebar moves while a shown agent works, or a remote is being added.
pub proof fn law_work_moves_the_sidebar(m: crate::supervisor::ModelView, i: int, j: int)
    ensures
        0 <= i < agent_groups_of(m).len() && 0 <= j < agent_groups_of(m)[i].agents.len()
            && agent_groups_of(m)[i].agents[j].status == "working"@ ==> wants_animation(m),
        m.adding ==> wants_animation(m),
{
    if 0 <= i < agent_groups_of(m).len() && 0 <= j < agent_groups_of(m)[i].agents.len()
        && agent_groups_of(m)[i].agents[j].status == "working"@ {
        assert(crate::compositor::any_working(agent_groups_of(m)));
    }
}

} // verus!
