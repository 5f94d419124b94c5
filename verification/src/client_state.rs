//! The state of a running client: its servers, its connections to them, and when it tries again.

use vstd::prelude::*;

use crate::attach::AttachEscapeState;
use crate::client::{
    api_target_for_supervisor_target, api_target_of, bridge_to, state_after_error, ApiTargetView,
    BridgeView, ClientError, ConnectionTarget, SshBridge,
};
use crate::compositor::{ClientCompositor, CompositorView};
use crate::frame::FrameData;
use crate::seqs::{lemma_pick_covers, lemma_pick_source, lemma_pick_step, pick};
use crate::servers::{
    main_id, ConnectionState, ConnectionView, ManagedServer, ServerId, ServerView,
};
use crate::supervisor::routes::{
    lists_id, plans_of, streamless_id, subscription_of, unconnected_id, PlanView,
    SecondaryConnectionPlan, SummarySubscriptionPlan,
};
use crate::supervisor::{
    connection_set, index_of_server, lemma_index_of_server, ClientSupervisorModel, ModelView,
};

verus! {

/// How often summaries are read, in milliseconds.
pub const REFRESH_INTERVAL_MILLIS: u64 = 2000;

/// When the connection to a server is tried again.
#[derive(Debug, PartialEq, Eq)]
pub struct SecondaryRetryState {
    pub server_id: ServerId,
    /// How many tries have failed since the connection was lost.
    pub attempt: usize,
    /// In milliseconds.
    pub next_retry_at: u64,
}

#[verifier::ext_equal]
pub struct RetryView {
    pub server_id: Seq<char>,
    pub attempt: usize,
    pub next_retry_at: u64,
}

impl DeepView for SecondaryRetryState {
    type V = RetryView;

    open spec fn deep_view(&self) -> RetryView {
        RetryView {
            server_id: self.server_id@,
            attempt: self.attempt,
            next_retry_at: self.next_retry_at,
        }
    }
}

impl Clone for SecondaryRetryState {
    fn clone(&self) -> (r: Self)
        ensures
            r == *self,
    {
        SecondaryRetryState {
            server_id: self.server_id.clone(),
            attempt: self.attempt,
            next_retry_at: self.next_retry_at,
        }
    }
}

/// The last frame of a server.
#[derive(Debug)]
pub struct CachedFrame {
    pub server_id: ServerId,
    pub frame: FrameData,
}

/// The last frame of a server, as a mathematical value.
pub struct CachedView {
    pub server_id: Seq<char>,
    pub frame: FrameData,
}

impl DeepView for CachedFrame {
    type V = CachedView;

    open spec fn deep_view(&self) -> CachedView {
        CachedView { server_id: self.server_id@, frame: self.frame }
    }
}

/// The state of a running client.
pub struct ClientState {
    /// The servers, for a client with its own sidebar.
    pub supervisor_model: Option<ClientSupervisorModel>,
    pub compositor: Option<ClientCompositor>,
    /// The prefix key, for a client of one terminal.
    pub attach_escape: Option<AttachEscapeState>,
    /// The size that the servers were told.
    pub reported_size: (u16, u16),
    pub host_size: (u16, u16),
    pub cell_size_px: (u32, u32),
    pub kitty_graphics_enabled: bool,
    pub mouse_capture_active: bool,
    pub mouse_scroll_lines: usize,
    /// When summaries were last read, in milliseconds.
    pub last_refresh: u64,
    pub frames: Vec<CachedFrame>,
    /// The servers to which a stream is open.
    pub streams: Vec<ServerId>,
    /// The servers whose summaries are followed.
    pub subscriptions: Vec<ServerId>,
    pub bridges: Vec<SshBridge>,
    pub retries: Vec<SecondaryRetryState>,
    /// Whether the next frame is drawn in full.
    pub full_redraw: bool,
}

/// The state as a mathematical value.
#[verifier::ext_equal]
pub struct StateView {
    pub model: Option<ModelView>,
    pub compositor: Option<CompositorView>,
    pub pending_prefix: Option<bool>,
    pub reported_size: (u16, u16),
    pub host_size: (u16, u16),
    pub cell_size_px: (u32, u32),
    pub kitty_graphics_enabled: bool,
    pub mouse_capture_active: bool,
    pub mouse_scroll_lines: usize,
    pub last_refresh: u64,
    pub frames: Seq<CachedView>,
    pub streams: Seq<Seq<char>>,
    pub subscriptions: Seq<Seq<char>>,
    pub bridges: Seq<BridgeView>,
    pub retries: Seq<RetryView>,
    pub full_redraw: bool,
}

impl View for ClientState {
    type V = StateView;

    open spec fn view(&self) -> StateView {
        StateView {
            model: match self.supervisor_model {
                Some(model) => Some(model@),
                None => None,
            },
            compositor: match self.compositor {
                Some(compositor) => Some(compositor@),
                None => None,
            },
            pending_prefix: match self.attach_escape {
                Some(escape) => Some(escape.pending_prefix),
                None => None,
            },
            reported_size: self.reported_size,
            host_size: self.host_size,
            cell_size_px: self.cell_size_px,
            kitty_graphics_enabled: self.kitty_graphics_enabled,
            mouse_capture_active: self.mouse_capture_active,
            mouse_scroll_lines: self.mouse_scroll_lines,
            last_refresh: self.last_refresh,
            frames: self.frames.deep_view(),
            streams: self.streams.deep_view(),
            subscriptions: self.subscriptions.deep_view(),
            bridges: self.bridges.deep_view(),
            retries: self.retries.deep_view(),
            full_redraw: self.full_redraw,
        }
    }
}

/// Whether it is time to read the summaries.
pub open spec fn refresh_due(now: u64, last_refresh: u64) -> bool {
    now >= last_refresh + REFRESH_INTERVAL_MILLIS
}

/// Whether it is time to read the summaries.
pub fn supervisor_summary_refresh_due(now: u64, last_refresh: u64) -> (r: bool)
    ensures
        r == refresh_due(now, last_refresh),
{
    now >= last_refresh && now - last_refresh >= REFRESH_INTERVAL_MILLIS
}

/// How long to wait for the next try, in milliseconds.
pub open spec fn retry_delay(attempt: usize) -> u64 {
    if attempt == 0 {
        1000
    } else if attempt == 1 {
        2000
    } else if attempt == 2 {
        5000
    } else {
        15000
    }
}

/// How long to wait for the next try, in milliseconds.
pub fn secondary_retry_delay(attempt: usize) -> (r: u64)
    ensures
        r == retry_delay(attempt),
{
    if attempt == 0 {
        1000
    } else if attempt == 1 {
        2000
    } else if attempt == 2 {
        5000
    } else {
        15000
    }
}

/// The wait for the next try never gets shorter, and never longer than a quarter of a minute.
pub proof fn law_retry_delay_grows(a: usize, b: usize)
    requires
        a <= b,
    ensures
        retry_delay(a) <= retry_delay(b) <= 15000,
        retry_delay(a) >= 1000,
{
}

/// A time so many milliseconds later, at most the last one.
pub open spec fn later(now: u64, millis: u64) -> u64 {
    if now + millis > u64::MAX {
        u64::MAX
    } else {
        (now + millis) as u64
    }
}

/// A try of this number.
pub open spec fn retry_at(id: Seq<char>, attempt: usize, now: u64) -> RetryView {
    RetryView { server_id: id, attempt, next_retry_at: later(now, retry_delay(attempt)) }
}

/// A retry, unless it is for this server.
pub open spec fn other_retry(retry: RetryView, id: Seq<char>) -> Option<RetryView> {
    if retry.server_id == id {
        None
    } else {
        Some(retry)
    }
}

/// The retries without that for a server.
pub open spec fn retries_without(retries: Seq<RetryView>, id: Seq<char>) -> Seq<RetryView> {
    pick(retries, |r: RetryView| other_retry(r, id))
}

/// Whether a server is tried again.
pub open spec fn has_retry(retries: Seq<RetryView>, id: Seq<char>) -> bool {
    exists|i: int| 0 <= i < retries.len() && (#[trigger] retries[i]).server_id == id
}

/// An id, unless it is this one.
pub open spec fn other_id(a: Seq<char>, id: Seq<char>) -> Option<Seq<char>> {
    if a == id {
        None
    } else {
        Some(a)
    }
}

/// The ids without this one.
pub open spec fn ids_without(ids: Seq<Seq<char>>, id: Seq<char>) -> Seq<Seq<char>> {
    pick(ids, |a: Seq<char>| other_id(a, id))
}

/// The streams with one to a server, in place of an earlier one.
pub open spec fn streams_with(streams: Seq<Seq<char>>, id: Seq<char>) -> Seq<Seq<char>> {
    ids_without(streams, id).push(id)
}

pub open spec fn other_frame(frame: CachedView, id: Seq<char>) -> Option<CachedView> {
    if frame.server_id == id {
        None
    } else {
        Some(frame)
    }
}

/// The frames without that of a server.
pub open spec fn frames_without(frames: Seq<CachedView>, id: Seq<char>) -> Seq<CachedView> {
    pick(frames, |f: CachedView| other_frame(f, id))
}

pub open spec fn other_bridge(bridge: BridgeView, id: Seq<char>) -> Option<BridgeView> {
    if bridge.server_id == id {
        None
    } else {
        Some(bridge)
    }
}

/// The bridges without that to a server.
pub open spec fn bridges_without(bridges: Seq<BridgeView>, id: Seq<char>) -> Seq<BridgeView> {
    pick(bridges, |b: BridgeView| other_bridge(b, id))
}

/// The bridges with a new one, in place of an earlier one to the same server.
pub open spec fn bridges_with(bridges: Seq<BridgeView>, bridge: BridgeView) -> Seq<BridgeView> {
    bridges_without(bridges, bridge.server_id).push(bridge)
}

/// The state in which a server is tried again after this many failures.
pub open spec fn retry_scheduled(
    s: StateView,
    id: Seq<char>,
    attempt: usize,
    now: u64,
) -> StateView {
    StateView {
        retries: retries_without(s.retries, id).push(retry_at(id, attempt, now)),
        ..s
    }
}

/// The model with a connection noted, where the server is there.
pub open spec fn connection_noted(
    model: Option<ModelView>,
    id: Seq<char>,
    state: ConnectionState,
) -> Option<ModelView> {
    match model {
        None => None,
        Some(m) => match index_of_server(m.servers, id) {
            Some(i) => Some(connection_set(m, i, id, state)),
            None => Some(m),
        },
    }
}

/// The state without anything that is bound to a server's connection.
pub open spec fn server_dropped(s: StateView, id: Seq<char>) -> StateView {
    StateView {
        streams: ids_without(s.streams, id),
        frames: frames_without(s.frames, id),
        subscriptions: ids_without(s.subscriptions, id),
        bridges: bridges_without(s.bridges, id),
        ..s
    }
}

/// The state after a remote's server was lost: nothing of its connection is left, it is shown as
/// disconnected, and it will be tried again. `redraw` says whether the screen is drawn in full.
pub open spec fn server_lost(s: StateView, id: Seq<char>, now: u64, redraw: bool) -> StateView {
    let dropped = server_dropped(s, id);
    retry_scheduled(
        StateView {
            model: connection_noted(s.model, id, ConnectionState::Disconnected),
            full_redraw: s.full_redraw || redraw,
            ..dropped
        },
        id,
        0,
        now,
    )
}

/// The id of the active server.
pub open spec fn active_of(s: StateView) -> Seq<char> {
    match s.model {
        Some(m) => m.active,
        None => main_id(),
    }
}

/// A retry that is due.
pub open spec fn due_retry(retry: RetryView, now: u64) -> Option<(Seq<char>, usize)> {
    if retry.next_retry_at <= now {
        Some((retry.server_id, retry.attempt))
    } else {
        None
    }
}

/// The retries with one more, for a server that has none.
pub open spec fn with_first_retry(
    retries: Seq<RetryView>,
    id: Seq<char>,
    now: u64,
) -> Seq<RetryView> {
    if has_retry(retries, id) {
        retries
    } else {
        retries.push(retry_at(id, 0, now))
    }
}

/// The retries with one for each of the servers.
pub open spec fn with_first_retries(
    retries: Seq<RetryView>,
    ids: Seq<Seq<char>>,
    now: u64,
) -> Seq<RetryView>
    decreases ids.len(),
{
    if ids.len() == 0 {
        retries
    } else {
        with_first_retry(with_first_retries(retries, ids.drop_last(), now), ids.last(), now)
    }
}

/// The remotes' servers that want a stream: those without one, and those not connected.
pub open spec fn wanting_streams(m: ModelView, streams: Seq<Seq<char>>) -> Seq<Seq<char>> {
    pick(m.servers, |s: ServerView| streamless_id(s, streams)) + pick(
        m.servers,
        |s: ServerView| unconnected_id(s),
    )
}

/// The state in which every server that wants a stream is tried again.
pub open spec fn missing_scheduled(s: StateView, now: u64) -> StateView {
    match s.model {
        None => s,
        Some(m) => StateView {
            retries: with_first_retries(s.retries, wanting_streams(m, s.streams), now),
            ..s
        },
    }
}

/// The plan for a server.
pub open spec fn plan_named(plans: Seq<PlanView>, id: Seq<char>) -> Option<PlanView>
    decreases plans.len(),
{
    if plans.len() == 0 {
        None
    } else if plans[0].server_id == id {
        Some(plans[0])
    } else {
        plan_named(plans.drop_first(), id)
    }
}

/// The plan for a server of the model, where there is one.
pub open spec fn retry_plan(s: StateView, id: Seq<char>) -> Option<PlanView> {
    match s.model {
        Some(m) => plan_named(plans_of(m.servers), id),
        None => None,
    }
}

/// The state after a try to connect failed. Another protocol ends the tries; the bridge is given
/// up.
pub open spec fn connect_failed(
    s: StateView,
    id: Seq<char>,
    attempt: usize,
    error: ClientError,
    now: u64,
) -> StateView {
    let state = state_after_error(error);
    let next: usize = if attempt == usize::MAX {
        attempt
    } else {
        (attempt + 1) as usize
    };
    let tried = if state is ProtocolMismatch {
        StateView { retries: retries_without(s.retries, id), ..s }
    } else {
        retry_scheduled(s, id, next, now)
    };
    StateView {
        bridges: bridges_without(s.bridges, id),
        model: connection_noted(s.model, id, state),
        full_redraw: true,
        ..tried
    }
}

/// The state after a stream could not be taken over.
pub open spec fn attach_failed(
    s: StateView,
    id: Seq<char>,
    attempt: usize,
    error: ClientError,
    now: u64,
) -> StateView {
    let next: usize = if attempt == usize::MAX {
        attempt
    } else {
        (attempt + 1) as usize
    };
    StateView {
        model: connection_noted(s.model, id, state_after_error(error)),
        full_redraw: true,
        ..retry_scheduled(s, id, next, now)
    }
}

/// The state after a stream was taken over.
pub open spec fn stream_attached(s: StateView, id: Seq<char>, now: u64) -> StateView {
    StateView {
        retries: retries_without(s.retries, id),
        streams: streams_with(s.streams, id),
        model: connection_noted(s.model, id, ConnectionState::Connected),
        last_refresh: if s.model is Some {
            now
        } else {
            s.last_refresh
        },
        full_redraw: true,
        ..s
    }
}

/// What came of a try to connect that was carried out.
#[derive(Debug, PartialEq, Eq)]
pub enum TryOutcome {
    /// There was no connection.
    ConnectFailed { error: ClientError },
    /// There was one, but its stream could not be taken over.
    AttachFailed { error: ClientError },
    /// There is a stream.
    Attached,
}

/// The state after a try was carried out.
pub open spec fn try_done(
    s: StateView,
    id: Seq<char>,
    attempt: usize,
    outcome: TryOutcome,
    now: u64,
) -> StateView {
    match outcome {
        TryOutcome::ConnectFailed { error } => connect_failed(s, id, attempt, error, now),
        TryOutcome::AttachFailed { error } => attach_failed(s, id, attempt, error, now),
        TryOutcome::Attached => stream_attached(s, id, now),
    }
}

/// The list of ids without this one.
pub(crate) fn remove_id(ids: &Vec<ServerId>, id: &ServerId) -> (r: Vec<ServerId>)
    ensures
        r.deep_view() == ids_without(ids.deep_view(), id@),
{
    let ghost all = ids.deep_view();
    let ghost f = |a: Seq<char>| other_id(a, id@);
    let mut left: Vec<ServerId> = Vec::new();
    let mut i: usize = 0;
    assert(left.deep_view() =~= pick(all.take(0), f));
    while i < ids.len()
        invariant
            i <= ids@.len(),
            all == ids.deep_view(),
            f == (|a: Seq<char>| other_id(a, id@)),
            left.deep_view() =~= pick(all.take(i as int), f),
        decreases ids@.len() - i,
    {
        let ghost before = left.deep_view();
        assert(all[i as int] == ids@[i as int]@);
        proof {
            lemma_pick_step(all, i as int, f);
        }
        if !ids[i].is(id) {
            let copy: ServerId = ids[i].clone();
            left.push(copy);
            assert(left.deep_view() =~= before.push(copy@));
        }
        i = i + 1;
    }
    assert(all.take(i as int) =~= all);
    left
}

pub(crate) fn remove_bridge(bridges: &Vec<SshBridge>, id: &ServerId) -> (r: Vec<SshBridge>)
    ensures
        r.deep_view() == bridges_without(bridges.deep_view(), id@),
{
    let ghost all = bridges.deep_view();
    let ghost f = |b: BridgeView| other_bridge(b, id@);
    let mut left: Vec<SshBridge> = Vec::new();
    let mut i: usize = 0;
    assert(left.deep_view() =~= pick(all.take(0), f));
    while i < bridges.len()
        invariant
            i <= bridges@.len(),
            all == bridges.deep_view(),
            f == (|b: BridgeView| other_bridge(b, id@)),
            left.deep_view() =~= pick(all.take(i as int), f),
        decreases bridges@.len() - i,
    {
        let ghost before = left.deep_view();
        let bridge: &SshBridge = &bridges[i];
        assert(all[i as int] == bridge.deep_view());
        proof {
            lemma_pick_step(all, i as int, f);
        }
        if !bridge.server_id.is(id) {
            let copy: SshBridge = SshBridge {
                server_id: bridge.server_id.clone(),
                client_socket: bridge.client_socket.clone(),
                api_socket: bridge.api_socket.clone(),
            };
            left.push(copy);
            assert(left.deep_view() =~= before.push(copy.deep_view()));
        }
        i = i + 1;
    }
    assert(all.take(i as int) =~= all);
    left
}

/// Notes a bridge that was started, in place of an earlier one to the same server.
pub fn add_bridge(bridges: &mut Vec<SshBridge>, bridge: SshBridge)
    ensures
        final(bridges).deep_view() == bridges_with(old(bridges).deep_view(), bridge.deep_view()),
{
    let mut left: Vec<SshBridge> = remove_bridge(bridges, &bridge.server_id);
    let ghost before = left.deep_view();
    let ghost view = bridge.deep_view();
    left.push(bridge);
    assert(left.deep_view() =~= before.push(view));
    *bridges = left;
}

/// Notes a stream that was opened to a server, in place of an earlier one.
pub(crate) fn add_stream(streams: &mut Vec<ServerId>, server_id: ServerId)
    ensures
        final(streams).deep_view() == streams_with(old(streams).deep_view(), server_id@),
{
    let mut left: Vec<ServerId> = remove_id(streams, &server_id);
    let ghost before = left.deep_view();
    let ghost id = server_id@;
    left.push(server_id);
    assert(left.deep_view() =~= before.push(id));
    *streams = left;
}

fn remove_retry(retries: &Vec<SecondaryRetryState>, id: &ServerId) -> (r: Vec<SecondaryRetryState>)
    ensures
        r.deep_view() == retries_without(retries.deep_view(), id@),
{
    let ghost all = retries.deep_view();
    let ghost f = |x: RetryView| other_retry(x, id@);
    let mut left: Vec<SecondaryRetryState> = Vec::new();
    let mut i: usize = 0;
    assert(left.deep_view() =~= pick(all.take(0), f));
    while i < retries.len()
        invariant
            i <= retries@.len(),
            all == retries.deep_view(),
            f == (|x: RetryView| other_retry(x, id@)),
            left.deep_view() =~= pick(all.take(i as int), f),
        decreases retries@.len() - i,
    {
        let ghost before = left.deep_view();
        assert(all[i as int] == retries@[i as int].deep_view());
        proof {
            lemma_pick_step(all, i as int, f);
        }
        if !retries[i].server_id.is(id) {
            let copy: SecondaryRetryState = retries[i].clone();
            left.push(copy);
            assert(left.deep_view() =~= before.push(copy.deep_view()));
        }
        i = i + 1;
    }
    assert(all.take(i as int) =~= all);
    left
}

/// Takes the frames of a server out of the list.
pub(crate) fn remove_frames(frames: &mut Vec<CachedFrame>, id: &ServerId)
    ensures
        final(frames).deep_view() == frames_without(old(frames).deep_view(), id@),
{
    let ghost all = frames.deep_view();
    let ghost f = |x: CachedView| other_frame(x, id@);
    let mut left: Vec<CachedFrame> = Vec::new();
    let mut done: Ghost<int> = Ghost(0);
    assert(left.deep_view() =~= pick(all.take(0), f));
    assert(all.skip(0) =~= all);
    while frames.len() > 0
        invariant
            0 <= done@ <= all.len(),
            frames.deep_view() =~= all.skip(done@),
            f == (|x: CachedView| other_frame(x, id@)),
            left.deep_view() =~= pick(all.take(done@), f),
        decreases frames@.len(),
    {
        let ghost before = left.deep_view();
        let ghost rest = frames.deep_view();
        assert(rest.len() == frames@.len());
        let first: CachedFrame = frames.remove(0);
        proof {
            assert(first.deep_view() == rest[0]);
            assert(rest[0] == all[done@]);
            assert(frames.deep_view() =~= rest.drop_first());
            assert(rest.drop_first() =~= all.skip(done@ + 1));
            lemma_pick_step(all, done@, f);
        }
        if !first.server_id.is(id) {
            let ghost view = first.deep_view();
            left.push(first);
            assert(left.deep_view() =~= before.push(view));
        }
        proof {
            done@ = done@ + 1;
        }
    }
    assert(frames.deep_view().len() == frames@.len());
    assert(all.take(done@) =~= all);
    *frames = left;
}

fn finds_retry(retries: &Vec<SecondaryRetryState>, id: &ServerId) -> (r: bool)
    ensures
        r == has_retry(retries.deep_view(), id@),
{
    let ghost all = retries.deep_view();
    let mut i: usize = 0;
    while i < retries.len()
        invariant
            i <= retries@.len(),
            all == retries.deep_view(),
            forall|k: int| 0 <= k < i ==> (#[trigger] all[k]).server_id != id@,
        decreases retries@.len() - i,
    {
        assert(all[i as int] == retries@[i as int].deep_view());
        if retries[i].server_id.is(id) {
            return true;
        }
        i = i + 1;
    }
    false
}

fn find_plan(plans: &Vec<SecondaryConnectionPlan>, id: &ServerId) -> (r: Option<usize>)
    ensures
        match r {
            Some(i) => i < plans@.len() && plan_named(plans.deep_view(), id@) == Some(
                plans@[i as int].deep_view(),
            ),
            None => plan_named(plans.deep_view(), id@) is None,
        },
{
    let ghost all = plans.deep_view();
    let mut i: usize = 0;
    assert(all.skip(0) =~= all);
    while i < plans.len()
        invariant
            i <= plans@.len(),
            all == plans.deep_view(),
            plan_named(all, id@) == plan_named(all.skip(i as int), id@),
        decreases plans@.len() - i,
    {
        assert(all.skip(i as int)[0] == plans@[i as int].deep_view());
        if plans[i].server_id.is(id) {
            return Some(i);
        }
        assert(all.skip(i as int).drop_first() =~= all.skip(i + 1));
        i = i + 1;
    }
    None
}

/// What becomes of a due try.
#[derive(Debug, PartialEq, Eq)]
pub enum RetryDecision {
    /// There is a stream already, or the server is gone.
    Dropped,
    /// Connect by this plan.
    Connect(SecondaryConnectionPlan),
}

impl ClientState {
    /// The active server.
    pub fn active_server_id(&self) -> (r: ServerId)
        ensures
            r@ == active_of(self@),
    {
        match &self.supervisor_model {
            Some(model) => model.active_server_id().clone(),
            None => ServerId::main(),
        }
    }

    /// Has the next frame drawn in full.
    pub fn request_full_redraw(&mut self)
        ensures
            final(self)@ == (StateView { full_redraw: true, ..old(self)@ }),
    {
        self.full_redraw = true;
    }

    /// Tries a server again after this many failures.
    pub fn schedule_secondary_retry(&mut self, server_id: ServerId, attempt: usize, now: u64)
        ensures
            final(self)@ == retry_scheduled(old(self)@, server_id@, attempt, now),
    {
        let mut retries: Vec<SecondaryRetryState> = remove_retry(&self.retries, &server_id);
        let ghost before = retries.deep_view();
        let entry: SecondaryRetryState = SecondaryRetryState {
            server_id,
            attempt,
            next_retry_at: now.saturating_add(secondary_retry_delay(attempt)),
        };
        retries.push(entry);
        assert(retries.deep_view() =~= before.push(entry.deep_view()));
        self.retries = retries;
    }

    /// Tries every server again that wants a stream and is not tried already.
    pub fn schedule_missing_secondary_stream_retries(&mut self, now: u64)
        ensures
            final(self)@ == missing_scheduled(old(self)@, now),
    {
        let wanting: Vec<ServerId> = match &self.supervisor_model {
            None => {
                return;
            },
            Some(model) => {
                let mut ids: Vec<ServerId> = model.secondary_server_ids_missing_client_stream(
                    &self.streams,
                );
                let ghost first = ids.deep_view();
                let mut more: Vec<ServerId> = model.unconnected_secondary_server_ids();
                let ghost second = more.deep_view();
                ids.append(&mut more);
                assert(ids.deep_view() =~= first + second);
                ids
            },
        };
        let ghost all = wanting.deep_view();
        let ghost start = self.retries.deep_view();
        let ghost rest = self@;
        let mut i: usize = 0;
        assert(all.take(0) =~= Seq::<Seq<char>>::empty());
        while i < wanting.len()
            invariant
                i <= wanting@.len(),
                all == wanting.deep_view(),
                self@ == (StateView {
                    retries: with_first_retries(start, all.take(i as int), now),
                    ..rest
                }),
            decreases wanting@.len() - i,
        {
            let id: &ServerId = &wanting[i];
            proof {
                assert(all[i as int] == id@);
                assert(all.take(i + 1).drop_last() =~= all.take(i as int));
                assert(all.take(i + 1).last() == id@);
            }
            if !finds_retry(&self.retries, id) {
                let ghost before = self.retries.deep_view();
                let entry: SecondaryRetryState = SecondaryRetryState {
                    server_id: id.clone(),
                    attempt: 0,
                    next_retry_at: now.saturating_add(secondary_retry_delay(0)),
                };
                self.retries.push(entry);
                assert(self.retries.deep_view() =~= before.push(entry.deep_view()));
            }
            i = i + 1;
        }
        assert(all.take(i as int) =~= all);
    }

    /// Notes how a connection stands, where the server is there.
    pub(crate) fn note_connection(&mut self, server_id: &ServerId, state: ConnectionState)
        ensures
            final(self)@ == (StateView {
                model: connection_noted(old(self)@.model, server_id@, state),
                ..old(self)@
            }),
    {
        if let Some(model) = &mut self.supervisor_model {
            let noted: Result<(), ()> = model.set_connection_state(server_id, state);
        }
    }

    /// Drops everything that is bound to a server's connection.
    fn drop_server(&mut self, server_id: &ServerId)
        ensures
            final(self)@ == server_dropped(old(self)@, server_id@),
    {
        self.streams = remove_id(&self.streams, server_id);
        remove_frames(&mut self.frames, server_id);
        self.subscriptions = remove_id(&self.subscriptions, server_id);
        self.bridges = remove_bridge(&self.bridges, server_id);
    }

    /// Lets go of a remote's server: nothing of its connection is left, it is shown as
    /// disconnected, and it will be tried again.
    fn lose_server(&mut self, server_id: ServerId, now: u64, redraw: bool)
        ensures
            final(self)@ == server_lost(old(self)@, server_id@, now, redraw),
    {
        self.drop_server(&server_id);
        self.note_connection(&server_id, ConnectionState::Disconnected);
        if redraw {
            self.full_redraw = true;
        }
        self.schedule_secondary_retry(server_id, 0, now);
    }

    /// Handles a failed write: that to the main server ends the client, that to another only its
    /// connection.
    pub fn handle_server_write_failure(
        &mut self,
        server_id: ServerId,
        error: String,
        now: u64,
    ) -> (r: Result<(), ClientError>)
        ensures
            server_id@ == main_id() ==> r == Err::<(), ClientError>(
                ClientError::ConnectionLost { error },
            ) && final(self)@ == old(self)@,
            server_id@ != main_id() ==> r is Ok && final(self)@ == server_lost(
                old(self)@,
                server_id@,
                now,
                true,
            ),
    {
        let main: ServerId = ServerId::main();
        if server_id.is(&main) {
            return Err(ClientError::ConnectionLost { error });
        }
        self.lose_server(server_id, now, true);
        Ok(())
    }

    /// Handles the end of a connection: that of the main server ends the client.
    pub fn handle_server_disconnected(&mut self, server_id: ServerId, now: u64) -> (r: Result<
        (),
        ClientError,
    >)
        ensures
            server_id@ == main_id() ==> r is Err && r->Err_0 is ConnectionLost
                && r->Err_0->ConnectionLost_error@ == "server closed connection"@ && final(self)@
                == old(self)@,
            server_id@ != main_id() ==> r is Ok && final(self)@ == server_lost(
                old(self)@,
                server_id@,
                now,
                old(self)@.model is Some,
            ),
    {
        let main: ServerId = ServerId::main();
        if server_id.is(&main) {
            return Err(
                ClientError::ConnectionLost { error: "server closed connection".to_owned() },
            );
        }
        let redraw: bool = self.supervisor_model.is_some();
        self.lose_server(server_id, now, redraw);
        Ok(())
    }

    /// Handles a server's word that it shuts down: that of the main server ends the client.
    pub fn handle_server_shutdown(
        &mut self,
        server_id: ServerId,
        reason: Option<String>,
        now: u64,
    ) -> (r: Result<(), ClientError>)
        ensures
            server_id@ == main_id() ==> r == Err::<(), ClientError>(
                ClientError::ServerShutdown { reason },
            ) && final(self)@ == old(self)@,
            server_id@ != main_id() ==> r is Ok && final(self)@ == server_lost(
                old(self)@,
                server_id@,
                now,
                old(self)@.model is Some,
            ),
    {
        let main: ServerId = ServerId::main();
        if server_id.is(&main) {
            return Err(ClientError::ServerShutdown { reason });
        }
        let redraw: bool = self.supervisor_model.is_some();
        self.lose_server(server_id, now, redraw);
        Ok(())
    }

    /// The tries that are due, each with the number of failures before it.
    pub fn due_secondary_retries(&self, now: u64) -> (r: Vec<(ServerId, usize)>)
        ensures
            r@.map_values(|x: (ServerId, usize)| (x.0@, x.1)) == pick(
                self@.retries,
                |x: RetryView| due_retry(x, now),
            ),
    {
        let ghost all = self.retries.deep_view();
        let ghost f = |x: RetryView| due_retry(x, now);
        let ghost v = |x: (ServerId, usize)| (x.0@, x.1);
        let mut due: Vec<(ServerId, usize)> = Vec::new();
        let mut i: usize = 0;
        assert(due@.map_values(v) =~= pick(all.take(0), f));
        while i < self.retries.len()
            invariant
                i <= self.retries@.len(),
                all == self.retries.deep_view(),
                f == (|x: RetryView| due_retry(x, now)),
                v == (|x: (ServerId, usize)| (x.0@, x.1)),
                due@.map_values(v) =~= pick(all.take(i as int), f),
            decreases self.retries@.len() - i,
        {
            let ghost before = due@.map_values(v);
            let retry: &SecondaryRetryState = &self.retries[i];
            assert(all[i as int] == retry.deep_view());
            proof {
                lemma_pick_step(all, i as int, f);
            }
            if retry.next_retry_at <= now {
                due.push((retry.server_id.clone(), retry.attempt));
                assert(due@.map_values(v) =~= before.push((retry.server_id@, retry.attempt)));
            }
            i = i + 1;
        }
        assert(all.take(i as int) =~= all);
        due
    }

    /// What becomes of a due try.
    pub fn retry_due_secondary_connection(&mut self, server_id: &ServerId) -> (r: RetryDecision)
        ensures
            if old(self)@.streams.contains(server_id@) || retry_plan(
                old(self)@,
                server_id@,
            ) is None {
                r is Dropped && final(self)@ == (StateView {
                    retries: retries_without(old(self)@.retries, server_id@),
                    ..old(self)@
                })
            } else {
                r is Connect && Some(r->Connect_0.deep_view()) == retry_plan(
                    old(self)@,
                    server_id@,
                ) && final(self)@ == old(self)@
            },
    {
        if crate::supervisor::routes::lists_id(&self.streams, server_id) {
            self.retries = remove_retry(&self.retries, server_id);
            return RetryDecision::Dropped;
        }
        let plan: Option<SecondaryConnectionPlan> = match &self.supervisor_model {
            Some(model) => {
                let mut plans: Vec<SecondaryConnectionPlan> = model.secondary_connection_plans();
                match find_plan(&plans, server_id) {
                    Some(i) => Some(plans.remove(i)),
                    None => None,
                }
            },
            None => None,
        };
        match plan {
            Some(plan) => RetryDecision::Connect(plan),
            None => {
                self.retries = remove_retry(&self.retries, server_id);
                RetryDecision::Dropped
            },
        }
    }

    /// Notes that a try to connect failed.
    pub fn secondary_connect_failed(
        &mut self,
        server_id: ServerId,
        attempt: usize,
        error: &ClientError,
        now: u64,
    )
        ensures
            final(self)@ == connect_failed(old(self)@, server_id@, attempt, *error, now),
    {
        let state: ConnectionState = crate::client::connection_state_from_client_error(error);
        let mismatch: bool = match state {
            ConnectionState::ProtocolMismatch { server_protocol, client_protocol } => true,
            _ => false,
        };
        if mismatch {
            self.retries = remove_retry(&self.retries, &server_id);
        } else {
            self.schedule_secondary_retry(server_id.clone(), attempt.saturating_add(1), now);
        }
        self.bridges = remove_bridge(&self.bridges, &server_id);
        self.note_connection(&server_id, state);
        self.full_redraw = true;
    }

    /// Notes that a stream could not be taken over.
    pub fn secondary_attach_failed(
        &mut self,
        server_id: ServerId,
        attempt: usize,
        error: &ClientError,
        now: u64,
    )
        ensures
            final(self)@ == attach_failed(old(self)@, server_id@, attempt, *error, now),
    {
        let state: ConnectionState = crate::client::connection_state_from_client_error(error);
        self.schedule_secondary_retry(server_id.clone(), attempt.saturating_add(1), now);
        self.note_connection(&server_id, state);
        self.full_redraw = true;
    }

    /// Notes what came of a try that was carried out.
    pub fn secondary_try_done(
        &mut self,
        server_id: ServerId,
        attempt: usize,
        outcome: &TryOutcome,
        now: u64,
    )
        ensures
            final(self)@ == try_done(old(self)@, server_id@, attempt, *outcome, now),
    {
        match outcome {
            TryOutcome::ConnectFailed { error } => {
                self.secondary_connect_failed(server_id, attempt, error, now);
            },
            TryOutcome::AttachFailed { error } => {
                self.secondary_attach_failed(server_id, attempt, error, now);
            },
            TryOutcome::Attached => {
                self.secondary_stream_attached(server_id, now);
            },
        }
    }

    /// Notes that a stream was taken over.
    pub fn secondary_stream_attached(&mut self, server_id: ServerId, now: u64)
        ensures
            final(self)@ == stream_attached(old(self)@, server_id@, now),
    {
        self.retries = remove_retry(&self.retries, &server_id);
        add_stream(&mut self.streams, server_id.clone());
        self.note_connection(&server_id, ConnectionState::Connected);
        if self.supervisor_model.is_some() {
            self.last_refresh = now;
        }
        self.full_redraw = true;
    }
}

proof fn lemma_ids_without(ids: Seq<Seq<char>>, id: Seq<char>)
    ensures
        !ids_without(ids, id).contains(id),
    decreases ids.len(),
{
    if ids.len() > 0 {
        lemma_ids_without(ids.drop_last(), id);
        let front = ids_without(ids.drop_last(), id);
        if ids.last() != id {
            let all = front.push(ids.last());
            if all.contains(id) {
                let k = choose|k: int| 0 <= k < all.len() && all[k] == id;
                assert(k < front.len());
                assert(front[k] == id);
            }
        }
    }
}

proof fn lemma_retries_without(retries: Seq<RetryView>, id: Seq<char>)
    ensures
        !has_retry(retries_without(retries, id), id),
{
    let f = |r: RetryView| other_retry(r, id);
    let left = retries_without(retries, id);
    assert forall|k: int| 0 <= k < left.len() implies (#[trigger] left[k]).server_id != id by {
        let i = lemma_pick_source(retries, f, k);
    }
}

/// Losing the server of a remote leaves no stream to it and no subscription, and has it tried
/// again in a second; the client goes on with its main server where the lost one was active.
pub proof fn law_lost_server_is_retried(s: StateView, id: Seq<char>, now: u64, redraw: bool)
    requires
        id != main_id(),
        s.model is Some ==> crate::supervisor::has_server(s.model->0.servers, id),
    ensures
        ({
            let after = server_lost(s, id, now, redraw);
            &&& !after.streams.contains(id)
            &&& !after.subscriptions.contains(id)
            &&& after.retries.last() == retry_at(id, 0, now)
            &&& active_of(after) != id
        }),
{
    lemma_ids_without(s.streams, id);
    lemma_ids_without(s.subscriptions, id);
}

/// A server is in the list of tries at most once after a try has been scheduled: the new one is
/// the only one.
pub proof fn law_one_retry_per_server(s: StateView, id: Seq<char>, attempt: usize, now: u64, k: int)
    requires
        0 <= k < retry_scheduled(s, id, attempt, now).retries.len(),
        retry_scheduled(s, id, attempt, now).retries[k].server_id == id,
    ensures
        k == retry_scheduled(s, id, attempt, now).retries.len() - 1,
{
    lemma_retries_without(s.retries, id);
    let left = retries_without(s.retries, id);
    if k < left.len() {
        assert(left[k].server_id == id);
    }
}

/// A server with another protocol is not tried again.
pub proof fn law_mismatch_ends_the_tries(
    s: StateView,
    id: Seq<char>,
    attempt: usize,
    error: ClientError,
    now: u64,
)
    requires
        error is HandshakeRejected,
    ensures
        !has_retry(connect_failed(s, id, attempt, error, now).retries, id),
{
    lemma_retries_without(s.retries, id);
}

/// A server and where its API is reached.
pub type Follow = (Seq<char>, ApiTargetView);

/// The servers to follow, from the first `n` plans: those whose API can be reached and that are
/// not followed yet.
pub open spec fn new_follows(
    plans: Seq<(Seq<char>, ConnectionView)>,
    subscriptions: Seq<Seq<char>>,
    bridges: Seq<BridgeView>,
    n: int,
) -> Seq<Follow>
    decreases n,
{
    if n <= 0 {
        Seq::empty()
    } else {
        let before = new_follows(plans, subscriptions, bridges, n - 1);
        let (id, target) = plans[n - 1];
        match api_target_of(id, target, bridges) {
            Some(api) => if subscriptions.contains(id) || follows(before, id) {
                before
            } else {
                before.push((id, api))
            },
            None => before,
        }
    }
}

/// Whether a server is among those to follow.
pub open spec fn follows(list: Seq<Follow>, id: Seq<char>) -> bool {
    exists|i: int| 0 <= i < list.len() && (#[trigger] list[i]).0 == id
}

/// The ids of the servers to follow.
pub open spec fn follow_ids(list: Seq<Follow>) -> Seq<Seq<char>> {
    list.map_values(|f: Follow| f.0)
}

/// The servers to follow in a state.
pub open spec fn follows_of(s: StateView) -> Seq<Follow> {
    match s.model {
        None => Seq::empty(),
        Some(m) => {
            let plans = pick(m.servers, |x: ServerView| subscription_of(x));
            new_follows(plans, s.subscriptions, s.bridges, plans.len() as int)
        },
    }
}

/// A server and where its API is reached, as a mathematical value.
pub open spec fn follow_view(x: (ServerId, ConnectionTarget)) -> Follow {
    (x.0@, x.1.deep_view())
}

proof fn lemma_follow_ids_contain(list: Seq<Follow>, id: Seq<char>)
    ensures
        follow_ids(list).contains(id) <==> follows(list, id),
{
    if follows(list, id) {
        let i = choose|i: int| 0 <= i < list.len() && (#[trigger] list[i]).0 == id;
        assert(follow_ids(list)[i] == id);
    }
    if follow_ids(list).contains(id) {
        let i = choose|i: int| 0 <= i < follow_ids(list).len() && follow_ids(list)[i] == id;
        assert(list[i].0 == id);
    }
}

proof fn lemma_concat_contains(a: Seq<Seq<char>>, b: Seq<Seq<char>>, id: Seq<char>)
    ensures
        (a + b).contains(id) <==> a.contains(id) || b.contains(id),
{
    let c = a + b;
    if a.contains(id) {
        let i = choose|i: int| 0 <= i < a.len() && a[i] == id;
        assert(c[i] == id);
    }
    if b.contains(id) {
        let i = choose|i: int| 0 <= i < b.len() && b[i] == id;
        assert(c[a.len() + i] == id);
    }
    if c.contains(id) {
        let i = choose|i: int| 0 <= i < c.len() && c[i] == id;
        if i < a.len() {
            assert(a[i] == id);
        } else {
            assert(b[i - a.len()] == id);
        }
    }
}

impl ClientState {
    /// The servers to follow now, which then count as followed.
    pub fn start_missing_supervisor_summary_subscriptions(&mut self) -> (r: Vec<
        (ServerId, ConnectionTarget),
    >)
        ensures
            r@.map_values(|x: (ServerId, ConnectionTarget)| follow_view(x)) == follows_of(
                old(self)@,
            ),
            final(self)@ == (StateView {
                subscriptions: old(self)@.subscriptions + follow_ids(follows_of(old(self)@)),
                ..old(self)@
            }),
    {
        let ghost s = self@;
        let ghost v = |x: (ServerId, ConnectionTarget)| follow_view(x);
        let plans: Vec<SummarySubscriptionPlan> = match &self.supervisor_model {
            Some(model) => model.summary_subscription_plans(),
            None => {
                let none: Vec<(ServerId, ConnectionTarget)> = Vec::new();
                assert(none@.map_values(v) =~= Seq::<Follow>::empty());
                assert(s.subscriptions + follow_ids(Seq::<Follow>::empty()) =~= s.subscriptions);
                return none;
            },
        };
        let ghost all = plans.deep_view();
        let mut list: Vec<(ServerId, ConnectionTarget)> = Vec::new();
        let mut i: usize = 0;
        assert(list@.map_values(v) =~= Seq::<Follow>::empty());
        assert(s.subscriptions + follow_ids(Seq::<Follow>::empty()) =~= s.subscriptions);
        while i < plans.len()
            invariant
                i <= plans@.len(),
                all == plans.deep_view(),
                v == (|x: (ServerId, ConnectionTarget)| follow_view(x)),
                list@.map_values(v) == new_follows(all, s.subscriptions, s.bridges, i as int),
                self@ == (StateView {
                    subscriptions: s.subscriptions + follow_ids(
                        new_follows(all, s.subscriptions, s.bridges, i as int),
                    ),
                    ..s
                }),
            decreases plans@.len() - i,
        {
            let ghost before = new_follows(all, s.subscriptions, s.bridges, i as int);
            let plan: &SummarySubscriptionPlan = &plans[i];
            assert(all[i as int] == plan.deep_view());
            match api_target_for_supervisor_target(&plan.server_id, &plan.target, &self.bridges) {
                Some(target) => {
                    proof {
                        lemma_follow_ids_contain(before, plan.server_id@);
                        lemma_concat_contains(
                            s.subscriptions,
                            follow_ids(before),
                            plan.server_id@,
                        );
                    }
                    if !lists_id(&self.subscriptions, &plan.server_id) {
                        let ghost noted = self.subscriptions.deep_view();
                        let ghost after = before.push((plan.server_id@, target.deep_view()));
                        let copy: ServerId = plan.server_id.clone();
                        self.subscriptions.push(copy);
                        assert(self.subscriptions.deep_view() =~= noted.push(copy@));
                        let pair: (ServerId, ConnectionTarget) = (plan.server_id.clone(), target);
                        let ghost shown = follow_view(pair);
                        list.push(pair);
                        proof {
                            assert(list@.map_values(v) =~= before.push(shown));
                            assert(follow_ids(after) =~= follow_ids(before).push(
                                plan.server_id@,
                            ));
                            assert(s.subscriptions + follow_ids(after) =~= (s.subscriptions
                                + follow_ids(before)).push(plan.server_id@));
                        }
                    }
                },
                None => {},
            }
            i = i + 1;
        }
        list
    }

    /// How the summaries of the remotes' servers are read: the servers whose API can be reached,
    /// and the results for those whose API cannot, which count as connecting.
    pub fn summary_fetch_plan(&self) -> (r: (
        Vec<(ServerId, ConnectionTarget)>,
        Vec<ServerId>,
    ))
        ensures
            ({
                let plans = match self@.model {
                    Some(m) => plans_of(m.servers),
                    None => Seq::empty(),
                };
                &&& r.0@.map_values(|x: (ServerId, ConnectionTarget)| follow_view(x)) == pick(
                    plans,
                    |p: PlanView| reachable(p, self@.bridges),
                )
                &&& r.1.deep_view() == pick(plans, |p: PlanView| unreachable(p, self@.bridges))
            }),
    {
        let ghost bridges = self@.bridges;
        let ghost f = |p: PlanView| reachable(p, bridges);
        let ghost g = |p: PlanView| unreachable(p, bridges);
        let ghost v = |x: (ServerId, ConnectionTarget)| follow_view(x);
        let plans: Vec<SecondaryConnectionPlan> = match &self.supervisor_model {
            Some(model) => model.secondary_connection_plans(),
            None => Vec::new(),
        };
        let ghost all = plans.deep_view();
        assert(self@.model is None ==> all =~= Seq::<PlanView>::empty());
        let mut fetch: Vec<(ServerId, ConnectionTarget)> = Vec::new();
        let mut waiting: Vec<ServerId> = Vec::new();
        let mut i: usize = 0;
        assert(fetch@.map_values(v) =~= pick(all.take(0), f));
        assert(waiting.deep_view() =~= pick(all.take(0), g));
        while i < plans.len()
            invariant
                i <= plans@.len(),
                all == plans.deep_view(),
                bridges == self@.bridges,
                f == (|p: PlanView| reachable(p, bridges)),
                g == (|p: PlanView| unreachable(p, bridges)),
                v == (|x: (ServerId, ConnectionTarget)| follow_view(x)),
                fetch@.map_values(v) =~= pick(all.take(i as int), f),
                waiting.deep_view() =~= pick(all.take(i as int), g),
            decreases plans@.len() - i,
        {
            let plan: &SecondaryConnectionPlan = &plans[i];
            assert(all[i as int] == plan.deep_view());
            let ghost fetched = fetch@.map_values(v);
            let ghost waited = waiting.deep_view();
            proof {
                lemma_pick_step(all, i as int, f);
                lemma_pick_step(all, i as int, g);
            }
            match api_target_for_supervisor_target(&plan.server_id, &plan.target, &self.bridges) {
                Some(target) => {
                    let pair: (ServerId, ConnectionTarget) = (plan.server_id.clone(), target);
                    let ghost shown = follow_view(pair);
                    fetch.push(pair);
                    assert(fetch@.map_values(v) =~= fetched.push(shown));
                },
                None => {
                    let copy: ServerId = plan.server_id.clone();
                    waiting.push(copy);
                    assert(waiting.deep_view() =~= waited.push(copy@));
                },
            }
            i = i + 1;
        }
        assert(all.take(i as int) =~= all);
        (fetch, waiting)
    }
}

/// A planned server whose API can be reached.
pub open spec fn reachable(plan: PlanView, bridges: Seq<BridgeView>) -> Option<Follow> {
    match api_target_of(plan.server_id, plan.target, bridges) {
        Some(api) => Some((plan.server_id, api)),
        None => None,
    }
}

/// A planned server whose API cannot be reached.
pub open spec fn unreachable(plan: PlanView, bridges: Seq<BridgeView>) -> Option<Seq<char>> {
    match api_target_of(plan.server_id, plan.target, bridges) {
        Some(api) => None,
        None => Some(plan.server_id),
    }
}

/// The id of a remote's server that is switched off.
pub open spec fn disabled_id(server: ServerView) -> Option<Seq<char>> {
    if server.disabled {
        Some(server.id)
    } else {
        None
    }
}

/// The ids of the remotes' servers that are switched off.
pub open spec fn disabled_ids(model: Option<ModelView>) -> Seq<Seq<char>> {
    match model {
        Some(m) => pick(m.servers, |x: ServerView| disabled_id(x)),
        None => Seq::empty(),
    }
}

/// The state without anything that is kept for these servers.
pub open spec fn servers_released(s: StateView, ids: Seq<Seq<char>>) -> StateView
    decreases ids.len(),
{
    if ids.len() == 0 {
        s
    } else {
        let before = servers_released(s, ids.drop_last());
        StateView {
            retries: retries_without(before.retries, ids.last()),
            ..server_dropped(before, ids.last())
        }
    }
}

impl ClientState {
    /// Lets go of all that is kept for remotes that are switched off, and says which they are.
    pub fn release_disabled_servers(&mut self) -> (r: Vec<ServerId>)
        ensures
            r.deep_view() == disabled_ids(old(self)@.model),
            final(self)@ == servers_released(old(self)@, disabled_ids(old(self)@.model)),
    {
        let ghost s = self@;
        let mut ids: Vec<ServerId> = Vec::new();
        assert(ids.deep_view() =~= Seq::<Seq<char>>::empty());
        if let Some(model) = &self.supervisor_model {
            let servers: &Vec<ManagedServer> = model.servers();
            let ghost all = model@.servers;
            let ghost f = |x: ServerView| disabled_id(x);
            let mut i: usize = 0;
            assert(ids.deep_view() =~= pick(all.take(0), f));
            while i < servers.len()
                invariant
                    i <= servers@.len(),
                    all == servers.deep_view(),
                    f == (|x: ServerView| disabled_id(x)),
                    ids.deep_view() =~= pick(all.take(i as int), f),
                decreases servers@.len() - i,
            {
                let ghost before = ids.deep_view();
                assert(all[i as int] == servers@[i as int].deep_view());
                proof {
                    lemma_pick_step(all, i as int, f);
                }
                if servers[i].disabled {
                    let id: ServerId = servers[i].id.clone();
                    ids.push(id);
                    assert(ids.deep_view() =~= before.push(id@));
                }
                i = i + 1;
            }
            assert(all.take(i as int) =~= all);
        }
        let ghost off = ids.deep_view();
        let mut k: usize = 0;
        assert(off.take(0) =~= Seq::<Seq<char>>::empty());
        while k < ids.len()
            invariant
                k <= ids@.len(),
                off == ids.deep_view(),
                self@ == servers_released(s, off.take(k as int)),
            decreases ids@.len() - k,
        {
            assert(off.take(k + 1).drop_last() =~= off.take(k as int));
            assert(off.take(k + 1).last() == ids@[k as int]@);
            self.drop_server(&ids[k]);
            self.retries = remove_retry(&self.retries, &ids[k]);
            k = k + 1;
        }
        assert(off.take(k as int) =~= off);
        ids
    }
}

/// A remote that is switched off keeps no stream, no subscription and no try once it is let go.
pub proof fn law_released_servers_keep_nothing(s: StateView, ids: Seq<Seq<char>>, id: Seq<char>)
    requires
        ids.contains(id),
    ensures
        ({
            let after = servers_released(s, ids);
            &&& !after.streams.contains(id)
            &&& !after.subscriptions.contains(id)
            &&& forall|k: int|
                0 <= k < after.retries.len() ==> (#[trigger] after.retries[k]).server_id != id
        }),
    decreases ids.len(),
{
    let before = servers_released(s, ids.drop_last());
    let last = ids.last();
    lemma_ids_without(before.streams, last);
    lemma_ids_without(before.subscriptions, last);
    lemma_retries_without(before.retries, last);
    if id != last {
        let i = choose|i: int| 0 <= i < ids.len() && ids[i] == id;
        assert(ids.drop_last()[i] == id);
        law_released_servers_keep_nothing(s, ids.drop_last(), id);
        let after = servers_released(s, ids);
        assert forall|k: int| 0 <= k < after.retries.len() implies (#[trigger]
        after.retries[k]).server_id != id by {
            let f = |r: RetryView| other_retry(r, last);
            let j = lemma_pick_source(before.retries, f, k);
            assert(before.retries[j].server_id != id);
        }
        if after.streams.contains(id) {
            lemma_ids_without_source(before.streams, last, id);
        }
        if after.subscriptions.contains(id) {
            lemma_ids_without_source(before.subscriptions, last, id);
        }
    }
}

pub(crate) proof fn lemma_ids_without_source(ids: Seq<Seq<char>>, id: Seq<char>, x: Seq<char>)
    requires
        x != id,
    ensures
        ids_without(ids, id).contains(x) <==> ids.contains(x),
{
    let f = |a: Seq<char>| other_id(a, id);
    let left = ids_without(ids, id);
    if left.contains(x) {
        let k = choose|k: int| 0 <= k < left.len() && left[k] == x;
        let i = lemma_pick_source(ids, f, k);
        assert(ids[i] == x);
    }
    if ids.contains(x) {
        let i = choose|i: int| 0 <= i < ids.len() && ids[i] == x;
        let k = lemma_pick_covers(ids, f, i);
        assert(left[k] == x);
    }
}

/// The first of the tries that is for a server.
pub open spec fn retry_of(retries: Seq<RetryView>, id: Seq<char>) -> Option<RetryView>
    decreases retries.len(),
{
    if retries.len() == 0 {
        None
    } else if retries[0].server_id == id {
        Some(retries[0])
    } else {
        retry_of(retries.drop_first(), id)
    }
}

pub(crate) proof fn lemma_pushed_retry(retries: Seq<RetryView>, last: RetryView, id: Seq<char>)
    ensures
        retry_of(retries.push(last), id) == (match retry_of(retries, id) {
            Some(retry) => Some(retry),
            None => if last.server_id == id {
                Some(last)
            } else {
                None
            },
        }),
    decreases retries.len(),
{
    if retries.len() > 0 {
        lemma_pushed_retry(retries.drop_first(), last, id);
        assert(retries.push(last).drop_first() =~= retries.drop_first().push(last));
    } else {
        reveal_with_fuel(retry_of, 2);
    }
}

pub(crate) proof fn lemma_retry_of_others(retries: Seq<RetryView>, id: Seq<char>, other: Seq<char>)
    ensures
        retry_of(retries_without(retries, id), other) == (if id == other {
            None
        } else {
            retry_of(retries, other)
        }),
    decreases retries.len(),
{
    if retries.len() > 0 {
        let rest = retries.drop_last();
        lemma_retry_of_others(rest, id, other);
        lemma_pushed_retry(rest, retries.last(), other);
        lemma_pushed_retry(retries_without(rest, id), retries.last(), other);
        assert(rest.push(retries.last()) =~= retries);
    }
}

pub(crate) proof fn lemma_pushed_bridge(bridges: Seq<BridgeView>, last: BridgeView, id: Seq<char>)
    ensures
        bridge_to(bridges.push(last), id) == (match bridge_to(bridges, id) {
            Some(bridge) => Some(bridge),
            None => if last.server_id == id {
                Some(last)
            } else {
                None
            },
        }),
    decreases bridges.len(),
{
    if bridges.len() > 0 {
        lemma_pushed_bridge(bridges.drop_first(), last, id);
        assert(bridges.push(last).drop_first() =~= bridges.drop_first().push(last));
    } else {
        reveal_with_fuel(bridge_to, 2);
    }
}

pub(crate) proof fn lemma_bridge_to_others(
    bridges: Seq<BridgeView>,
    id: Seq<char>,
    other: Seq<char>,
)
    ensures
        bridge_to(bridges_without(bridges, id), other) == (if id == other {
            None
        } else {
            bridge_to(bridges, other)
        }),
    decreases bridges.len(),
{
    if bridges.len() > 0 {
        let rest = bridges.drop_last();
        lemma_bridge_to_others(rest, id, other);
        lemma_pushed_bridge(rest, bridges.last(), other);
        lemma_pushed_bridge(bridges_without(rest, id), bridges.last(), other);
        assert(rest.push(bridges.last()) =~= bridges);
    }
}

/// Losing the server of a remote touches no other server: streams, subscriptions, bridges, tries
/// and everything that is known of another server stay, and so does the active server unless it
/// was the lost one. Of the lost server no bridge is left.
pub proof fn law_lost_remote_leaves_others_alone(
    s: StateView,
    id: Seq<char>,
    now: u64,
    redraw: bool,
    other: Seq<char>,
    i: int,
)
    requires
        other != id,
    ensures
        ({
            let after = server_lost(s, id, now, redraw);
            &&& after.streams.contains(other) <==> s.streams.contains(other)
            &&& after.subscriptions.contains(other) <==> s.subscriptions.contains(other)
            &&& bridge_to(after.bridges, other) == bridge_to(s.bridges, other)
            &&& bridge_to(after.bridges, id) is None
            &&& retry_of(after.retries, other) == retry_of(s.retries, other)
            &&& retry_of(after.retries, id) == Some(retry_at(id, 0, now))
            &&& after.compositor == s.compositor
            &&& after.reported_size == s.reported_size
            &&& after.model is Some <==> s.model is Some
            &&& s.model is Some ==> {
                let m = s.model->0;
                let n = after.model->0;
                &&& n.servers.len() == m.servers.len()
                &&& 0 <= i < m.servers.len() && m.servers[i].id != id ==> n.servers[i]
                    == m.servers[i]
                &&& m.active != id ==> n.active == m.active
                &&& n.filter == m.filter
                &&& n.overlay == m.overlay
                &&& n.ui_settings == m.ui_settings
            }
        }),
{
    lemma_ids_without_source(s.streams, id, other);
    lemma_ids_without_source(s.subscriptions, id, other);
    lemma_bridge_to_others(s.bridges, id, other);
    lemma_bridge_to_others(s.bridges, id, id);
    lemma_retry_of_others(s.retries, id, other);
    lemma_retry_of_others(s.retries, id, id);
    lemma_pushed_retry(retries_without(s.retries, id), retry_at(id, 0, now), other);
    lemma_pushed_retry(retries_without(s.retries, id), retry_at(id, 0, now), id);
    if s.model is Some {
        lemma_index_of_server(s.model->0.servers, id);
    }
}

} // verus!
