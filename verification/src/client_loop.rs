//! What a running client does with what happens: each event changes the state and asks for
//! actions, which the caller carries out in order.

use vstd::prelude::*;

use crate::api::Request;
use crate::attach::{attach_action_is, filtered, AttachInputAction, AttachScroll};
use crate::client::{desired_mouse_capture, ClientError};
use crate::client_state::{
    active_of, frames_without, ids_without, refresh_due, remove_id, server_lost, CachedFrame,
    CachedView, ClientState, StateView,
};
use crate::compositor::{
    content_size_of, effective_width, is_composed, law_list_holds_the_working_agents,
    sidebar_wants_animation, snapshot_is, wants_animation, working_agents, working_kept,
    ClientCompositor, ClientSidebarSnapshot, CompositorView,
};
use crate::dispatch::{
    dispatch_composited_input, input_leaves, is_layout, ClientApiRefreshPolicy,
    ClientInputDispatch, Dispatched,
};
use crate::frame::FrameData;
use crate::graphics::{
    command_start, contains_kitty_graphics_bytes, empty_paste, is_paste_key,
    should_bridge_clipboard_image_paste, stands_at,
};
use crate::input::RawInputEvent;
use crate::layout::SidebarLayout;
use crate::messages::{ClientMessage, NotifyKind, ServerMessage};
use crate::servers::{main_id, ServerId};
use crate::sidebar_plan::{since_of, AgentRouteView};
use crate::supervisor::overlay::{with_form, AddRemoteDraft};
use crate::supervisor::{ClientSupervisorModel, FormView, ModelView, OverlayView};
use crate::supervisor_api::outcome_view;

verus! {

/// An image from the local clipboard.
#[derive(Debug)]
pub struct ClipboardImage {
    pub extension: String,
    pub bytes: Vec<u8>,
}

/// What the caller is to do.
#[derive(Debug)]
pub enum LoopAction {
    /// Send a message to a server, and report a failure.
    Write { server_id: ServerId, message: ClientMessage },
    /// Send a message to all servers with a stream, and report failures.
    Broadcast { message: ClientMessage },
    /// Tell all servers with a stream that the client leaves; failures do not matter.
    DetachEverywhere,
    /// Tell the main server that the client leaves; a failure does not matter.
    DetachMain,
    /// Send a request to a server's API, and report how it went.
    SendRequest { server_id: ServerId, refresh: ClientApiRefreshPolicy, request: Box<Request> },
    /// Add a remote, and report how it went.
    AddRemote { draft: AddRemoteDraft },
    /// Read registry, settings and summaries into the model, and let go of the remotes that are
    /// switched off.
    RefreshSummaries,
    /// Have every server tried again that wants a stream.
    ScheduleRetries,
    /// Follow the summaries of connected servers that are not followed yet.
    StartSubscriptions,
    /// Carry out the tries that are due.
    RetryDue,
    /// Ask whether it is time to read the summaries.
    CheckRefresh,
    /// Close the stream and the bridge to a server.
    Close { server_id: ServerId },
    /// Draw the last frame of the active server, beside the sidebar.
    RenderCached,
    /// Draw a frame as it is.
    ShowFrame { frame: FrameData },
    /// Write bytes to the host terminal, and note their graphics where asked to.
    Print { bytes: Vec<u8>, record_graphics: bool },
    /// Tell the user something.
    Notify { kind: NotifyKind, message: String },
    /// Put a payload into the local clipboard.
    SetClipboard { data: String },
    /// Read the local configuration again.
    ReloadConfig,
    /// Switch the mouse reports of the host terminal.
    SetMouseCapture { enabled: bool },
    /// Look for an image in the local clipboard, and report it with the typed bytes.
    ReadClipboardImage { data: Vec<u8> },
}

/// What the caller is to do, as a mathematical value.
pub enum ActionView {
    Write { server_id: Seq<char>, message: ClientMessage },
    Broadcast { message: ClientMessage },
    DetachEverywhere,
    DetachMain,
    SendRequest { server_id: Seq<char>, refresh: ClientApiRefreshPolicy, request: Box<Request> },
    AddRemote { draft: AddRemoteDraft },
    RefreshSummaries,
    ScheduleRetries,
    StartSubscriptions,
    RetryDue,
    CheckRefresh,
    Close { server_id: Seq<char> },
    RenderCached,
    ShowFrame { frame: FrameData },
    Print { bytes: Vec<u8>, record_graphics: bool },
    Notify { kind: NotifyKind, message: String },
    SetClipboard { data: String },
    ReloadConfig,
    SetMouseCapture { enabled: bool },
    ReadClipboardImage { data: Vec<u8> },
}

impl DeepView for LoopAction {
    type V = ActionView;

    open spec fn deep_view(&self) -> ActionView {
        match *self {
            LoopAction::Write { server_id, message } => ActionView::Write {
                server_id: server_id@,
                message,
            },
            LoopAction::Broadcast { message } => ActionView::Broadcast { message },
            LoopAction::DetachEverywhere => ActionView::DetachEverywhere,
            LoopAction::DetachMain => ActionView::DetachMain,
            LoopAction::SendRequest { server_id, refresh, request } => ActionView::SendRequest {
                server_id: server_id@,
                refresh,
                request,
            },
            LoopAction::AddRemote { draft } => ActionView::AddRemote { draft },
            LoopAction::RefreshSummaries => ActionView::RefreshSummaries,
            LoopAction::ScheduleRetries => ActionView::ScheduleRetries,
            LoopAction::StartSubscriptions => ActionView::StartSubscriptions,
            LoopAction::RetryDue => ActionView::RetryDue,
            LoopAction::CheckRefresh => ActionView::CheckRefresh,
            LoopAction::Close { server_id } => ActionView::Close { server_id: server_id@ },
            LoopAction::RenderCached => ActionView::RenderCached,
            LoopAction::ShowFrame { frame } => ActionView::ShowFrame { frame },
            LoopAction::Print { bytes, record_graphics } => ActionView::Print {
                bytes,
                record_graphics,
            },
            LoopAction::Notify { kind, message } => ActionView::Notify { kind, message },
            LoopAction::SetClipboard { data } => ActionView::SetClipboard { data },
            LoopAction::ReloadConfig => ActionView::ReloadConfig,
            LoopAction::SetMouseCapture { enabled } => ActionView::SetMouseCapture { enabled },
            LoopAction::ReadClipboardImage { data } => ActionView::ReadClipboardImage { data },
        }
    }
}

/// What an event comes to: the actions, and whether the client ends after them.
#[derive(Debug)]
pub struct LoopOutcome {
    pub actions: Vec<LoopAction>,
    pub exit: Option<Result<(), ClientError>>,
}

impl LoopOutcome {
    /// Whether the client goes on, with exactly these actions.
    pub open spec fn goes_on_with(self, actions: Seq<ActionView>) -> bool {
        self.exit is None && self.actions.deep_view() == actions
    }

    /// Nothing to do.
    fn nothing() -> (r: Self)
        ensures
            r.goes_on_with(Seq::empty()),
    {
        let actions: Vec<LoopAction> = Vec::new();
        assert(actions.deep_view() =~= Seq::<ActionView>::empty());
        LoopOutcome { actions, exit: None }
    }

    /// One thing to do.
    fn one(action: LoopAction) -> (r: Self)
        ensures
            r.goes_on_with(seq![action.deep_view()]),
    {
        let mut actions: Vec<LoopAction> = Vec::new();
        actions.push(action);
        assert(actions.deep_view() =~= seq![action.deep_view()]);
        LoopOutcome { actions, exit: None }
    }

    /// Two things to do.
    fn two(first: LoopAction, second: LoopAction) -> (r: Self)
        ensures
            r.goes_on_with(seq![first.deep_view(), second.deep_view()]),
    {
        let mut actions: Vec<LoopAction> = Vec::new();
        actions.push(first);
        actions.push(second);
        assert(actions.deep_view() =~= seq![first.deep_view(), second.deep_view()]);
        LoopOutcome { actions, exit: None }
    }

    /// The end of the client.
    fn failed(error: ClientError) -> (r: Self)
        ensures
            r.actions@.len() == 0,
            r.exit == Some(Err::<(), ClientError>(error)),
    {
        LoopOutcome { actions: Vec::new(), exit: Some(Err(error)) }
    }
}

/// The state after the host terminal changed its size: the servers are told what is left beside
/// the sidebar.
pub open spec fn host_resized(s: StateView, size: (u16, u16), cell: (u32, u32)) -> StateView {
    StateView {
        host_size: size,
        cell_size_px: cell,
        reported_size: match s.compositor {
            Some(c) => content_size_of(c.sidebar_width, size.0, size.1),
            None => size,
        },
        ..s
    }
}

/// The message that tells the servers the size.
pub open spec fn resize_message(s: StateView) -> ClientMessage {
    ClientMessage::Resize {
        cols: s.reported_size.0,
        rows: s.reported_size.1,
        cell_width_px: s.cell_size_px.0,
        cell_height_px: s.cell_size_px.1,
    }
}

/// The state with the frame of a server.
pub open spec fn frame_cached(s: StateView, id: Seq<char>, frame: FrameData) -> StateView {
    StateView {
        frames: frames_without(s.frames, id).push(CachedView { server_id: id, frame }),
        ..s
    }
}

/// The frame of a server.
pub open spec fn cached_frame(frames: Seq<CachedView>, id: Seq<char>) -> Option<FrameData>
    decreases frames.len(),
{
    if frames.len() == 0 {
        None
    } else if frames[0].server_id == id {
        Some(frames[0].frame)
    } else {
        cached_frame(frames.drop_first(), id)
    }
}

/// The frame of the active server, if there is one.
pub fn select_composited_render_frame<'a>(
    frames: &'a Vec<CachedFrame>,
    active_server_id: &ServerId,
) -> (r: Option<&'a FrameData>)
    ensures
        match r {
            Some(frame) => cached_frame(frames.deep_view(), active_server_id@) == Some(*frame),
            None => cached_frame(frames.deep_view(), active_server_id@) is None,
        },
{
    let ghost all = frames.deep_view();
    let mut i: usize = 0;
    assert(all.skip(0) =~= all);
    while i < frames.len()
        invariant
            i <= frames@.len(),
            all == frames.deep_view(),
            cached_frame(all, active_server_id@) == cached_frame(
                all.skip(i as int),
                active_server_id@,
            ),
        decreases frames@.len() - i,
    {
        assert(all.skip(i as int)[0] == frames@[i as int].deep_view());
        if frames[i].server_id.is(active_server_id) {
            return Some(&frames[i].frame);
        }
        assert(all.skip(i as int).drop_first() =~= all.skip(i + 1));
        i = i + 1;
    }
    None
}

/// Whether graphics commands stand among the bytes.
pub open spec fn has_graphics(bytes: Seq<u8>) -> bool {
    exists|i: int| #[trigger] stands_at(command_start(), bytes, i)
}

/// What a message of a server comes to, unless it is a shutdown: the state and the actions. Only
/// the active server writes to the terminal and switches the mouse.
pub open spec fn message_handled(s: StateView, id: Seq<char>, message: ServerMessage) -> (
    StateView,
    Seq<ActionView>,
) {
    match message {
        ServerMessage::Frame(frame) => if s.compositor is Some && s.model is Some {
            let after = frame_cached(s, id, frame);
            (
                after,
                if cached_frame(after.frames, active_of(s)) is Some {
                    seq![ActionView::RenderCached]
                } else {
                    Seq::empty()
                },
            )
        } else {
            (s, seq![ActionView::ShowFrame { frame }])
        },
        ServerMessage::Terminal { bytes } => if id == active_of(s) {
            (
                s,
                seq![
                    ActionView::Print {
                        bytes,
                        record_graphics: s.kitty_graphics_enabled && has_graphics(bytes@),
                    },
                ],
            )
        } else {
            (s, Seq::empty())
        },
        ServerMessage::Graphics { bytes } => if id == active_of(s) && s.kitty_graphics_enabled {
            (s, seq![ActionView::Print { bytes, record_graphics: true }])
        } else {
            (s, Seq::empty())
        },
        ServerMessage::Notify { kind, message } => (s, seq![ActionView::Notify { kind, message }]),
        ServerMessage::Clipboard { data } => (s, seq![ActionView::SetClipboard { data }]),
        ServerMessage::ReloadSoundConfig => (s, seq![ActionView::ReloadConfig]),
        ServerMessage::MouseCapture { enabled } => {
            let desired = enabled || s.compositor is Some;
            if id == active_of(s) && desired != s.mouse_capture_active {
                (
                    StateView { mouse_capture_active: desired, ..s },
                    seq![ActionView::SetMouseCapture { enabled: desired }],
                )
            } else {
                (s, Seq::empty())
            }
        },
        _ => (s, Seq::empty()),
    }
}

/// The actions by which the summaries are read.
pub open spec fn refresh_actions(has_model: bool) -> Seq<ActionView> {
    if has_model {
        seq![
            ActionView::RefreshSummaries,
            ActionView::ScheduleRetries,
            ActionView::StartSubscriptions,
            ActionView::RenderCached,
        ]
    } else {
        seq![ActionView::ScheduleRetries, ActionView::RenderCached]
    }
}

/// The state when the summaries are read.
pub open spec fn refreshed(s: StateView, now: u64) -> StateView {
    if s.model is Some {
        StateView { last_refresh: now, full_redraw: true, ..s }
    } else {
        s
    }
}

/// What is done when a message could not be sent to the server of a remote: its connection is
/// closed. The screen is drawn after what the user typed or pasted; where another message was
/// sent, it is drawn by the actions that come with that message, or not at all.
pub open spec fn write_failure_actions(id: Seq<char>, message: ClientMessage) -> Seq<ActionView> {
    if message is Input || message is ClipboardImage {
        seq![ActionView::Close { server_id: id }, ActionView::RenderCached]
    } else {
        seq![ActionView::Close { server_id: id }]
    }
}

impl ClientState {
    /// The host terminal changed its size.
    pub fn on_resize(
        &mut self,
        cols: u16,
        rows: u16,
        cell_width_px: u32,
        cell_height_px: u32,
    ) -> (r: LoopOutcome)
        ensures
            final(self)@ == host_resized(
                old(self)@,
                (cols, rows),
                (cell_width_px, cell_height_px),
            ),
            r.goes_on_with(
                if old(self)@.compositor is Some {
                    seq![ActionView::Broadcast { message: resize_message(final(self)@) }]
                } else {
                    seq![
                        ActionView::Write {
                            server_id: active_of(old(self)@),
                            message: resize_message(final(self)@),
                        },
                    ]
                },
            ),
    {
        self.host_size = (cols, rows);
        self.cell_size_px = (cell_width_px, cell_height_px);
        let own: bool = self.compositor.is_some();
        self.reported_size = match &self.compositor {
            Some(compositor) => compositor.content_size(cols, rows),
            None => (cols, rows),
        };
        let message: ClientMessage = ClientMessage::Resize {
            cols: self.reported_size.0,
            rows: self.reported_size.1,
            cell_width_px,
            cell_height_px,
        };
        if own {
            LoopOutcome::one(LoopAction::Broadcast { message })
        } else {
            LoopOutcome::one(LoopAction::Write { server_id: self.active_server_id(), message })
        }
    }

    /// Keeps the frame of a server.
    fn cache_frame(&mut self, server_id: ServerId, frame: FrameData)
        ensures
            final(self)@ == frame_cached(old(self)@, server_id@, frame),
    {
        crate::client_state::remove_frames(&mut self.frames, &server_id);
        let ghost before = self.frames.deep_view();
        let entry: CachedFrame = CachedFrame { server_id, frame };
        let ghost view = entry.deep_view();
        self.frames.push(entry);
        assert(self.frames.deep_view() =~= before.push(view));
    }

    /// A server sent a message.
    pub fn on_server_message(
        &mut self,
        server_id: ServerId,
        message: ServerMessage,
        now: u64,
    ) -> (r: LoopOutcome)
        ensures
            match message {
                ServerMessage::ServerShutdown { reason } => if server_id@ == main_id() {
                    r.exit == Some(Err::<(), ClientError>(ClientError::ServerShutdown { reason }))
                        && r.actions@.len() == 0 && final(self)@ == old(self)@
                } else {
                    r.goes_on_with(
                        seq![
                            ActionView::Close { server_id: server_id@ },
                            ActionView::RenderCached,
                        ],
                    ) && final(self)@ == server_lost(
                        old(self)@,
                        server_id@,
                        now,
                        old(self)@.model is Some,
                    )
                },
                _ => final(self)@ == message_handled(old(self)@, server_id@, message).0
                    && r.goes_on_with(message_handled(old(self)@, server_id@, message).1),
            },
    {
        match message {
            ServerMessage::Frame(frame) => {
                if self.compositor.is_none() || self.supervisor_model.is_none() {
                    return LoopOutcome::one(LoopAction::ShowFrame { frame });
                }
                self.cache_frame(server_id, frame);
                let active: ServerId = self.active_server_id();
                if select_composited_render_frame(&self.frames, &active).is_some() {
                    LoopOutcome::one(LoopAction::RenderCached)
                } else {
                    LoopOutcome::nothing()
                }
            },
            ServerMessage::Terminal { bytes } => {
                let active: ServerId = self.active_server_id();
                if !server_id.is(&active) {
                    return LoopOutcome::nothing();
                }
                let record_graphics: bool = self.kitty_graphics_enabled
                    && contains_kitty_graphics_bytes(bytes.as_slice());
                LoopOutcome::one(LoopAction::Print { bytes, record_graphics })
            },
            ServerMessage::Graphics { bytes } => {
                let active: ServerId = self.active_server_id();
                if !server_id.is(&active) || !self.kitty_graphics_enabled {
                    return LoopOutcome::nothing();
                }
                LoopOutcome::one(LoopAction::Print { bytes, record_graphics: true })
            },
            ServerMessage::ServerShutdown { reason } => {
                let closed: ServerId = server_id.clone();
                match self.handle_server_shutdown(server_id, reason, now) {
                    Ok(()) => LoopOutcome::two(
                        LoopAction::Close { server_id: closed },
                        LoopAction::RenderCached,
                    ),
                    Err(e) => LoopOutcome::failed(e),
                }
            },
            ServerMessage::Notify { kind, message } => LoopOutcome::one(
                LoopAction::Notify { kind, message },
            ),
            ServerMessage::Clipboard { data } => LoopOutcome::one(
                LoopAction::SetClipboard { data },
            ),
            ServerMessage::ReloadSoundConfig => LoopOutcome::one(LoopAction::ReloadConfig),
            ServerMessage::MouseCapture { enabled } => {
                let active: ServerId = self.active_server_id();
                let desired: bool = desired_mouse_capture(enabled, self.compositor.is_some());
                if !server_id.is(&active) || desired == self.mouse_capture_active {
                    return LoopOutcome::nothing();
                }
                self.mouse_capture_active = desired;
                LoopOutcome::one(LoopAction::SetMouseCapture { enabled: desired })
            },
            ServerMessage::Welcome { version, encoding, error } => LoopOutcome::nothing(),
        }
    }

    /// The connection to a server ended.
    pub fn on_server_disconnected(&mut self, server_id: ServerId, now: u64) -> (r: LoopOutcome)
        ensures
            if server_id@ == main_id() {
                r.actions@.len() == 0 && r.exit is Some && r.exit->0 is Err
                    && r.exit->0->Err_0 is ConnectionLost && r.exit->0->Err_0->ConnectionLost_error@
                    == "server closed connection"@ && final(self)@ == old(self)@
            } else {
                r.goes_on_with(
                    seq![ActionView::Close { server_id: server_id@ }, ActionView::RenderCached],
                ) && final(self)@ == server_lost(
                    old(self)@,
                    server_id@,
                    now,
                    old(self)@.model is Some,
                )
            },
    {
        let closed: ServerId = server_id.clone();
        match self.handle_server_disconnected(server_id, now) {
            Ok(()) => LoopOutcome::two(
                LoopAction::Close { server_id: closed },
                LoopAction::RenderCached,
            ),
            Err(e) => LoopOutcome::failed(e),
        }
    }

    /// A message could not be sent.
    pub fn on_write_failed(
        &mut self,
        server_id: ServerId,
        message: &ClientMessage,
        error: String,
        now: u64,
    ) -> (r: LoopOutcome)
        ensures
            if server_id@ == main_id() {
                r.actions@.len() == 0 && r.exit == Some(
                    Err::<(), ClientError>(ClientError::ConnectionLost { error }),
                ) && final(self)@ == old(self)@
            } else {
                r.goes_on_with(write_failure_actions(server_id@, *message)) && final(self)@
                    == server_lost(old(self)@, server_id@, now, true)
            },
    {
        let closed: ServerId = server_id.clone();
        match self.handle_server_write_failure(server_id, error, now) {
            Ok(()) => {
                let close: LoopAction = LoopAction::Close { server_id: closed };
                match message {
                    ClientMessage::Input { .. } => LoopOutcome::two(
                        close,
                        LoopAction::RenderCached,
                    ),
                    ClientMessage::ClipboardImage { .. } => LoopOutcome::two(
                        close,
                        LoopAction::RenderCached,
                    ),
                    _ => LoopOutcome::one(close),
                }
            },
            Err(e) => LoopOutcome::failed(e),
        }
    }

    /// The actions by which the summaries are read, which are then up to date.
    fn refresh_now(&mut self, now: u64) -> (r: LoopOutcome)
        ensures
            final(self)@ == refreshed(old(self)@, now),
            r.goes_on_with(refresh_actions(old(self)@.model is Some)),
    {
        let mut actions: Vec<LoopAction> = Vec::new();
        if self.supervisor_model.is_some() {
            self.last_refresh = now;
            self.full_redraw = true;
            actions.push(LoopAction::RefreshSummaries);
            actions.push(LoopAction::ScheduleRetries);
            actions.push(LoopAction::StartSubscriptions);
            actions.push(LoopAction::RenderCached);
        } else {
            actions.push(LoopAction::ScheduleRetries);
            actions.push(LoopAction::RenderCached);
        }
        assert(actions.deep_view() =~= refresh_actions(self.supervisor_model is Some));
        LoopOutcome { actions, exit: None }
    }

    /// A server told that its summary changed.
    pub fn on_summary_changed(&mut self, now: u64) -> (r: LoopOutcome)
        ensures
            final(self)@ == refreshed(old(self)@, now),
            r.goes_on_with(refresh_actions(old(self)@.model is Some)),
    {
        self.refresh_now(now)
    }

    /// A server's summary is no longer followed.
    pub fn on_subscription_ended(&mut self, server_id: &ServerId) -> (r: LoopOutcome)
        ensures
            final(self)@ == (StateView {
                subscriptions: ids_without(old(self)@.subscriptions, server_id@),
                ..old(self)@
            }),
            r.goes_on_with(Seq::empty()),
    {
        self.subscriptions = remove_id(&self.subscriptions, server_id);
        LoopOutcome::nothing()
    }

    /// Time passed: the due tries first, then the summaries, then what moves in the sidebar.
    pub fn on_timer(&mut self) -> (r: LoopOutcome)
        ensures
            final(self)@ == timer_passed(old(self)@),
            r.goes_on_with(timer_actions(old(self)@)),
    {
        let moves: bool = match &self.supervisor_model {
            Some(model) => sidebar_wants_animation(model),
            None => false,
        };
        if moves {
            if let Some(compositor) = &mut self.compositor {
                compositor.advance_animation_tick(ANIMATION_STEP);
                let mut actions: Vec<LoopAction> = Vec::new();
                actions.push(LoopAction::RetryDue);
                actions.push(LoopAction::CheckRefresh);
                actions.push(LoopAction::RenderCached);
                assert(actions.deep_view() =~= seq![
                    ActionView::RetryDue,
                    ActionView::CheckRefresh,
                    ActionView::RenderCached,
                ]);
                return LoopOutcome { actions, exit: None };
            }
        }
        LoopOutcome::two(LoopAction::RetryDue, LoopAction::CheckRefresh)
    }

    /// The screen with the last frame of the active server, where there is one. Before it is put
    /// together the list of the agents that work is brought up to date. `layout_of` says where the
    /// parts of the sidebar lie, `shell_of` draws the sidebar and what lies over it.
    pub fn render_cached_composited_frame<L, S>(
        &mut self,
        now: u64,
        layout_of: L,
        shell_of: S,
    ) -> (r: Option<FrameData>) where
        L: Fn(&ClientCompositor, &ClientSupervisorModel) -> SidebarLayout,
        S: Fn(&ClientSidebarSnapshot, u16, u16) -> FrameData,

        requires
            forall|c: &ClientCompositor, m: &ClientSupervisorModel| #[trigger]
                call_requires(layout_of, (c, m)),
            forall|p: &ClientSidebarSnapshot, w: u16, h: u16| #[trigger]
                call_requires(shell_of, (p, w, h)),
        ensures
            final(self)@ == screen_drawn(old(self)@, now),
            match frame_to_draw(old(self)@) {
                None => r is None,
                Some(active) => r is Some && screen_is(
                    layout_of,
                    shell_of,
                    final(self)@.compositor->0,
                    final(self)@.model->0,
                    final(self)@.host_size,
                    active,
                    now,
                    r->0,
                ),
            },
    {
        let size: (u16, u16) = self.host_size;
        let mut drawn: Option<FrameData> = None;
        let ghost mut kept = self@.compositor;
        let ghost before = self@;
        if let Some(model) = &self.supervisor_model {
            if let Some(compositor) = &mut self.compositor {
                if let Some(active) = select_composited_render_frame(
                    &self.frames,
                    model.active_server_id(),
                ) {
                    compositor.keep_working_since(model, now);
                    let layout: SidebarLayout = layout_of(compositor, model);
                    let width: u16 = compositor.effective_sidebar_width(size.0);
                    let snapshot: ClientSidebarSnapshot = ClientSidebarSnapshot::from_model(
                        model,
                        compositor,
                        width,
                        size.0,
                        size.1,
                        now,
                    );
                    let shell: FrameData = shell_of(&snapshot, size.0, size.1);
                    let ghost parts = ScreenParts { layout, snapshot, shell };
                    let frame: FrameData = compositor.compose_frame(model, &layout, shell, active);
                    proof {
                        kept = Some(compositor@);
                        assert(screen_made_of(
                            layout_of,
                            shell_of,
                            compositor@,
                            model@,
                            size,
                            *active,
                            now,
                            parts,
                            frame,
                        ));
                        assert(screen_is(
                            layout_of,
                            shell_of,
                            compositor@,
                            model@,
                            size,
                            *active,
                            now,
                            frame,
                        ));
                    }
                    drawn = Some(frame);
                }
            }
        }
        assert(self@ == (StateView { compositor: kept, ..before }));
        if drawn.is_some() {
            self.full_redraw = false;
        }
        drawn
    }

    /// Reads the summaries where it is time to.
    pub fn refresh_if_due(&mut self, now: u64) -> (r: LoopOutcome)
        ensures
            if refresh_due(now, old(self)@.last_refresh) {
                final(self)@ == refreshed(old(self)@, now) && r.goes_on_with(
                    refresh_actions(old(self)@.model is Some),
                )
            } else {
                final(self)@ == old(self)@ && r.goes_on_with(Seq::empty())
            },
    {
        if crate::client_state::supervisor_summary_refresh_due(now, self.last_refresh) {
            self.refresh_now(now)
        } else {
            LoopOutcome::nothing()
        }
    }
}

/// Whether typed bytes, read as these events, ask for the local clipboard's image.
pub open spec fn asks_for_image(data: Seq<u8>, events: Seq<RawInputEvent>) -> bool {
    data == empty_paste() || (events.len() == 1 && is_paste_key(events[0]))
}

/// What bytes for the active server come to: they are sent, unless they ask for the local
/// clipboard's image, which is then looked for.
pub open spec fn forwarded(
    s: StateView,
    data: Vec<u8>,
    events: Seq<RawInputEvent>,
) -> Seq<ActionView> {
    if asks_for_image(data@, events) {
        seq![ActionView::ReadClipboardImage { data }]
    } else {
        seq![
            ActionView::Write { server_id: active_of(s), message: ClientMessage::Input { data } },
        ]
    }
}

/// How far the clock of the animations goes each time: one step that can be seen.
pub const ANIMATION_STEP: u32 = 8;

/// Whether the client shows a sidebar of its own in which something moves.
pub open spec fn sidebar_moves(s: StateView) -> bool {
    s.compositor is Some && s.model is Some && wants_animation(s.model->0)
}

/// The state after time passed: the clock of the animations goes on where something moves, and
/// stands still where nothing does.
pub open spec fn timer_passed(s: StateView) -> StateView {
    if sidebar_moves(s) {
        StateView {
            compositor: Some(
                CompositorView {
                    animation_tick: ((s.compositor->0.animation_tick + ANIMATION_STEP)
                        % 0x1_0000_0000) as u32,
                    ..s.compositor->0
                },
            ),
            ..s
        }
    } else {
        s
    }
}

/// What is done when time passed: the screen is drawn anew where something moves.
pub open spec fn timer_actions(s: StateView) -> Seq<ActionView> {
    if sidebar_moves(s) {
        seq![ActionView::RetryDue, ActionView::CheckRefresh, ActionView::RenderCached]
    } else {
        seq![ActionView::RetryDue, ActionView::CheckRefresh]
    }
}

/// The last frame of the active server, for a client with its own sidebar.
pub open spec fn frame_to_draw(s: StateView) -> Option<FrameData> {
    if s.compositor is Some && s.model is Some {
        cached_frame(s.frames, s.model->0.active)
    } else {
        None
    }
}

/// The state after the screen was put together: the list of the agents that work holds exactly
/// those that do, and no full redraw is asked for any more.
pub open spec fn screen_drawn(s: StateView, now: u64) -> StateView {
    if frame_to_draw(s) is Some {
        StateView {
            compositor: Some(
                CompositorView {
                    working_since: working_kept(
                        s.compositor->0.working_since,
                        working_agents(s.model->0),
                        now,
                    ),
                    ..s.compositor->0
                },
            ),
            full_redraw: false,
            ..s
        }
    } else {
        s
    }
}

/// What a screen is put together from.
pub struct ScreenParts {
    pub layout: SidebarLayout,
    pub snapshot: ClientSidebarSnapshot,
    pub shell: FrameData,
}

/// Whether a screen is put together from these parts, and these are what `layout_of` and
/// `shell_of` give for compositor and model.
pub open spec fn screen_made_of<L, S>(
    layout_of: L,
    shell_of: S,
    c: CompositorView,
    m: ModelView,
    host_size: (u16, u16),
    active: FrameData,
    now: u64,
    parts: ScreenParts,
    r: FrameData,
) -> bool where
    L: Fn(&ClientCompositor, &ClientSupervisorModel) -> SidebarLayout,
    S: Fn(&ClientSidebarSnapshot, u16, u16) -> FrameData,
 {
    &&& is_layout(layout_of, c, m, parts.layout)
    &&& snapshot_is(
        parts.snapshot,
        c,
        m,
        effective_width(c.sidebar_width, host_size.0) as u16,
        host_size,
        now,
    )
    &&& call_ensures(shell_of, (&parts.snapshot, host_size.0, host_size.1), parts.shell)
    &&& is_composed(c, m, parts.layout, parts.shell, active, r)
}

/// Whether this is the screen of compositor and model with the frame of the active server.
pub open spec fn screen_is<L, S>(
    layout_of: L,
    shell_of: S,
    c: CompositorView,
    m: ModelView,
    host_size: (u16, u16),
    active: FrameData,
    now: u64,
    r: FrameData,
) -> bool where
    L: Fn(&ClientCompositor, &ClientSupervisorModel) -> SidebarLayout,
    S: Fn(&ClientSidebarSnapshot, u16, u16) -> FrameData,
 {
    exists|parts: ScreenParts| #[trigger]
        screen_made_of(layout_of, shell_of, c, m, host_size, active, now, parts, r)
}

/// Once the screen was put together, the list of the agents that work holds exactly those of the
/// model that do, each since when it was first seen to, at the latest now.
pub proof fn law_drawn_screen_knows_who_works(
    s: StateView,
    now: u64,
    server_id: Seq<char>,
    agent_id: Seq<char>,
)
    requires
        frame_to_draw(s) is Some,
    ensures
        ({
            let works = working_agents(s.model->0).contains(
                AgentRouteView { server_id, agent_id },
            );
            let before = since_of(s.compositor->0.working_since, server_id, agent_id);
            since_of(
                screen_drawn(s, now).compositor->0.working_since,
                server_id,
                agent_id,
            ) == (if !works {
                None
            } else if before is Some {
                before
            } else {
                Some(now)
            })
        }),
{
    law_list_holds_the_working_agents(
        s.compositor->0.working_since,
        working_agents(s.model->0),
        now,
        server_id,
        agent_id,
    );
}

/// The state with a full redraw.
pub open spec fn redrawn(s: StateView) -> StateView {
    StateView { full_redraw: true, ..s }
}

/// The state after what input came to was handled.
pub open spec fn dispatch_state(s: StateView, dispatch: ClientInputDispatch) -> StateView {
    match dispatch {
        ClientInputDispatch::ServerControl { server_id, message } => redrawn(s),
        ClientInputDispatch::Resize { cols, rows } => StateView {
            reported_size: (cols, rows),
            ..redrawn(s)
        },
        ClientInputDispatch::Redraw => redrawn(s),
        _ => s,
    }
}

/// The actions to which input leads that is not forwarded.
pub open spec fn dispatch_actions(s: StateView, dispatch: ClientInputDispatch) -> Seq<ActionView> {
    match dispatch {
        ClientInputDispatch::Forward(_) => Seq::empty(),
        ClientInputDispatch::ServerControl { server_id, message } => seq![
            ActionView::Write { server_id: server_id@, message },
            ActionView::RenderCached,
        ],
        ClientInputDispatch::ApiRequest { server_id, refresh, request } => seq![
            ActionView::SendRequest { server_id: server_id@, refresh, request },
        ],
        ClientInputDispatch::AddRemote(draft) => seq![ActionView::AddRemote { draft }],
        ClientInputDispatch::Resize { cols, rows } => seq![
            ActionView::Broadcast { message: resize_message(dispatch_state(s, dispatch)) },
            ActionView::RenderCached,
        ],
        ClientInputDispatch::DetachAll => seq![ActionView::DetachEverywhere],
        ClientInputDispatch::Redraw => seq![ActionView::RenderCached],
        ClientInputDispatch::Consumed => Seq::empty(),
    }
}

/// The model with an error shown in the form, where it is open.
pub open spec fn form_error_shown(m: ModelView, error: Seq<char>) -> ModelView {
    match m.overlay {
        OverlayView::AddRemote { form } => with_form(
            m,
            Some(FormView { error: Some(error), ..form }),
        ),
        _ => m,
    }
}

/// The state after a remote was added, or after that failed.
pub open spec fn add_remote_done(
    s: StateView,
    result: Result<(), Seq<char>>,
    now: u64,
) -> StateView {
    match s.model {
        None => redrawn(s),
        Some(m) => match result {
            Ok(_) => StateView { last_refresh: now, ..redrawn(s) },
            Err(e) => StateView { model: Some(form_error_shown(m, e)), ..redrawn(s) },
        },
    }
}

/// The actions behind a request that may have changed the summaries.
pub open spec fn after_change(refresh: bool) -> Seq<ActionView> {
    if refresh {
        seq![
            ActionView::RefreshSummaries,
            ActionView::StartSubscriptions,
            ActionView::RenderCached,
        ]
    } else {
        seq![ActionView::RenderCached]
    }
}

/// Whether an outcome is what bytes for the active server come to, read by `parse`.
pub open spec fn is_forwarded<P>(r: LoopOutcome, s: StateView, parse: P, data: Seq<u8>) -> bool where
    P: Fn(&Vec<u8>) -> Vec<RawInputEvent>,
 {
    exists|bytes: Vec<u8>, events: Vec<RawInputEvent>|
        bytes@ == data && #[trigger] call_ensures(parse, (&bytes,), events) && r.goes_on_with(
            forwarded(s, bytes, events@),
        )
}

/// Whether an outcome is what an action of a client of one terminal comes to.
pub open spec fn attach_outcome_is<P>(
    r: LoopOutcome,
    s: StateView,
    parse: P,
    action: AttachInputAction,
) -> bool where P: Fn(&Vec<u8>) -> Vec<RawInputEvent> {
    match action {
        AttachInputAction::Forward(data) => is_forwarded(r, s, parse, data@),
        AttachInputAction::Scroll(scroll) => r.goes_on_with(
            seq![
                ActionView::Write {
                    server_id: main_id(),
                    message: ClientMessage::AttachScroll(scroll),
                },
            ],
        ),
        AttachInputAction::Swallow => r.goes_on_with(Seq::empty()),
        AttachInputAction::Detach => r.actions.deep_view() == seq![ActionView::DetachMain]
            && r.exit == Some(Ok::<(), ClientError>(())),
    }
}

impl ClientState {
    /// Bytes go to the active server.
    pub fn forward_input(&self, data: Vec<u8>, events: &Vec<RawInputEvent>) -> (r: LoopOutcome)
        ensures
            r.goes_on_with(forwarded(self@, data, events@)),
    {
        if should_bridge_clipboard_image_paste(data.as_slice(), events) {
            LoopOutcome::one(LoopAction::ReadClipboardImage { data })
        } else {
            LoopOutcome::one(
                LoopAction::Write {
                    server_id: self.active_server_id(),
                    message: ClientMessage::Input { data },
                },
            )
        }
    }

    /// The local clipboard was looked at for typed bytes: its image goes to the active server,
    /// unless it is longer than `max_payload`; without an image the bytes go.
    pub fn on_clipboard_image(
        &self,
        image: Option<ClipboardImage>,
        data: Vec<u8>,
        max_payload: usize,
    ) -> (r: LoopOutcome)
        ensures
            r.goes_on_with(
                match image {
                    Some(image) => if image.bytes@.len() > max_payload {
                        Seq::empty()
                    } else {
                        seq![
                            ActionView::Write {
                                server_id: active_of(self@),
                                message: ClientMessage::ClipboardImage {
                                    extension: image.extension,
                                    data: image.bytes,
                                },
                            },
                        ]
                    },
                    None => seq![
                        ActionView::Write {
                            server_id: active_of(self@),
                            message: ClientMessage::Input { data },
                        },
                    ],
                },
            ),
    {
        match image {
            Some(image) => {
                if image.bytes.len() > max_payload {
                    return LoopOutcome::nothing();
                }
                LoopOutcome::one(
                    LoopAction::Write {
                        server_id: self.active_server_id(),
                        message: ClientMessage::ClipboardImage {
                            extension: image.extension,
                            data: image.bytes,
                        },
                    },
                )
            },
            None => LoopOutcome::one(
                LoopAction::Write {
                    server_id: self.active_server_id(),
                    message: ClientMessage::Input { data },
                },
            ),
        }
    }

    /// Handles what input came to that is not forwarded.
    pub fn after_dispatch(&mut self, dispatch: ClientInputDispatch) -> (r: LoopOutcome)
        ensures
            final(self)@ == dispatch_state(old(self)@, dispatch),
            r.actions.deep_view() == dispatch_actions(old(self)@, dispatch),
            r.exit == (if dispatch is DetachAll {
                Some(Ok::<(), ClientError>(()))
            } else {
                None
            }),
    {
        match dispatch {
            ClientInputDispatch::Forward(_) => LoopOutcome::nothing(),
            ClientInputDispatch::ServerControl { server_id, message } => {
                self.full_redraw = true;
                LoopOutcome::two(
                    LoopAction::Write { server_id, message },
                    LoopAction::RenderCached,
                )
            },
            ClientInputDispatch::ApiRequest { server_id, refresh, request } => LoopOutcome::one(
                LoopAction::SendRequest { server_id, refresh, request },
            ),
            ClientInputDispatch::AddRemote(draft) => LoopOutcome::one(
                LoopAction::AddRemote { draft },
            ),
            ClientInputDispatch::Resize { cols, rows } => {
                self.reported_size = (cols, rows);
                self.full_redraw = true;
                let message: ClientMessage = ClientMessage::Resize {
                    cols,
                    rows,
                    cell_width_px: self.cell_size_px.0,
                    cell_height_px: self.cell_size_px.1,
                };
                LoopOutcome::two(LoopAction::Broadcast { message }, LoopAction::RenderCached)
            },
            ClientInputDispatch::DetachAll => {
                let mut outcome: LoopOutcome = LoopOutcome::one(LoopAction::DetachEverywhere);
                outcome.exit = Some(Ok(()));
                outcome
            },
            ClientInputDispatch::Redraw => {
                self.full_redraw = true;
                LoopOutcome::one(LoopAction::RenderCached)
            },
            ClientInputDispatch::Consumed => LoopOutcome::nothing(),
        }
    }

    /// A request was sent, or could not be: where it was and asks for it, the summaries are read.
    pub fn on_request_finished(
        &mut self,
        sent: bool,
        refresh: ClientApiRefreshPolicy,
        now: u64,
    ) -> (r: LoopOutcome)
        ensures
            ({
                let read = sent && refresh == ClientApiRefreshPolicy::Immediate;
                &&& final(self)@ == (StateView {
                    last_refresh: if read {
                        now
                    } else {
                        old(self)@.last_refresh
                    },
                    ..redrawn(old(self)@)
                })
                &&& r.goes_on_with(after_change(read))
            }),
    {
        let read: bool = sent && refresh == ClientApiRefreshPolicy::Immediate;
        if read {
            self.last_refresh = now;
        }
        self.full_redraw = true;
        ClientState::change_outcome(read)
    }

    fn change_outcome(read: bool) -> (r: LoopOutcome)
        ensures
            r.goes_on_with(after_change(read)),
    {
        let mut actions: Vec<LoopAction> = Vec::new();
        if read {
            actions.push(LoopAction::RefreshSummaries);
            actions.push(LoopAction::StartSubscriptions);
        }
        actions.push(LoopAction::RenderCached);
        assert(actions.deep_view() =~= after_change(read));
        LoopOutcome { actions, exit: None }
    }

    /// A remote was added, or that failed, which the form then says.
    pub fn on_add_remote_finished(&mut self, result: Result<(), String>, now: u64) -> (r:
        LoopOutcome)
        ensures
            final(self)@ == add_remote_done(old(self)@, outcome_view(result), now),
            r.goes_on_with(after_change(result is Ok && old(self)@.model is Some)),
    {
        let mut read: bool = false;
        if let Some(model) = &mut self.supervisor_model {
            match &result {
                Ok(_) => {
                    self.last_refresh = now;
                    read = true;
                },
                Err(e) => {
                    model.set_add_remote_error(e.as_str());
                },
            }
        }
        self.full_redraw = true;
        ClientState::change_outcome(read)
    }

    /// Handles input of a client of one terminal.
    fn on_attach_input<P>(&mut self, data: Vec<u8>, parse: P) -> (r: LoopOutcome) where
        P: Fn(&Vec<u8>) -> Vec<RawInputEvent>,

        requires
            old(self).attach_escape is Some,
            forall|bytes: &Vec<u8>| #[trigger] call_requires(parse, (bytes,)),
        ensures
            ({
                let f = filtered(data@, old(self)@.pending_prefix->0);
                &&& final(self)@ == (StateView { pending_prefix: Some(f.pending), ..old(self)@ })
                &&& attach_input_is(r, old(self)@, parse, data@)
            }),
    {
        let rows: u16 = self.reported_size.1;
        let lines: usize = self.mouse_scroll_lines;
        let ghost s = self@;
        let ghost f = filtered(data@, s.pending_prefix->0);
        let stripped: Option<Vec<u8>> = match &mut self.attach_escape {
            Some(escape) => escape.strip_prefix_keys(&data),
            None => None,
        };
        match stripped {
            None => {
                let mut outcome: LoopOutcome = LoopOutcome::one(LoopAction::DetachMain);
                outcome.exit = Some(Ok(()));
                outcome
            },
            Some(output) => {
                if output.len() == 0 {
                    return LoopOutcome::nothing();
                }
                let events: Vec<RawInputEvent> = parse(&output);
                let ghost typed = output;
                let action: AttachInputAction = crate::attach::attach_input_action(
                    output,
                    &events,
                    rows,
                    lines,
                );
                let ghost chosen = action;
                assert(call_ensures(parse, (&typed,), events));
                assert(attach_action_is(chosen, f.output, events@, rows, lines));
                let outcome: LoopOutcome = match action {
                    AttachInputAction::Forward(bytes) => {
                        let again: Vec<RawInputEvent> = parse(&bytes);
                        let ghost sent = bytes;
                        let outcome: LoopOutcome = self.forward_input(bytes, &again);
                        assert(forwarded(self@, sent, again@) == forwarded(s, sent, again@));
                        assert(call_ensures(parse, (&sent,), again));
                        outcome
                    },
                    AttachInputAction::Scroll(scroll) => LoopOutcome::one(
                        LoopAction::Write {
                            server_id: ServerId::main(),
                            message: ClientMessage::AttachScroll(scroll),
                        },
                    ),
                    AttachInputAction::Swallow => LoopOutcome::nothing(),
                    AttachInputAction::Detach => {
                        let mut outcome: LoopOutcome = LoopOutcome::one(LoopAction::DetachMain);
                        outcome.exit = Some(Ok(()));
                        outcome
                    },
                };
                assert(attach_outcome_is(outcome, s, parse, chosen));
                assert(attach_events_are(outcome, s, parse, f.output, typed, events));
                outcome
            },
        }
    }
}

/// Whether an outcome is what the bytes behind the prefix key come to, read as these events.
pub open spec fn attach_events_are<P>(
    r: LoopOutcome,
    s: StateView,
    parse: P,
    output: Seq<u8>,
    bytes: Vec<u8>,
    events: Vec<RawInputEvent>,
) -> bool where P: Fn(&Vec<u8>) -> Vec<RawInputEvent> {
    &&& bytes@ == output
    &&& call_ensures(parse, (&bytes,), events)
    &&& exists|action: AttachInputAction| #[trigger]
        attach_outcome_is(r, s, parse, action) && attach_action_is(
            action,
            output,
            events@,
            s.reported_size.1,
            s.mouse_scroll_lines,
        )
}

/// Whether an outcome is what input of a client of one terminal comes to.
pub open spec fn attach_input_is<P>(
    r: LoopOutcome,
    s: StateView,
    parse: P,
    data: Seq<u8>,
) -> bool where P: Fn(&Vec<u8>) -> Vec<RawInputEvent> {
    let f = filtered(data, s.pending_prefix->0);
    if f.detach {
        r.actions.deep_view() == seq![ActionView::DetachMain] && r.exit == Some(
            Ok::<(), ClientError>(()),
        )
    } else if f.output.len() == 0 {
        r.goes_on_with(Seq::empty())
    } else {
        exists|bytes: Vec<u8>, events: Vec<RawInputEvent>| #[trigger]
            attach_events_are(r, s, parse, f.output, bytes, events)
    }
}

/// Whether state and outcome are what input comes to that left this behind.
pub open spec fn dispatched_outcome<P>(
    s: StateView,
    left: Dispatched,
    after: StateView,
    r: LoopOutcome,
    parse: P,
) -> bool where P: Fn(&Vec<u8>) -> Vec<RawInputEvent> {
    let next = StateView {
        compositor: Some(left.compositor),
        model: Some(left.model),
        ..s
    };
    if left.dispatch is Forward {
        after == next && is_forwarded(r, next, parse, left.dispatch->data)
    } else {
        exists|dispatch: ClientInputDispatch| #[trigger]
            dispatch.deep_view() == left.dispatch && after == dispatch_state(next, dispatch)
                && r.actions.deep_view() == dispatch_actions(next, dispatch) && r.exit == (
            if dispatch is DetachAll {
                Some(Ok::<(), ClientError>(()))
            } else {
                None
            })
    }
}

/// Whether state and outcome are what input comes to.
pub open spec fn input_outcome<P, L>(
    s: StateView,
    data: Seq<u8>,
    events: Seq<RawInputEvent>,
    surface_redraw: bool,
    parse: P,
    layout_of: L,
    after: StateView,
    r: LoopOutcome,
) -> bool where
    P: Fn(&Vec<u8>) -> Vec<RawInputEvent>,
    L: Fn(&ClientCompositor, &ClientSupervisorModel) -> SidebarLayout,
 {
    if s.pending_prefix is Some {
        &&& after == (StateView {
            pending_prefix: Some(filtered(data, s.pending_prefix->0).pending),
            ..s
        })
        &&& attach_input_is(r, s, parse, data)
    } else {
        let drawn = if surface_redraw {
            redrawn(s)
        } else {
            s
        };
        if s.compositor is Some && s.model is Some {
            exists|left: Dispatched| #[trigger]
                input_leaves(
                    layout_of,
                    s.compositor->0,
                    s.model->0,
                    data,
                    events,
                    s.host_size,
                    left,
                ) && dispatched_outcome(drawn, left, after, r, parse)
        } else {
            after == drawn && is_forwarded(r, drawn, parse, data)
        }
    }
}

impl ClientState {
    /// The user typed, or moved the mouse. `events` is what `parse` reads in the bytes;
    /// `surface_redraw` says whether they call for the screen to be drawn in full; `layout_of`
    /// says where the parts of the sidebar lie.
    pub fn on_input<P, L>(
        &mut self,
        data: Vec<u8>,
        events: &Vec<RawInputEvent>,
        surface_redraw: bool,
        parse: P,
        layout_of: L,
    ) -> (r: LoopOutcome) where
        P: Fn(&Vec<u8>) -> Vec<RawInputEvent>,
        L: Fn(&ClientCompositor, &ClientSupervisorModel) -> SidebarLayout,

        requires
            forall|bytes: &Vec<u8>| #[trigger] call_requires(parse, (bytes,)),
            forall|c: &ClientCompositor, m: &ClientSupervisorModel| #[trigger]
                call_requires(layout_of, (c, m)),
        ensures
            input_outcome(
                old(self)@,
                data@,
                events@,
                surface_redraw,
                parse,
                layout_of,
                final(self)@,
                r,
            ),
    {
        if self.attach_escape.is_some() {
            return self.on_attach_input(data, parse);
        }
        if surface_redraw {
            self.full_redraw = true;
        }
        let ghost drawn = self@;
        let host_size: (u16, u16) = self.host_size;
        let ghost typed = data@;
        let own: bool = self.compositor.is_some() && self.supervisor_model.is_some();
        if !own {
            let again: Vec<RawInputEvent> = parse(&data);
            let ghost sent = data;
            let outcome: LoopOutcome = self.forward_input(data, &again);
            assert(call_ensures(parse, (&sent,), again));
            return outcome;
        }
        let mut result: Option<ClientInputDispatch> = None;
        if let Some(compositor) = &mut self.compositor {
            if let Some(model) = &mut self.supervisor_model {
                result = Some(
                    dispatch_composited_input(
                        data,
                        events,
                        compositor,
                        model,
                        host_size,
                        layout_of,
                    ),
                );
            }
        }
        let ghost next = self@;
        match result {
            None => LoopOutcome::nothing(),
            Some(dispatch) => {
                let ghost left = Dispatched {
                    compositor: next.compositor->0,
                    model: next.model->0,
                    dispatch: dispatch.deep_view(),
                };
                assert(input_leaves(
                    layout_of,
                    drawn.compositor->0,
                    drawn.model->0,
                    typed,
                    events@,
                    host_size,
                    left,
                ));
                match dispatch {
                    ClientInputDispatch::Forward(bytes) => {
                        let again: Vec<RawInputEvent> = parse(&bytes);
                        let ghost sent = bytes;
                        let outcome: LoopOutcome = self.forward_input(bytes, &again);
                        assert(call_ensures(parse, (&sent,), again));
                        assert(dispatched_outcome(drawn, left, self@, outcome, parse));
                        outcome
                    },
                    other => {
                        let ghost came = other;
                        let outcome: LoopOutcome = self.after_dispatch(other);
                        assert(came.deep_view() == left.dispatch);
                        assert(dispatched_outcome(drawn, left, self@, outcome, parse));
                        outcome
                    },
                }
            },
        }
    }
}

/// Only the active server writes to the host terminal: what another one sends prints nothing and
/// switches nothing there, and every frame beside the sidebar is the active server's.
pub proof fn law_only_the_active_server_writes(s: StateView, id: Seq<char>, message: ServerMessage)
    requires
        id != active_of(s),
    ensures
        forall|i: int|
            #![trigger message_handled(s, id, message).1[i]]
            0 <= i < message_handled(s, id, message).1.len() ==> {
                let action = message_handled(s, id, message).1[i];
                &&& !(action is Print)
                &&& !(action is SetMouseCapture)
                &&& action is ShowFrame ==> s.compositor is None || s.model is None
            },
        cached_frame(message_handled(s, id, message).0.frames, active_of(s)) == cached_frame(
            s.frames,
            active_of(s),
        ),
        message_handled(s, id, message).0.mouse_capture_active == s.mouse_capture_active,
{
    if let ServerMessage::Frame(frame) = message {
        lemma_frames_without(s.frames, id, active_of(s));
        lemma_pushed_frame(
            frames_without(s.frames, id),
            CachedView { server_id: id, frame },
            active_of(s),
        );
    }
}

/// What a server sends changes neither which servers there are, nor which is active, nor what is
/// tried again.
pub proof fn law_messages_leave_the_servers_alone(s: StateView, id: Seq<char>, message: ServerMessage)
    ensures
        ({
            let after = message_handled(s, id, message).0;
            &&& after.model == s.model
            &&& after.streams == s.streams
            &&& after.retries == s.retries
            &&& after.bridges == s.bridges
            &&& active_of(after) == active_of(s)
        }),
{
}

/// The last frame of a server is the one that is drawn for it.
pub proof fn law_last_frame_is_drawn(s: StateView, id: Seq<char>, frame: FrameData)
    ensures
        cached_frame(frame_cached(s, id, frame).frames, id) == Some(frame),
{
    lemma_frames_without(s.frames, id, id);
    lemma_pushed_frame(frames_without(s.frames, id), CachedView { server_id: id, frame }, id);
}

proof fn lemma_pushed_frame(frames: Seq<CachedView>, last: CachedView, id: Seq<char>)
    ensures
        cached_frame(frames.push(last), id) == (match cached_frame(frames, id) {
            Some(frame) => Some(frame),
            None => if last.server_id == id {
                Some(last.frame)
            } else {
                None
            },
        }),
    decreases frames.len(),
{
    if frames.len() > 0 {
        lemma_pushed_frame(frames.drop_first(), last, id);
        assert(frames.push(last).drop_first() =~= frames.drop_first().push(last));
    } else {
        reveal_with_fuel(cached_frame, 2);
    }
}

proof fn lemma_frames_without(frames: Seq<CachedView>, id: Seq<char>, other: Seq<char>)
    ensures
        cached_frame(frames_without(frames, id), other) == (if id == other {
            None
        } else {
            cached_frame(frames, other)
        }),
    decreases frames.len(),
{
    if frames.len() > 0 {
        let rest = frames.drop_last();
        lemma_frames_without(rest, id, other);
        lemma_pushed_frame(rest, frames.last(), other);
        lemma_pushed_frame(frames_without(rest, id), frames.last(), other);
        assert(rest.push(frames.last()) =~= frames);
    }
}

/// Losing the server of a remote leaves the frames of all others as they are.
pub proof fn law_lost_remote_leaves_other_frames(
    s: StateView,
    id: Seq<char>,
    now: u64,
    redraw: bool,
    other: Seq<char>,
)
    requires
        other != id,
    ensures
        cached_frame(server_lost(s, id, now, redraw).frames, other) == cached_frame(
            s.frames,
            other,
        ),
        cached_frame(server_lost(s, id, now, redraw).frames, id) is None,
{
    lemma_frames_without(s.frames, id, other);
    lemma_frames_without(s.frames, id, id);
}

} // verus!
