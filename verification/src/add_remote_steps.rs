//! The steps by which a remote is added, each a decision on what the one before came to.

use vstd::prelude::*;

use crate::add_remote::{
    is_main_target, reject_duplicate_main_target, validate_add_remote_target, validated,
    ValidateStep, ValidateView,
};
use crate::api::{status_result, RuntimeStatus, RuntimeStatusView};
use crate::client::{
    ApiTargetView, BridgeView, ClientSocket, ClientSocketView, ConnectionTarget, SshBridge,
};
use crate::client_loop::add_remote_done;
use crate::client_state::{
    add_bridge, add_stream, bridges_with, connection_noted, streams_with, ClientState, StateView,
};
use crate::remote_registry::{
    target_of, RemoteDefinitionSnapshot, RemoteRegistryError, RemoteTargetSnapshot, RemoteView,
    TargetView,
};
use crate::servers::{secondary_id, secondary_server, settled, ConnectionState, ServerId};
use crate::supervisor::overlay::{overlay_closed, AddRemoteDraft, DraftView};
use crate::supervisor::{
    index_of_server, lemma_index_of_server, FormView, ModelView, OverlayView,
};

verus! {

/// The sockets of a bridge that was started for a remote that is being added.
#[derive(Debug, PartialEq, Eq)]
pub struct BridgeSockets {
    pub client_socket: String,
    pub api_socket: String,
}

/// The sockets of a bridge, as a mathematical value.
#[verifier::ext_equal]
pub struct SocketsView {
    pub client_socket: Seq<char>,
    pub api_socket: Seq<char>,
}

impl DeepView for BridgeSockets {
    type V = SocketsView;

    open spec fn deep_view(&self) -> SocketsView {
        SocketsView { client_socket: self.client_socket@, api_socket: self.api_socket@ }
    }
}

/// What is to be done next for a remote that is being added.
#[derive(Debug, PartialEq, Eq)]
pub enum AddRemoteStep {
    /// Start a bridge to the host.
    StartBridge { draft: AddRemoteDraft, target: String, args: Vec<String> },
    /// After so many milliseconds, ask the server for its status.
    CheckStatus {
        draft: AddRemoteDraft,
        target: ConnectionTarget,
        socket: ClientSocket,
        bridge: Option<BridgeSockets>,
        wait_millis: u64,
    },
    /// Open a stream to the server.
    Connect { draft: AddRemoteDraft, socket: ClientSocket, bridge: Option<BridgeSockets> },
    /// Have the main server store the remote.
    SendAdd { draft: AddRemoteDraft, bridge: Option<BridgeSockets> },
    /// Take over the stream for this server.
    Attach { server_id: ServerId },
    /// The remote is there.
    Done,
    /// The remote is not added, for this reason.
    Refused { message: String },
}

/// A step as a mathematical value.
#[verifier::ext_equal]
pub enum AddStepView {
    StartBridge { draft: DraftView, target: Seq<char>, args: Seq<Seq<char>> },
    CheckStatus {
        draft: DraftView,
        target: ApiTargetView,
        socket: ClientSocketView,
        bridge: Option<SocketsView>,
        wait_millis: u64,
    },
    Connect { draft: DraftView, socket: ClientSocketView, bridge: Option<SocketsView> },
    SendAdd { draft: DraftView, bridge: Option<SocketsView> },
    Attach { server_id: Seq<char> },
    Done,
    Refused { message: Seq<char> },
}

impl DeepView for AddRemoteStep {
    type V = AddStepView;

    open spec fn deep_view(&self) -> AddStepView {
        match self {
            AddRemoteStep::StartBridge { draft, target, args } => AddStepView::StartBridge {
                draft: draft.deep_view(),
                target: target@,
                args: args.deep_view(),
            },
            AddRemoteStep::CheckStatus { draft, target, socket, bridge, wait_millis } =>
            AddStepView::CheckStatus {
                draft: draft.deep_view(),
                target: target.deep_view(),
                socket: socket.deep_view(),
                bridge: bridge.deep_view(),
                wait_millis: *wait_millis,
            },
            AddRemoteStep::Connect { draft, socket, bridge } => AddStepView::Connect {
                draft: draft.deep_view(),
                socket: socket.deep_view(),
                bridge: bridge.deep_view(),
            },
            AddRemoteStep::SendAdd { draft, bridge } => AddStepView::SendAdd {
                draft: draft.deep_view(),
                bridge: bridge.deep_view(),
            },
            AddRemoteStep::Attach { server_id } => AddStepView::Attach { server_id: server_id@ },
            AddRemoteStep::Done => AddStepView::Done,
            AddRemoteStep::Refused { message } => AddStepView::Refused { message: message@ },
        }
    }
}

/// What a step came to.
#[derive(Debug)]
pub enum AddRemoteEvent {
    BridgeStarted { bridge: BridgeSockets },
    BridgeFailed { error: String },
    /// The answer to a status request, so many milliseconds after the first one.
    Status { status: Result<RuntimeStatus, String>, elapsed_millis: u64 },
    Connected,
    ConnectFailed { error: String },
    /// What the main server made of the remote.
    Submitted { result: Result<RemoteDefinitionSnapshot, String> },
    Attached,
    AttachFailed { error: String },
}

/// What a step came to, as a mathematical value.
#[verifier::ext_equal]
pub enum AddEventView {
    BridgeStarted { bridge: SocketsView },
    BridgeFailed { error: Seq<char> },
    Status { status: Result<RuntimeStatusView, Seq<char>>, elapsed_millis: u64 },
    Connected,
    ConnectFailed { error: Seq<char> },
    Submitted { result: Result<RemoteView, Seq<char>> },
    Attached,
    AttachFailed { error: Seq<char> },
}

impl DeepView for AddRemoteEvent {
    type V = AddEventView;

    open spec fn deep_view(&self) -> AddEventView {
        match self {
            AddRemoteEvent::BridgeStarted { bridge } => AddEventView::BridgeStarted {
                bridge: bridge.deep_view(),
            },
            AddRemoteEvent::BridgeFailed { error } => AddEventView::BridgeFailed { error: error@ },
            AddRemoteEvent::Status { status, elapsed_millis } => AddEventView::Status {
                status: status_result(*status),
                elapsed_millis: *elapsed_millis,
            },
            AddRemoteEvent::Connected => AddEventView::Connected,
            AddRemoteEvent::ConnectFailed { error } => AddEventView::ConnectFailed {
                error: error@,
            },
            AddRemoteEvent::Submitted { result } => AddEventView::Submitted {
                result: match result {
                    Ok(remote) => Ok(remote.deep_view()),
                    Err(e) => Err(e@),
                },
            },
            AddRemoteEvent::Attached => AddEventView::Attached,
            AddRemoteEvent::AttachFailed { error } => AddEventView::AttachFailed { error: error@ },
        }
    }
}

/// The first step for a target that is not the main server's: the server of a local session is
/// asked for its status, the host of another target first gets a bridge.
pub open spec fn add_remote_started(draft: DraftView, target: TargetView) -> AddStepView {
    match target {
        TargetView::Local { session } => AddStepView::CheckStatus {
            draft,
            target: ApiTargetView::LocalSession(session),
            socket: ClientSocketView::Session(session),
            bridge: None,
            wait_millis: 0,
        },
        TargetView::Ssh { target, args } => AddStepView::StartBridge { draft, target, args },
    }
}

/// The first step for a draft whose target reads like this. A target that cannot be read and that
/// of the main server are refused.
pub open spec fn add_remote_submitted(
    draft: DraftView,
    target: Option<TargetView>,
    main: Option<TargetView>,
) -> AddStepView {
    match target {
        None => AddStepView::Refused { message: RemoteRegistryError::InvalidTarget.message_spec() },
        Some(target) => if is_main_target(main, target) {
            AddStepView::Refused { message: "remote already added"@ }
        } else {
            add_remote_started(draft, target)
        },
    }
}

/// The first step for a draft.
pub fn handle_client_add_remote_submission(
    draft: AddRemoteDraft,
    main_target: &Option<RemoteTargetSnapshot>,
) -> (r: AddRemoteStep)
    ensures
        r.deep_view() == add_remote_submitted(
            draft.deep_view(),
            target_of(draft.target@),
            main_target.deep_view(),
        ),
{
    match RemoteTargetSnapshot::parse(draft.target.as_str()) {
        Ok(target) => start_add_remote_target(draft, target, main_target),
        Err(e) => AddRemoteStep::Refused { message: e.message().to_owned() },
    }
}

/// The first step for a draft with a target that has been read.
pub fn start_add_remote_target(
    draft: AddRemoteDraft,
    target: RemoteTargetSnapshot,
    main_target: &Option<RemoteTargetSnapshot>,
) -> (r: AddRemoteStep)
    ensures
        r.deep_view() == add_remote_submitted(
            draft.deep_view(),
            Some(target.deep_view()),
            main_target.deep_view(),
        ),
{
    match reject_duplicate_main_target(main_target, &target) {
        Err(message) => {
            return AddRemoteStep::Refused { message };
        },
        Ok(()) => {},
    }
    match target {
        RemoteTargetSnapshot::Local { session } => {
            let socket: ClientSocket = ClientSocket::Session(crate::text::clone_option(&session));
            AddRemoteStep::CheckStatus {
                draft,
                target: ConnectionTarget::LocalSession(session),
                socket,
                bridge: None,
                wait_millis: 0,
            }
        },
        RemoteTargetSnapshot::Ssh { target, args } => AddRemoteStep::StartBridge {
            draft,
            target,
            args,
        },
    }
}

/// The state with the remote that the main server stored: its server is in the model, and its
/// bridge is kept.
pub open spec fn remote_taken(
    s: StateView,
    remote: RemoteView,
    bridge: Option<SocketsView>,
) -> StateView {
    StateView {
        model: match s.model {
            Some(m) => Some(
                ModelView {
                    servers: m.servers.push(secondary_server(remote, ConnectionState::Connected)),
                    ..m
                },
            ),
            None => None,
        },
        bridges: match bridge {
            Some(b) => bridges_with(
                s.bridges,
                BridgeView {
                    server_id: secondary_id(remote.id),
                    client_socket: b.client_socket,
                    api_socket: b.api_socket,
                },
            ),
            None => s.bridges,
        },
        ..s
    }
}

/// The state once the stream of the new server was taken over: it is connected, and the form is
/// closed.
pub open spec fn remote_attached(s: StateView, id: Seq<char>) -> StateView {
    StateView {
        streams: streams_with(s.streams, id),
        model: match connection_noted(s.model, id, ConnectionState::Connected) {
            Some(m) => Some(overlay_closed(m)),
            None => None,
        },
        ..s
    }
}

/// The state and the next step after a step came to something. What does not fit the step is
/// passed over.
pub open spec fn add_remote_stepped(
    s: StateView,
    step: AddStepView,
    event: AddEventView,
) -> (StateView, AddStepView) {
    match event {
        AddEventView::BridgeStarted { bridge } => match step {
            AddStepView::StartBridge { draft, .. } => (
                s,
                AddStepView::CheckStatus {
                    draft,
                    target: ApiTargetView::SocketPath(bridge.api_socket),
                    socket: ClientSocketView::Path(bridge.client_socket),
                    bridge: Some(bridge),
                    wait_millis: 0,
                },
            ),
            _ => (s, step),
        },
        AddEventView::BridgeFailed { error } => match step {
            AddStepView::StartBridge { .. } => (
                s,
                AddStepView::Refused { message: "failed to start ssh remote bridge: "@ + error },
            ),
            _ => (s, step),
        },
        AddEventView::Status { status, elapsed_millis } => match step {
            AddStepView::CheckStatus { draft, target, socket, bridge, .. } => match validated(
                status,
                elapsed_millis,
            ) {
                ValidateView::Accept => (s, AddStepView::Connect { draft, socket, bridge }),
                ValidateView::Reject { message } => (s, AddStepView::Refused { message }),
                ValidateView::Retry { millis } => (
                    s,
                    AddStepView::CheckStatus { draft, target, socket, bridge, wait_millis: millis },
                ),
            },
            _ => (s, step),
        },
        AddEventView::Connected => match step {
            AddStepView::Connect { draft, bridge, .. } => (
                s,
                AddStepView::SendAdd { draft, bridge },
            ),
            _ => (s, step),
        },
        AddEventView::ConnectFailed { error } => match step {
            AddStepView::Connect { .. } => (s, AddStepView::Refused { message: error }),
            _ => (s, step),
        },
        AddEventView::Submitted { result } => match step {
            AddStepView::SendAdd { bridge, .. } => match result {
                Ok(remote) => (
                    remote_taken(s, remote, bridge),
                    AddStepView::Attach { server_id: secondary_id(remote.id) },
                ),
                Err(message) => (s, AddStepView::Refused { message }),
            },
            _ => (s, step),
        },
        AddEventView::Attached => match step {
            AddStepView::Attach { server_id } => (
                remote_attached(s, server_id),
                AddStepView::Done,
            ),
            _ => (s, step),
        },
        AddEventView::AttachFailed { error } => match step {
            AddStepView::Attach { .. } => (s, AddStepView::Refused { message: error }),
            _ => (s, step),
        },
    }
}

impl ClientState {
    /// Takes the remote in that the main server stored, with the bridge to it.
    fn take_remote(
        &mut self,
        remote: RemoteDefinitionSnapshot,
        bridge: Option<BridgeSockets>,
    ) -> (r: ServerId)
        ensures
            r@ == secondary_id(remote.deep_view().id),
            final(self)@ == remote_taken(old(self)@, remote.deep_view(), bridge.deep_view()),
    {
        let server_id: ServerId = ServerId::secondary(remote.id.as_str());
        if let Some(model) = &mut self.supervisor_model {
            let added: ServerId = model.add_secondary(remote);
        }
        match bridge {
            Some(sockets) => {
                let bridge: SshBridge = SshBridge {
                    server_id: server_id.clone(),
                    client_socket: sockets.client_socket,
                    api_socket: sockets.api_socket,
                };
                add_bridge(&mut self.bridges, bridge);
            },
            None => {},
        }
        server_id
    }

    /// Notes that the stream of the new server was taken over, and closes the form.
    fn attach_remote(&mut self, server_id: &ServerId)
        ensures
            final(self)@ == remote_attached(old(self)@, server_id@),
    {
        add_stream(&mut self.streams, server_id.clone());
        self.note_connection(server_id, ConnectionState::Connected);
        if let Some(model) = &mut self.supervisor_model {
            model.finish_add_remote();
        }
    }
}

/// The next step after a step came to something.
pub fn add_remote_next(
    state: &mut ClientState,
    step: AddRemoteStep,
    event: AddRemoteEvent,
) -> (r: AddRemoteStep)
    ensures
        (final(state)@, r.deep_view()) == add_remote_stepped(
            old(state)@,
            step.deep_view(),
            event.deep_view(),
        ),
{
    match event {
        AddRemoteEvent::BridgeStarted { bridge } => match step {
            AddRemoteStep::StartBridge { draft, .. } => AddRemoteStep::CheckStatus {
                draft,
                target: ConnectionTarget::SocketPath(bridge.api_socket.clone()),
                socket: ClientSocket::Path(bridge.client_socket.clone()),
                bridge: Some(bridge),
                wait_millis: 0,
            },
            other => other,
        },
        AddRemoteEvent::BridgeFailed { error } => match step {
            AddRemoteStep::StartBridge { .. } => {
                let mut message: String = "failed to start ssh remote bridge: ".to_owned();
                message.append(error.as_str());
                AddRemoteStep::Refused { message }
            },
            other => other,
        },
        AddRemoteEvent::Status { status, elapsed_millis } => match step {
            AddRemoteStep::CheckStatus { draft, target, socket, bridge, .. } => {
                match validate_add_remote_target(status, elapsed_millis) {
                    ValidateStep::Accept => AddRemoteStep::Connect { draft, socket, bridge },
                    ValidateStep::Reject(message) => AddRemoteStep::Refused { message },
                    ValidateStep::Retry(millis) => AddRemoteStep::CheckStatus {
                        draft,
                        target,
                        socket,
                        bridge,
                        wait_millis: millis,
                    },
                }
            },
            other => other,
        },
        AddRemoteEvent::Connected => match step {
            AddRemoteStep::Connect { draft, bridge, .. } => AddRemoteStep::SendAdd { draft, bridge },
            other => other,
        },
        AddRemoteEvent::ConnectFailed { error } => match step {
            AddRemoteStep::Connect { .. } => AddRemoteStep::Refused { message: error },
            other => other,
        },
        AddRemoteEvent::Submitted { result } => match step {
            AddRemoteStep::SendAdd { bridge, .. } => match result {
                Ok(remote) => {
                    let server_id: ServerId = state.take_remote(remote, bridge);
                    AddRemoteStep::Attach { server_id }
                },
                Err(message) => AddRemoteStep::Refused { message },
            },
            other => other,
        },
        AddRemoteEvent::Attached => match step {
            AddRemoteStep::Attach { server_id } => {
                state.attach_remote(&server_id);
                AddRemoteStep::Done
            },
            other => other,
        },
        AddRemoteEvent::AttachFailed { error } => match step {
            AddRemoteStep::Attach { .. } => AddRemoteStep::Refused { message: error },
            other => other,
        },
    }
}

/// The state and the step after a series of events.
pub open spec fn add_remote_run(
    s: StateView,
    step: AddStepView,
    events: Seq<AddEventView>,
) -> (StateView, AddStepView)
    decreases events.len(),
{
    if events.len() == 0 {
        (s, step)
    } else {
        let before = add_remote_run(s, step, events.drop_last());
        add_remote_stepped(before.0, before.1, events.last())
    }
}

/// Whether a bridge was started by the event at this place.
pub open spec fn bridge_started_at(events: Seq<AddEventView>, i: int) -> bool {
    0 <= i < events.len() && events[i] is BridgeStarted
}

/// Whether the server's status was found good by the event at this place.
pub open spec fn accepted_at(events: Seq<AddEventView>, i: int) -> bool {
    &&& 0 <= i < events.len()
    &&& events[i] is Status
    &&& validated(events[i]->status, events[i]->elapsed_millis) is Accept
}

/// Whether the stream was opened by the event at this place.
pub open spec fn connected_at(events: Seq<AddEventView>, i: int) -> bool {
    0 <= i < events.len() && events[i] is Connected
}

/// Whether the server of a target was found good, over a bridge where it needs one.
pub open spec fn target_checked(target: TargetView, events: Seq<AddEventView>, i: int) -> bool {
    &&& accepted_at(events, i)
    &&& target is Ssh ==> exists|k: int| #[trigger] bridge_started_at(events, k) && k < i
}

/// Whether the server of a target was found good and a stream to it was opened after that.
pub open spec fn target_connected(target: TargetView, events: Seq<AddEventView>) -> bool {
    exists|i: int, j: int| #[trigger]
        target_checked(target, events, i) && #[trigger] connected_at(events, j) && i < j
}

/// Whether the main server stored the remote by the event at this place.
pub open spec fn stored_at(
    s: StateView,
    step: AddStepView,
    events: Seq<AddEventView>,
    i: int,
) -> bool {
    &&& 0 <= i < events.len()
    &&& add_remote_run(s, step, events.take(i)).1 is SendAdd
    &&& events[i] is Submitted
    &&& events[i]->result is Ok
}

/// What has happened by the time a step is reached.
spec fn step_earned(
    step: AddStepView,
    draft: DraftView,
    target: TargetView,
    events: Seq<AddEventView>,
) -> bool {
    match step {
        AddStepView::StartBridge { draft: d, .. } => d == draft,
        AddStepView::CheckStatus { draft: d, .. } => {
            &&& d == draft
            &&& target is Ssh ==> exists|k: int| #[trigger] bridge_started_at(events, k)
        },
        AddStepView::Connect { draft: d, .. } => {
            &&& d == draft
            &&& exists|i: int| #[trigger] target_checked(target, events, i)
        },
        AddStepView::SendAdd { draft: d, .. } => d == draft && target_connected(target, events),
        AddStepView::Attach { .. } => target_connected(target, events),
        AddStepView::Done => target_connected(target, events),
        AddStepView::Refused { .. } => true,
    }
}

proof fn lemma_checked_grows(target: TargetView, events: Seq<AddEventView>, i: int)
    requires
        events.len() > 0,
        target_checked(target, events.drop_last(), i),
    ensures
        target_checked(target, events, i),
{
    let front = events.drop_last();
    assert(front[i] == events[i]);
    if target is Ssh {
        let k = choose|k: int| #[trigger] bridge_started_at(front, k) && k < i;
        assert(front[k] == events[k]);
        assert(bridge_started_at(events, k) && k < i);
    }
}

proof fn lemma_connected_grows(target: TargetView, events: Seq<AddEventView>)
    requires
        events.len() > 0,
        target_connected(target, events.drop_last()),
    ensures
        target_connected(target, events),
{
    let front = events.drop_last();
    let (i, j) = choose|i: int, j: int| #[trigger]
        target_checked(target, front, i) && #[trigger] connected_at(front, j) && i < j;
    lemma_checked_grows(target, events, i);
    assert(front[j] == events[j]);
    assert(target_checked(target, events, i) && connected_at(events, j) && i < j);
}

proof fn lemma_step_earned(
    s: StateView,
    draft: DraftView,
    target: TargetView,
    events: Seq<AddEventView>,
)
    ensures
        step_earned(
            add_remote_run(s, add_remote_started(draft, target), events).1,
            draft,
            target,
            events,
        ),
    decreases events.len(),
{
    if events.len() > 0 {
        let front = events.drop_last();
        let last = events.len() - 1;
        lemma_step_earned(s, draft, target, front);
        let before = add_remote_run(s, add_remote_started(draft, target), front).1;
        match before {
            AddStepView::StartBridge { .. } => {
                if events.last() is BridgeStarted {
                    assert(bridge_started_at(events, last));
                }
            },
            AddStepView::CheckStatus { .. } => {
                if target is Ssh {
                    let k = choose|k: int| #[trigger] bridge_started_at(front, k);
                    assert(front[k] == events[k]);
                    assert(bridge_started_at(events, k) && k < last);
                }
                if accepted_at(events, last) {
                    assert(target_checked(target, events, last));
                }
            },
            AddStepView::Connect { .. } => {
                let i = choose|i: int| #[trigger] target_checked(target, front, i);
                lemma_checked_grows(target, events, i);
                if connected_at(events, last) {
                    assert(target_checked(target, events, i) && i < last);
                }
            },
            AddStepView::SendAdd { .. } => {
                lemma_connected_grows(target, events);
            },
            AddStepView::Attach { .. } => {
                lemma_connected_grows(target, events);
            },
            AddStepView::Done => {
                lemma_connected_grows(target, events);
            },
            AddStepView::Refused { .. } => {},
        }
    }
}

/// The main server is asked to store a remote only for a draft whose target can be read and is
/// not the main server's, and only after the server behind it was found good and a stream to it
/// was opened, in this order and, for a host, over a bridge that was started before. It is asked
/// for that draft, and until then nothing of the client's state has changed.
pub proof fn law_remote_is_stored_last(
    s: StateView,
    draft: DraftView,
    target: Option<TargetView>,
    main: Option<TargetView>,
    events: Seq<AddEventView>,
)
    requires
        add_remote_run(s, add_remote_submitted(draft, target, main), events).1 is SendAdd,
    ensures
        target is Some,
        !is_main_target(main, target->0),
        target_connected(target->0, events),
        add_remote_run(s, add_remote_submitted(draft, target, main), events).1->SendAdd_draft
            == draft,
        add_remote_run(s, add_remote_submitted(draft, target, main), events).0 == s,
{
    let first = add_remote_submitted(draft, target, main);
    if first is Refused {
        lemma_refused_stays(s, first, events);
    } else {
        lemma_step_earned(s, draft, target->0, events);
    }
    lemma_unstored_state(s, first, events);
}

proof fn lemma_refused_stays(s: StateView, step: AddStepView, events: Seq<AddEventView>)
    requires
        step is Refused,
    ensures
        add_remote_run(s, step, events) == (s, step),
    decreases events.len(),
{
    if events.len() > 0 {
        lemma_refused_stays(s, step, events.drop_last());
    }
}

/// A step that comes before the remote is stored.
spec fn before_stored(step: AddStepView) -> bool {
    step is StartBridge || step is CheckStatus || step is Connect || step is SendAdd
}

proof fn lemma_unstored_state(s: StateView, step: AddStepView, events: Seq<AddEventView>)
    requires
        before_stored(step) || step is Refused,
    ensures
        before_stored(add_remote_run(s, step, events).1) ==> add_remote_run(s, step, events).0
            == s,
    decreases events.len(),
{
    if events.len() > 0 {
        lemma_unstored_state(s, step, events.drop_last());
    }
}

/// As long as the main server has not stored the remote, whatever fails and in whatever order,
/// the client's state is what it was: its model with the form, its streams, its bridges and all
/// else.
pub proof fn law_unstored_remote_changes_nothing(
    s: StateView,
    draft: DraftView,
    target: Option<TargetView>,
    main: Option<TargetView>,
    events: Seq<AddEventView>,
)
    requires
        forall|i: int|
            !(#[trigger] stored_at(s, add_remote_submitted(draft, target, main), events, i)),
    ensures
        add_remote_run(s, add_remote_submitted(draft, target, main), events).0 == s,
{
    lemma_unstored_stays(s, add_remote_submitted(draft, target, main), events);
}

proof fn lemma_unstored_stays(s: StateView, step: AddStepView, events: Seq<AddEventView>)
    requires
        before_stored(step) || step is Refused,
        forall|i: int| !(#[trigger] stored_at(s, step, events, i)),
    ensures
        add_remote_run(s, step, events).0 == s,
        before_stored(add_remote_run(s, step, events).1) || add_remote_run(
            s,
            step,
            events,
        ).1 is Refused,
    decreases events.len(),
{
    if events.len() > 0 {
        let front = events.drop_last();
        let last = events.len() - 1;
        assert forall|i: int| !(#[trigger] stored_at(s, step, front, i)) by {
            assert(!stored_at(s, step, events, i));
            if 0 <= i < front.len() {
                assert(front.take(i) =~= events.take(i));
                assert(front[i] == events[i]);
            }
        }
        lemma_unstored_stays(s, step, front);
        assert(!stored_at(s, step, events, last));
        assert(events.take(last) =~= front);
    }
}

/// What is open and which server a step is about, as long as the remote is not there yet.
spec fn form_kept(s: StateView, after: (StateView, AddStepView)) -> bool {
    &&& after.0.model is Some <==> s.model is Some
    &&& s.model is Some && !(after.1 is Done) ==> after.0.model->0.overlay == s.model->0.overlay
    &&& after.1 is Attach && s.model is Some ==> index_of_server(
        after.0.model->0.servers,
        after.1->server_id,
    ) is Some
}

proof fn lemma_form_kept(s: StateView, step: AddStepView, events: Seq<AddEventView>)
    requires
        before_stored(step) || step is Refused,
    ensures
        form_kept(s, add_remote_run(s, step, events)),
    decreases events.len(),
{
    if events.len() > 0 {
        let front = events.drop_last();
        lemma_form_kept(s, step, front);
        let before = add_remote_run(s, step, front);
        let after = add_remote_run(s, step, events);
        if before.1 is SendAdd && after.1 is Attach && s.model is Some {
            let servers = after.0.model->0.servers;
            lemma_index_of_server(servers, after.1->server_id);
            assert(servers[servers.len() - 1].id == after.1->server_id);
        }
    }
}

/// Whatever a remote is refused for, a stream that could not be taken over included, the form
/// stays as it was, and the client then shows the reason in it.
pub proof fn law_refused_remote_keeps_the_form(
    s: StateView,
    draft: DraftView,
    target: Option<TargetView>,
    main: Option<TargetView>,
    events: Seq<AddEventView>,
    now: u64,
)
    requires
        s.model is Some,
        s.model->0.overlay is AddRemote,
        add_remote_run(s, add_remote_submitted(draft, target, main), events).1 is Refused,
    ensures
        ({
            let end = add_remote_run(s, add_remote_submitted(draft, target, main), events);
            let shown = add_remote_done(end.0, Err(end.1->message), now);
            let form = s.model->0.overlay->AddRemote_form;
            &&& end.0.model is Some
            &&& end.0.model->0.overlay == s.model->0.overlay
            &&& shown.model is Some
            &&& shown.model->0.overlay == (OverlayView::AddRemote {
                form: FormView { error: Some(end.1->message), ..form },
            })
        }),
{
    lemma_form_kept(s, add_remote_submitted(draft, target, main), events);
}

/// A remote is there only after its server was found good and a stream to it was opened, and the
/// main server stored it. Its form is then closed, its stream open, and its server in the model,
/// connected unless it is switched off.
pub proof fn law_added_remote_is_connected(
    s: StateView,
    draft: DraftView,
    target: Option<TargetView>,
    main: Option<TargetView>,
    events: Seq<AddEventView>,
)
    requires
        add_remote_run(s, add_remote_submitted(draft, target, main), events).1 is Done,
    ensures
        ({
            let first = add_remote_submitted(draft, target, main);
            let end = add_remote_run(s, first, events).0;
            &&& target is Some
            &&& target_connected(target->0, events)
            &&& exists|i: int| #[trigger]
                stored_at(s, first, events, i) && added_server(
                    s,
                    end,
                    secondary_id((events[i]->result->Ok_0).id),
                )
        }),
{
    let first = add_remote_submitted(draft, target, main);
    if first is Refused {
        lemma_refused_stays(s, first, events);
    }
    lemma_step_earned(s, draft, target->0, events);
    lemma_stored(s, first, events);
}

/// Whether a server has been added in a state: its stream is open, the form is closed, and the
/// server is in the model, connected unless it is switched off.
pub open spec fn added_server(s: StateView, end: StateView, id: Seq<char>) -> bool {
    &&& end.streams.contains(id)
    &&& end.model is Some <==> s.model is Some
    &&& end.model is Some ==> {
        let m = end.model->0;
        let i = index_of_server(m.servers, id);
        &&& m.overlay is Closed
        &&& i is Some
        &&& 0 <= i->0 < m.servers.len()
        &&& m.servers[i->0].id == id
        &&& m.servers[i->0].connection_state == settled(
            m.servers[i->0].disabled,
            ConnectionState::Connected,
        )
    }
}

/// Where a remote is attached or there, the main server stored it.
proof fn lemma_stored(s: StateView, step: AddStepView, events: Seq<AddEventView>)
    requires
        before_stored(step),
    ensures
        ({
            let end = add_remote_run(s, step, events);
            &&& end.1 is Attach ==> exists|i: int| #[trigger]
                stored_at(s, step, events, i) && end.1->server_id == secondary_id(
                    (events[i]->result->Ok_0).id,
                )
            &&& end.1 is Done ==> exists|i: int| #[trigger]
                stored_at(s, step, events, i) && added_server(
                    s,
                    end.0,
                    secondary_id((events[i]->result->Ok_0).id),
                )
        }),
    decreases events.len(),
{
    if events.len() > 0 {
        let front = events.drop_last();
        let last = events.len() - 1;
        lemma_stored(s, step, front);
        lemma_form_kept(s, step, front);
        let before = add_remote_run(s, step, front);
        let end = add_remote_run(s, step, events);
        assert(events.take(last) =~= front);
        if before.1 is SendAdd && end.1 is Attach {
            assert(stored_at(s, step, events, last));
        } else if before.1 is Attach {
            let id = before.1->server_id;
            let i = choose|i: int| #[trigger]
                stored_at(s, step, front, i) && id == secondary_id((front[i]->result->Ok_0).id);
            assert(front.take(i) =~= events.take(i));
            assert(front[i] == events[i]);
            assert(stored_at(s, step, events, i));
            if end.1 is Done {
                let streams = end.0.streams;
                assert(streams[streams.len() - 1] == id);
                if s.model is Some {
                    let m = before.0.model->0;
                    let n = end.0.model->0;
                    lemma_index_of_server(m.servers, id);
                    lemma_index_of_server(n.servers, id);
                    let k = index_of_server(m.servers, id)->0;
                    assert(n.servers[k].id == id);
                    let l = index_of_server(n.servers, id)->0;
                    assert(m.servers[l].id == id);
                }
            }
        } else if before.1 is Done {
            let i = choose|i: int| #[trigger]
                stored_at(s, step, front, i) && added_server(
                    s,
                    before.0,
                    secondary_id((front[i]->result->Ok_0).id),
                );
            assert(front.take(i) =~= events.take(i));
            assert(front[i] == events[i]);
            assert(stored_at(s, step, events, i));
        }
    }
}

} // verus!
