//! How a client starts and how it ends.

use vstd::prelude::*;

use crate::attach::AttachEscapeState;
use crate::client::{
    connection_state_from_client_error, is_detach, state_after_error, BridgeView, ClientError,
    ClientRenderPlan, SshBridge,
};
use crate::client_laws::{lemma_bridges_left, lemma_ids_left, one_each, one_entry_per_server};
use crate::client_state::{
    add_bridge, add_stream, bridges_with, bridges_without, remove_bridge, streams_with,
    CachedFrame, ClientState, SecondaryRetryState, StateView,
};
use crate::compositor::{new_compositor, ClientCompositor, DEFAULT_SIDEBAR_WIDTH};
use crate::messages::ClientMessage;
use crate::servers::{main_id, ConnectionState, ServerId};
use crate::supervisor::{connection_set, index_of_server, ClientSupervisorModel};

verus! {

/// Whether a client shows graphics: where they are configured, and not on a single terminal.
pub fn client_shows_graphics(configured: bool, attach: &Option<(String, bool)>) -> (r: bool)
    ensures
        r == (configured && *attach is None),
{
    configured && attach.is_none()
}

/// The message with which a client of one terminal asks for it.
pub fn attach_request(attach: Option<(String, bool)>) -> (r: Option<ClientMessage>)
    ensures
        r == (match attach {
            Some((terminal_id, takeover)) => Some(
                ClientMessage::AttachTerminal { terminal_id, takeover },
            ),
            None => None,
        }),
{
    match attach {
        Some((terminal_id, takeover)) => Some(
            ClientMessage::AttachTerminal { terminal_id, takeover },
        ),
        None => None,
    }
}

/// The settings with which a client starts.
#[derive(Debug, Clone, Copy)]
pub struct ClientSettings {
    pub host_size: (u16, u16),
    pub cell_size_px: (u32, u32),
    pub kitty_graphics_enabled: bool,
    pub mouse_scroll_lines: usize,
    /// Whether it is a client of one terminal.
    pub direct_attach: bool,
}

/// Notes how the first connection to the server of a remote went: it is connected, or it is in
/// the state that the error tells and its bridge goes.
pub fn note_first_connection(
    model: &mut ClientSupervisorModel,
    bridges: Vec<SshBridge>,
    server_id: &ServerId,
    outcome: &Result<(), ClientError>,
) -> (r: Vec<SshBridge>)
    ensures
        r.deep_view() == (match outcome {
            Ok(_) => bridges.deep_view(),
            Err(_) => bridges_without(bridges.deep_view(), server_id@),
        }),
        final(model)@ == (match index_of_server(old(model)@.servers, server_id@) {
            Some(i) => connection_set(
                old(model)@,
                i,
                server_id@,
                match outcome {
                    Ok(_) => ConnectionState::Connected,
                    Err(e) => state_after_error(*e),
                },
            ),
            None => old(model)@,
        }),
{
    match outcome {
        Ok(_) => {
            let _noted: Result<(), ()> = model.set_connection_state(
                server_id,
                ConnectionState::Connected,
            );
            bridges
        },
        Err(error) => {
            let _noted: Result<(), ()> = model.set_connection_state(
                server_id,
                connection_state_from_client_error(error),
            );
            remove_bridge(&bridges, server_id)
        },
    }
}

/// The streams with one to each of these servers.
pub open spec fn streams_opened(streams: Seq<Seq<char>>, ids: Seq<Seq<char>>) -> Seq<Seq<char>>
    decreases ids.len(),
{
    if ids.len() == 0 {
        streams
    } else {
        streams_with(streams_opened(streams, ids.drop_last()), ids.last())
    }
}

/// The bridges that were started, the last one to each server.
pub open spec fn bridges_started(bridges: Seq<BridgeView>) -> Seq<BridgeView>
    decreases bridges.len(),
{
    if bridges.len() == 0 {
        Seq::empty()
    } else {
        bridges_with(bridges_started(bridges.drop_last()), bridges.last())
    }
}

proof fn lemma_streams_opened(streams: Seq<Seq<char>>, ids: Seq<Seq<char>>)
    requires
        one_each(streams, |x: Seq<char>| x),
    ensures
        one_each(streams_opened(streams, ids), |x: Seq<char>| x),
    decreases ids.len(),
{
    if ids.len() > 0 {
        lemma_streams_opened(streams, ids.drop_last());
        lemma_ids_left(streams_opened(streams, ids.drop_last()), ids.last());
    }
}

proof fn lemma_bridges_started(bridges: Seq<BridgeView>)
    ensures
        one_each(bridges_started(bridges), |x: BridgeView| x.server_id),
    decreases bridges.len(),
{
    if bridges.len() > 0 {
        lemma_bridges_started(bridges.drop_last());
        lemma_bridges_left(bridges_started(bridges.drop_last()), bridges.last());
    }
}

/// The state of a client that starts now. `streams` are the servers of remotes that it is
/// connected to, `bridges` the bridges to them; the main server comes first.
pub fn initial_state(
    model: Option<ClientSupervisorModel>,
    plan: &ClientRenderPlan,
    settings: ClientSettings,
    streams: Vec<ServerId>,
    bridges: Vec<SshBridge>,
    now: u64,
) -> (r: ClientState)
    ensures
        r@ == (StateView {
            model: match model {
                Some(m) => Some(m@),
                None => None,
            },
            compositor: if plan.use_client_compositor {
                Some(new_compositor(DEFAULT_SIDEBAR_WIDTH))
            } else {
                None
            },
            pending_prefix: if settings.direct_attach {
                Some(false)
            } else {
                None
            },
            reported_size: plan.server_size,
            host_size: settings.host_size,
            cell_size_px: settings.cell_size_px,
            kitty_graphics_enabled: settings.kitty_graphics_enabled,
            mouse_capture_active: plan.use_client_compositor,
            mouse_scroll_lines: settings.mouse_scroll_lines,
            last_refresh: now,
            frames: Seq::empty(),
            streams: streams_opened(seq![main_id()], streams.deep_view()),
            subscriptions: Seq::empty(),
            bridges: bridges_started(bridges.deep_view()),
            retries: Seq::empty(),
            full_redraw: false,
        }),
        one_entry_per_server(r@),
{
    let mut all: Vec<ServerId> = Vec::new();
    all.push(ServerId::main());
    assert(all.deep_view() =~= seq![main_id()]);
    let ghost others = streams.deep_view();
    let mut i: usize = 0;
    assert(others.take(0) =~= Seq::<Seq<char>>::empty());
    while i < streams.len()
        invariant
            i <= streams@.len(),
            others == streams.deep_view(),
            all.deep_view() == streams_opened(seq![main_id()], others.take(i as int)),
        decreases streams@.len() - i,
    {
        assert(others.take(i + 1).drop_last() =~= others.take(i as int));
        assert(others.take(i + 1).last() == streams@[i as int]@);
        add_stream(&mut all, streams[i].clone());
        i = i + 1;
    }
    assert(others.take(i as int) =~= others);
    let mut known: Vec<SshBridge> = Vec::new();
    let ghost started = bridges.deep_view();
    let mut k: usize = 0;
    assert(known.deep_view() =~= Seq::<BridgeView>::empty());
    assert(started.take(0) =~= Seq::<BridgeView>::empty());
    while k < bridges.len()
        invariant
            k <= bridges@.len(),
            started == bridges.deep_view(),
            known.deep_view() == bridges_started(started.take(k as int)),
        decreases bridges@.len() - k,
    {
        assert(started.take(k + 1).drop_last() =~= started.take(k as int));
        assert(started.take(k + 1).last() == bridges@[k as int].deep_view());
        let bridge: SshBridge = SshBridge {
            server_id: bridges[k].server_id.clone(),
            client_socket: bridges[k].client_socket.clone(),
            api_socket: bridges[k].api_socket.clone(),
        };
        add_bridge(&mut known, bridge);
        k = k + 1;
    }
    assert(started.take(k as int) =~= started);
    proof {
        lemma_streams_opened(seq![main_id()], others);
        lemma_bridges_started(started);
    }
    let frames: Vec<CachedFrame> = Vec::new();
    let subscriptions: Vec<ServerId> = Vec::new();
    let retries: Vec<SecondaryRetryState> = Vec::new();
    let state: ClientState = ClientState {
        supervisor_model: model,
        compositor: if plan.use_client_compositor {
            Some(ClientCompositor::default())
        } else {
            None
        },
        attach_escape: if settings.direct_attach {
            Some(AttachEscapeState::default())
        } else {
            None
        },
        reported_size: plan.server_size,
        host_size: settings.host_size,
        cell_size_px: settings.cell_size_px,
        kitty_graphics_enabled: settings.kitty_graphics_enabled,
        mouse_capture_active: plan.use_client_compositor,
        mouse_scroll_lines: settings.mouse_scroll_lines,
        last_refresh: now,
        frames,
        streams: all,
        subscriptions,
        bridges: known,
        retries,
        full_redraw: false,
    };
    assert(state@.frames =~= Seq::empty());
    assert(state@.subscriptions =~= Seq::empty());
    assert(state@.retries =~= Seq::empty());
    state
}

/// The exit code of a client: detaching is no failure.
pub fn exit_code(result: &Result<(), ClientError>) -> (r: i32)
    ensures
        r == (match result {
            Ok(_) => 0i32,
            Err(e) => if is_detach(*e) {
                0
            } else {
                1
            },
        }),
{
    match result {
        Ok(_) => 0,
        Err(error) => {
            if error.is_detached() {
                0
            } else {
                1
            }
        },
    }
}

} // verus!
