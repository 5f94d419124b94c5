//! Starting a client, its connections, and what it makes of errors and notifications.

use vstd::prelude::*;

use crate::compositor::{content_size_of, ClientCompositor, DEFAULT_SIDEBAR_WIDTH};
use crate::messages::{ClientKeybindings, ClientSurfaceMode, RenderEncoding, ServerMessage};
use crate::protocol::PROTOCOL_VERSION;
use crate::remote_registry::RemoteKeybindingsSnapshot;
use crate::servers::{ConnectionState, ConnectionView, ServerConnectionTarget, ServerId};
use crate::supervisor::routes::SecondaryConnectionPlan;
use crate::supervisor::{server_named, ClientSupervisorModel, ModelView};
use crate::supervisor_api::{bootstrap_from_main_api, start_comes_to, Reply, SupervisorApi};
use crate::text;
use crate::text::{decimal, trim_spec};

verus! {

/// How a client is to render.
#[derive(Debug, Clone, Copy, PartialEq, Eq)]
pub struct ClientRenderPlan {
    pub surface_mode: ClientSurfaceMode,
    pub requested_encoding: RenderEncoding,
    pub server_size: (u16, u16),
    pub use_client_compositor: bool,
}

/// How a client is to render: beside its own sidebar where it knows its servers, else on the
/// whole screen.
pub fn client_render_plan(
    supervisor_model: Option<&ClientSupervisorModel>,
    requested_encoding: RenderEncoding,
    host_size: (u16, u16),
) -> (r: ClientRenderPlan)
    ensures
        r == (if supervisor_model is Some {
            ClientRenderPlan {
                surface_mode: ClientSurfaceMode::EmbeddedContent,
                requested_encoding: RenderEncoding::SemanticFrame,
                server_size: content_size_of(DEFAULT_SIDEBAR_WIDTH, host_size.0, host_size.1),
                use_client_compositor: true,
            }
        } else {
            ClientRenderPlan {
                surface_mode: ClientSurfaceMode::FullApp,
                requested_encoding,
                server_size: host_size,
                use_client_compositor: false,
            }
        }),
{
    match supervisor_model {
        Some(_) => {
            let compositor: ClientCompositor = ClientCompositor::default();
            ClientRenderPlan {
                surface_mode: ClientSurfaceMode::EmbeddedContent,
                requested_encoding: RenderEncoding::SemanticFrame,
                server_size: compositor.content_size(host_size.0, host_size.1),
                use_client_compositor: true,
            }
        },
        None => ClientRenderPlan {
            surface_mode: ClientSurfaceMode::FullApp,
            requested_encoding,
            server_size: host_size,
            use_client_compositor: false,
        },
    }
}

/// Why a client ended.
#[derive(Debug, PartialEq, Eq)]
pub enum ClientError {
    /// No connection to the server's socket.
    ConnectionFailed { error: String },
    /// The server did not take this client.
    HandshakeRejected { version: u32, error: String },
    /// The server shut down.
    ServerShutdown { reason: Option<String> },
    /// The connection to the server was lost.
    ConnectionLost { error: String },
    /// A message could not be read.
    Protocol { error: String },
}

/// Whether the client ended because the user detached.
pub open spec fn is_detach(error: ClientError) -> bool {
    match error {
        ClientError::ServerShutdown { reason: Some(reason) } => reason@ == "detached"@,
        _ => false,
    }
}

/// The error as lines for the user.
pub open spec fn error_text(
    error: ClientError,
    socket_path: Seq<char>,
    remote_reattach: Option<Seq<char>>,
    local_reattach: Seq<char>,
) -> Seq<char> {
    match error {
        ClientError::ConnectionFailed { error } => "failed to connect to server: "@ + error@
            + "\nIs herdr server running? Start it with `herdr server`."@ + "\nSocket path: "@
            + socket_path,
        ClientError::HandshakeRejected { version, error } =>
            "server rejected handshake (version "@ + decimal(version as nat) + "): "@ + error@,
        ClientError::ServerShutdown { reason } => if is_detach(error) {
            match remote_reattach {
                Some(command) => "detached from remote server"@ + "\nRun `"@ + command
                    + "` to reattach"@,
                None => "detached from server"@ + "\nRun `"@ + local_reattach + "` to reattach"@,
            }
        } else {
            match reason {
                Some(text) => "server shut down"@ + ": "@ + text@,
                None => "server shut down"@,
            }
        },
        ClientError::ConnectionLost { error } => "lost connection to server: "@ + error@,
        ClientError::Protocol { error } => "protocol error: "@ + error@,
    }
}

impl ClientError {
    /// Whether the client ended because the user detached.
    pub fn is_detached(&self) -> (r: bool)
        ensures
            r == is_detach(*self),
    {
        match self {
            ClientError::ServerShutdown { reason } => match reason {
                Some(reason) => text::same(reason.as_str(), "detached"),
                None => false,
            },
            _ => false,
        }
    }

    /// The error as lines for the user. `remote_reattach` is the command that attaches to a remote
    /// session again, `local_reattach` the one for a local session.
    pub fn message(
        &self,
        socket_path: &str,
        remote_reattach: Option<&str>,
        local_reattach: &str,
    ) -> (r: String)
        ensures
            r@ == error_text(
                *self,
                socket_path@,
                remote_reattach.deep_view(),
                local_reattach@,
            ),
    {
        match self {
            ClientError::ConnectionFailed { error } => {
                let mut line: String = "failed to connect to server: ".to_owned();
                line.append(error.as_str());
                line.append("\nIs herdr server running? Start it with `herdr server`.");
                line.append("\nSocket path: ");
                line.append(socket_path);
                line
            },
            ClientError::HandshakeRejected { version, error } => {
                let mut line: String = "server rejected handshake (version ".to_owned();
                line.append(text::decimal_of(*version as u128).as_str());
                line.append("): ");
                line.append(error.as_str());
                line
            },
            ClientError::ServerShutdown { reason } => {
                if self.is_detached() {
                    return match remote_reattach {
                        Some(command) => {
                            let mut line: String = "detached from remote server".to_owned();
                            line.append("\nRun `");
                            line.append(command);
                            line.append("` to reattach");
                            line
                        },
                        None => {
                            let mut line: String = "detached from server".to_owned();
                            line.append("\nRun `");
                            line.append(local_reattach);
                            line.append("` to reattach");
                            line
                        },
                    };
                }
                let mut line: String = "server shut down".to_owned();
                if let Some(reason) = reason {
                    line.append(": ");
                    line.append(reason.as_str());
                }
                line
            },
            ClientError::ConnectionLost { error } => {
                let mut line: String = "lost connection to server: ".to_owned();
                line.append(error.as_str());
                line
            },
            ClientError::Protocol { error } => {
                let mut line: String = "protocol error: ".to_owned();
                line.append(error.as_str());
                line
            },
        }
    }
}

/// How a client is started.
#[derive(Debug)]
pub struct ClientLaunch {
    pub requested_encoding: RenderEncoding,
    /// The terminal to attach to, and whether to take it over.
    pub attach: Option<(String, bool)>,
}

/// The encoding that a setting names.
pub open spec fn encoding_of(setting: Option<Seq<char>>) -> RenderEncoding {
    match setting {
        Some(name) => if name == "terminal-ansi"@ || name == "terminal_ansi"@ || name == "ansi"@ {
            RenderEncoding::TerminalAnsi
        } else {
            RenderEncoding::SemanticFrame
        },
        None => RenderEncoding::SemanticFrame,
    }
}

/// The encoding that a setting names.
pub fn requested_render_encoding(setting: Option<&str>) -> (r: RenderEncoding)
    ensures
        r == encoding_of(setting.deep_view()),
{
    match setting {
        Some(name) => {
            if text::same(name, "terminal-ansi") || text::same(name, "terminal_ansi") || text::same(
                name,
                "ansi",
            ) {
                RenderEncoding::TerminalAnsi
            } else {
                RenderEncoding::SemanticFrame
            }
        },
        None => RenderEncoding::SemanticFrame,
    }
}

/// A client of the whole application, with the encoding that a setting names.
pub fn run_client(encoding_setting: Option<&str>) -> (r: ClientLaunch)
    ensures
        r.requested_encoding == encoding_of(encoding_setting.deep_view()),
        r.attach is None,
{
    ClientLaunch {
        requested_encoding: requested_render_encoding(encoding_setting),
        attach: None,
    }
}

/// A client of one terminal.
pub fn run_terminal_attach(terminal_id: String, takeover: bool) -> (r: ClientLaunch)
    ensures
        r.requested_encoding == RenderEncoding::TerminalAnsi,
        r.attach == Some((terminal_id, takeover)),
{
    ClientLaunch {
        requested_encoding: RenderEncoding::TerminalAnsi,
        attach: Some((terminal_id, takeover)),
    }
}

/// Whether the host terminal reports the mouse: where the server or the client's own sidebar needs
/// it.
pub fn desired_mouse_capture(server_enabled: bool, client_compositor_enabled: bool) -> (r: bool)
    ensures
        r == (server_enabled || client_compositor_enabled),
{
    server_enabled || client_compositor_enabled
}

/// What the first reply of a server comes to.
pub fn handshake_outcome(welcome: ServerMessage) -> (r: Result<RenderEncoding, ClientError>)
    ensures
        match welcome {
            ServerMessage::Welcome { version, encoding, error } => match error {
                Some(e) => r == Err::<RenderEncoding, ClientError>(
                    ClientError::HandshakeRejected { version, error: e },
                ),
                None => r == Ok::<RenderEncoding, ClientError>(encoding),
            },
            _ => r is Err && r->Err_0 is Protocol && r->Err_0->Protocol_error@
                == "expected Welcome message"@,
        },
{
    match welcome {
        ServerMessage::Welcome { version, encoding, error } => match error {
            Some(error) => Err(ClientError::HandshakeRejected { version, error }),
            None => Ok(encoding),
        },
        _ => Err(ClientError::Protocol { error: "expected Welcome message".to_owned() }),
    }
}

/// The key bindings of a client: the local profile where a setting asks for it and there is one.
pub fn requested_keybindings(setting: Option<&str>, local_profile: Option<String>) -> (r:
    ClientKeybindings)
    ensures
        r == (if setting.deep_view() == Some("local"@) && local_profile is Some {
            ClientKeybindings::Local { keys_toml: local_profile->0 }
        } else {
            ClientKeybindings::Server
        }),
{
    let local: bool = match setting {
        Some(name) => text::same(name, "local"),
        None => false,
    };
    match local_profile {
        Some(keys_toml) => {
            if local {
                ClientKeybindings::Local { keys_toml }
            } else {
                ClientKeybindings::Server
            }
        },
        None => ClientKeybindings::Server,
    }
}

/// The key bindings on the server of a remote.
pub fn client_keybindings_from_snapshot(
    keybindings: RemoteKeybindingsSnapshot,
    local_profile: Option<String>,
) -> (r: ClientKeybindings)
    ensures
        r == (if keybindings == RemoteKeybindingsSnapshot::Local && local_profile is Some {
            ClientKeybindings::Local { keys_toml: local_profile->0 }
        } else {
            ClientKeybindings::Server
        }),
{
    match keybindings {
        RemoteKeybindingsSnapshot::Server => ClientKeybindings::Server,
        RemoteKeybindingsSnapshot::Local => match local_profile {
            Some(keys_toml) => ClientKeybindings::Local { keys_toml },
            None => ClientKeybindings::Server,
        },
    }
}

/// The name of the main server: what a setting says, unless it is blank.
pub open spec fn main_name_of(setting: Option<Seq<char>>) -> Seq<char> {
    match setting {
        Some(name) => if trim_spec(name).len() == 0 {
            "local"@
        } else {
            name
        },
        None => "local"@,
    }
}

/// The name of the main server.
pub fn main_display_name_for_client(setting: Option<&str>) -> (r: String)
    ensures
        r@ == main_name_of(setting.deep_view()),
{
    match setting {
        Some(name) => {
            if text::trim(name).is_empty() {
                "local".to_owned()
            } else {
                name.to_owned()
            }
        },
        None => "local".to_owned(),
    }
}

/// A start with a model, as a mathematical value.
pub open spec fn optional_start_view(r: Result<Option<ClientSupervisorModel>, String>) -> Result<
    ModelView,
    Seq<char>,
> {
    match r {
        Ok(model) => Ok(model->0@),
        Err(e) => Err(e@),
    }
}

/// Reads the servers for a client of the whole application; one of a single terminal needs none.
pub fn bootstrap_supervisor_for_client<A: SupervisorApi>(
    direct_attach_requested: bool,
    api: &mut A,
    main_name_setting: Option<&str>,
) -> (r: Result<Option<ClientSupervisorModel>, String>)
    ensures
        direct_attach_requested ==> r is Ok && r->Ok_0 is None && *final(api) == *old(api),
        !direct_attach_requested ==> (r is Ok ==> r->Ok_0 is Some) && exists|
            remotes: Reply,
            workspaces: Reply,
            agents: Reply,
            settings: Reply,
        | #[trigger]
            start_comes_to(
                main_name_of(main_name_setting.deep_view()),
                remotes,
                workspaces,
                agents,
                settings,
                optional_start_view(r),
            ),
{
    if direct_attach_requested {
        return Ok(None);
    }
    let name: String = main_display_name_for_client(main_name_setting);
    match bootstrap_from_main_api(api, name.as_str()) {
        Ok(model) => Ok(Some(model)),
        Err(e) => Err(e),
    }
}

/// Where an API is reached.
#[derive(Debug, PartialEq, Eq)]
pub enum ConnectionTarget {
    LocalSession(Option<String>),
    SocketPath(String),
}

/// Where an API is reached, as a mathematical value.
#[verifier::ext_equal]
pub enum ApiTargetView {
    LocalSession(Option<Seq<char>>),
    SocketPath(Seq<char>),
}

impl DeepView for ConnectionTarget {
    type V = ApiTargetView;

    open spec fn deep_view(&self) -> ApiTargetView {
        match self {
            ConnectionTarget::LocalSession(session) => ApiTargetView::LocalSession(
                session.deep_view(),
            ),
            ConnectionTarget::SocketPath(path) => ApiTargetView::SocketPath(path@),
        }
    }
}

/// A bridge to the server of a remote: its two local sockets.
#[derive(Debug)]
pub struct SshBridge {
    pub server_id: ServerId,
    pub client_socket: String,
    pub api_socket: String,
}

#[verifier::ext_equal]
pub struct BridgeView {
    pub server_id: Seq<char>,
    pub client_socket: Seq<char>,
    pub api_socket: Seq<char>,
}

impl DeepView for SshBridge {
    type V = BridgeView;

    open spec fn deep_view(&self) -> BridgeView {
        BridgeView {
            server_id: self.server_id@,
            client_socket: self.client_socket@,
            api_socket: self.api_socket@,
        }
    }
}

/// The bridge to a server.
pub open spec fn bridge_to(bridges: Seq<BridgeView>, id: Seq<char>) -> Option<BridgeView>
    decreases bridges.len(),
{
    if bridges.len() == 0 {
        None
    } else if bridges[0].server_id == id {
        Some(bridges[0])
    } else {
        bridge_to(bridges.drop_first(), id)
    }
}

/// The bridge to a server.
pub(crate) fn find_bridge<'a>(bridges: &'a Vec<SshBridge>, id: &ServerId) -> (r: Option<
    &'a SshBridge,
>)
    ensures
        match r {
            Some(bridge) => bridge_to(bridges.deep_view(), id@) == Some(bridge.deep_view()),
            None => bridge_to(bridges.deep_view(), id@) is None,
        },
{
    let ghost all = bridges.deep_view();
    let mut i: usize = 0;
    assert(all.skip(0) =~= all);
    while i < bridges.len()
        invariant
            i <= bridges@.len(),
            all == bridges.deep_view(),
            bridge_to(all, id@) == bridge_to(all.skip(i as int), id@),
        decreases bridges@.len() - i,
    {
        assert(all.skip(i as int)[0] == bridges@[i as int].deep_view());
        if bridges[i].server_id.is(id) {
            return Some(&bridges[i]);
        }
        assert(all.skip(i as int).drop_first() =~= all.skip(i + 1));
        i = i + 1;
    }
    None
}

/// Where the API of a server with this target is reached: a remote over ssh through its bridge.
pub open spec fn api_target_of(
    id: Seq<char>,
    target: ConnectionView,
    bridges: Seq<BridgeView>,
) -> Option<ApiTargetView> {
    match target {
        ConnectionView::Main => Some(ApiTargetView::LocalSession(None)),
        ConnectionView::LocalSession(session) => Some(ApiTargetView::LocalSession(session)),
        ConnectionView::Ssh(_) => match bridge_to(bridges, id) {
            Some(bridge) => Some(ApiTargetView::SocketPath(bridge.api_socket)),
            None => None,
        },
    }
}

/// Where the API of a server with this target is reached, where no bridge is needed.
pub fn api_target_for_connection_target(target: &ServerConnectionTarget) -> (r: Option<
    ConnectionTarget,
>)
    ensures
        r.deep_view() == (match target.deep_view() {
            ConnectionView::Main => Some(ApiTargetView::LocalSession(None)),
            ConnectionView::LocalSession(session) => Some(ApiTargetView::LocalSession(session)),
            ConnectionView::Ssh(_) => None,
        }),
{
    match target {
        ServerConnectionTarget::Main => Some(ConnectionTarget::LocalSession(None)),
        ServerConnectionTarget::LocalSession(session) => Some(
            ConnectionTarget::LocalSession(text::clone_option(session)),
        ),
        ServerConnectionTarget::Ssh(_) => None,
    }
}

/// Where the API of a server with this target is reached.
pub fn api_target_for_supervisor_target(
    server_id: &ServerId,
    target: &ServerConnectionTarget,
    ssh_bridges: &Vec<SshBridge>,
) -> (r: Option<ConnectionTarget>)
    ensures
        r.deep_view() == api_target_of(
            server_id@,
            target.deep_view(),
            ssh_bridges.deep_view(),
        ),
{
    match target {
        ServerConnectionTarget::Ssh(_) => match find_bridge(ssh_bridges, server_id) {
            Some(bridge) => Some(ConnectionTarget::SocketPath(bridge.api_socket.clone())),
            None => None,
        },
        _ => api_target_for_connection_target(target),
    }
}

/// Where the API of a server is reached.
pub fn api_target_for_supervisor_server(
    model: &ClientSupervisorModel,
    server_id: &ServerId,
    ssh_bridges: &Vec<SshBridge>,
) -> (r: Option<ConnectionTarget>)
    ensures
        r.deep_view() == (match server_named(model@.servers, server_id@) {
            Some(server) => api_target_of(server_id@, server.target, ssh_bridges.deep_view()),
            None => None,
        }),
{
    match model.server_connection_target(server_id) {
        Some(target) => api_target_for_supervisor_target(server_id, &target, ssh_bridges),
        None => None,
    }
}

/// The client socket of a server.
#[derive(Debug, PartialEq, Eq)]
pub enum ClientSocket {
    /// The one of this process's own session.
    Main,
    /// The one of a local session.
    Session(Option<String>),
    /// The one of a bridge.
    Path(String),
}

/// The client socket of a server, as a mathematical value.
#[verifier::ext_equal]
pub enum ClientSocketView {
    Main,
    Session(Option<Seq<char>>),
    Path(Seq<char>),
}

impl DeepView for ClientSocket {
    type V = ClientSocketView;

    open spec fn deep_view(&self) -> ClientSocketView {
        match self {
            ClientSocket::Main => ClientSocketView::Main,
            ClientSocket::Session(session) => ClientSocketView::Session(session.deep_view()),
            ClientSocket::Path(path) => ClientSocketView::Path(path@),
        }
    }
}

/// The client socket of a server with this target: a remote over ssh through its bridge.
pub open spec fn client_socket_of(
    id: Seq<char>,
    target: ConnectionView,
    bridges: Seq<BridgeView>,
) -> Option<ClientSocketView> {
    match target {
        ConnectionView::Main => Some(ClientSocketView::Main),
        ConnectionView::LocalSession(session) => Some(ClientSocketView::Session(session)),
        ConnectionView::Ssh(_) => match bridge_to(bridges, id) {
            Some(bridge) => Some(ClientSocketView::Path(bridge.client_socket)),
            None => None,
        },
    }
}

/// The client socket of a server with this target, where no bridge is needed.
pub fn client_socket_path_for_connection_target(target: &ServerConnectionTarget) -> (r: Option<
    ClientSocket,
>)
    ensures
        r.deep_view() == (match target.deep_view() {
            ConnectionView::Main => Some(ClientSocketView::Main),
            ConnectionView::LocalSession(session) => Some(ClientSocketView::Session(session)),
            ConnectionView::Ssh(_) => None,
        }),
{
    match target {
        ServerConnectionTarget::Main => Some(ClientSocket::Main),
        ServerConnectionTarget::LocalSession(session) => Some(
            ClientSocket::Session(text::clone_option(session)),
        ),
        ServerConnectionTarget::Ssh(_) => None,
    }
}

/// The client socket of a server.
pub fn client_socket_path_for_supervisor_server(
    model: &ClientSupervisorModel,
    server_id: &ServerId,
    ssh_bridges: &Vec<SshBridge>,
) -> (r: Option<ClientSocket>)
    ensures
        r.deep_view() == (match server_named(model@.servers, server_id@) {
            Some(server) => client_socket_of(server_id@, server.target, ssh_bridges.deep_view()),
            None => None,
        }),
{
    match model.server_connection_target(server_id) {
        Some(target) => match &target {
            ServerConnectionTarget::Ssh(_) => match find_bridge(ssh_bridges, server_id) {
                Some(bridge) => Some(ClientSocket::Path(bridge.client_socket.clone())),
                None => None,
            },
            _ => client_socket_path_for_connection_target(&target),
        },
        None => None,
    }
}

/// How the stream to the server of a remote is opened.
#[derive(Debug, PartialEq, Eq)]
pub enum StreamSource {
    /// Connect to this socket.
    Socket(ClientSocket),
    /// Start a bridge to this ssh destination first.
    StartBridge(String),
}

/// How the stream to the server of a remote is opened.
pub fn secondary_stream_source(plan: &SecondaryConnectionPlan, ssh_bridges: &Vec<SshBridge>) -> (r:
    StreamSource)
    ensures
        match client_socket_of(
            plan.server_id@,
            plan.target.deep_view(),
            ssh_bridges.deep_view(),
        ) {
            Some(socket) => r is Socket && r->Socket_0.deep_view() == socket,
            None => r is StartBridge && plan.target.deep_view() == ConnectionView::Ssh(
                r->StartBridge_0@,
            ),
        },
{
    match &plan.target {
        ServerConnectionTarget::Main => StreamSource::Socket(ClientSocket::Main),
        ServerConnectionTarget::LocalSession(session) => StreamSource::Socket(
            ClientSocket::Session(text::clone_option(session)),
        ),
        ServerConnectionTarget::Ssh(target) => match find_bridge(ssh_bridges, &plan.server_id) {
            Some(bridge) => StreamSource::Socket(ClientSocket::Path(bridge.client_socket.clone())),
            None => StreamSource::StartBridge(target.clone()),
        },
    }
}

/// How the connection to a server stands when connecting failed: a refused handshake is a
/// mismatch of protocols.
pub open spec fn state_after_error(error: ClientError) -> ConnectionState {
    match error {
        ClientError::HandshakeRejected { version, error } => ConnectionState::ProtocolMismatch {
            server_protocol: Some(version),
            client_protocol: PROTOCOL_VERSION,
        },
        _ => ConnectionState::Disconnected,
    }
}

/// How the connection to a server stands when connecting failed.
pub fn connection_state_from_client_error(err: &ClientError) -> (r: ConnectionState)
    ensures
        r == state_after_error(*err),
{
    match err {
        ClientError::HandshakeRejected { version, error } => ConnectionState::ProtocolMismatch {
            server_protocol: Some(*version),
            client_protocol: PROTOCOL_VERSION,
        },
        _ => ConnectionState::Disconnected,
    }
}

} // verus!
