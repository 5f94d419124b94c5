//! What the client asks a server over its API, and what it makes of the replies.

use vstd::prelude::*;

use crate::api::{
    AgentInfo, EmptyParams, Method, PingParams, Request, ResponseResult, ResultView,
    RuntimeStatus, SuccessResponse, UiSettingsInfo, WorkspaceInfo,
};
use crate::protocol::PROTOCOL_VERSION;
use crate::remote_registry::{RemoteDefinitionSnapshot, RemoteView};
use crate::servers::{main_id, summary_of, ConnectionState, ServerId, ServerSummary, SummaryView};
use crate::supervisor::laws::{
    law_new_model_is_valid, law_summary_keeps_valid, law_sync_keeps_valid, valid,
};
use crate::supervisor::{
    index_of_server, lemma_is_index_of_server, new_model, registry_synced, summary_set,
    ClientSupervisorModel, ModelView,
};

verus! {

/// A connection to a server's API.
pub trait SupervisorApi {
    /// Sends a request and waits for the reply.
    fn request(&mut self, request: Request) -> Result<SuccessResponse, String>;
}

/// The debug form of a result.
pub uninterp spec fn debug_form(result: ResultView) -> Seq<char>;

/// The standard library's debug form of a result (`format!("{:?}")`). Its result is named
/// `debug_form`; nothing more is claimed of the text.
#[verifier::external_body]
fn debug_text(result: &ResponseResult) -> (r: String)
    ensures
        r@ == debug_form(result.deep_view()),
{
    format!("{result:?}")
}

/// The request for the registry of remotes.
pub fn remote_list_request() -> (r: Request)
    ensures
        r.id@ == "client-supervisor:remote-list"@,
        r.method is RemoteList,
{
    Request {
        id: "client-supervisor:remote-list".to_owned(),
        method: Method::RemoteList(EmptyParams {  }),
    }
}

/// The request for the workspaces.
pub fn workspace_list_request() -> (r: Request)
    ensures
        r.id@ == "client-supervisor:workspace-list"@,
        r.method is WorkspaceList,
{
    Request {
        id: "client-supervisor:workspace-list".to_owned(),
        method: Method::WorkspaceList(EmptyParams {  }),
    }
}

/// The request for the agents.
pub fn agent_list_request() -> (r: Request)
    ensures
        r.id@ == "client-supervisor:agent-list"@,
        r.method is AgentList,
{
    Request {
        id: "client-supervisor:agent-list".to_owned(),
        method: Method::AgentList(EmptyParams {  }),
    }
}

/// The request for the status of the server.
pub fn status_request() -> (r: Request)
    ensures
        r.id@ == "client-supervisor:status"@,
        r.method is Ping,
{
    Request { id: "client-supervisor:status".to_owned(), method: Method::Ping(PingParams {  }) }
}

/// The request for the settings of the sidebar.
pub fn ui_settings_request() -> (r: Request)
    ensures
        r.id@ == "client-supervisor:ui-settings"@,
        r.method is ServerUiSettings,
{
    Request {
        id: "client-supervisor:ui-settings".to_owned(),
        method: Method::ServerUiSettings(EmptyParams {  }),
    }
}

/// What is said of a reply of another kind than was asked for: which call it was, and the reply.
pub open spec fn unexpected(call: Seq<char>, result: ResponseResult) -> Seq<char> {
    call + " returned unexpected result: "@ + debug_form(result.deep_view())
}

pub(crate) fn unexpected_result(call: &str, result: &ResponseResult) -> (r: String)
    ensures
        r@ == unexpected(call@, *result),
{
    let mut message: String = call.to_owned();
    message.append(" returned unexpected result: ");
    message.append(debug_text(result).as_str());
    message
}

/// What came back for a request.
pub type Reply = Result<SuccessResponse, String>;

/// The remotes in a reply to the request for them, or what is wrong with it.
pub open spec fn remotes_of(reply: Reply) -> Result<Vec<RemoteDefinitionSnapshot>, Seq<char>> {
    match reply {
        Err(e) => Err(e@),
        Ok(response) => match response.result {
            ResponseResult::RemoteList { remotes } => Ok(remotes),
            _ => Err(unexpected("remote.list"@, response.result)),
        },
    }
}

/// The workspaces in a reply to the request for them, or what is wrong with it.
pub open spec fn workspaces_of(reply: Reply) -> Result<Vec<WorkspaceInfo>, Seq<char>> {
    match reply {
        Err(e) => Err(e@),
        Ok(response) => match response.result {
            ResponseResult::WorkspaceList { workspaces } => Ok(workspaces),
            _ => Err(unexpected("workspace.list"@, response.result)),
        },
    }
}

/// The agents in a reply to the request for them, or what is wrong with it.
pub open spec fn agents_of(reply: Reply) -> Result<Vec<AgentInfo>, Seq<char>> {
    match reply {
        Err(e) => Err(e@),
        Ok(response) => match response.result {
            ResponseResult::AgentList { agents } => Ok(agents),
            _ => Err(unexpected("agent.list"@, response.result)),
        },
    }
}

/// The status in a reply to the request for it, or what is wrong with it.
pub open spec fn status_of(reply: Reply) -> Result<(Seq<char>, u32, bool), Seq<char>> {
    match reply {
        Err(e) => Err(e@),
        Ok(response) => match response.result {
            ResponseResult::Pong { version, protocol, live_handoff } => Ok(
                (version@, protocol, live_handoff),
            ),
            _ => Err(unexpected("ping"@, response.result)),
        },
    }
}

/// The settings in a reply to the request for them, or what is wrong with it.
pub open spec fn settings_of(reply: Reply) -> Result<UiSettingsInfo, Seq<char>> {
    match reply {
        Err(e) => Err(e@),
        Ok(response) => match response.result {
            ResponseResult::UiSettings { settings } => Ok(settings),
            _ => Err(unexpected("server.ui_settings"@, response.result)),
        },
    }
}

/// Whether a status is what a reply says.
pub open spec fn status_is(reply: Reply, r: Result<RuntimeStatus, String>) -> bool {
    match r {
        Ok(status) => status.version is Some && status.protocol is Some && status_of(reply)
            == Ok::<(Seq<char>, u32, bool), Seq<char>>(
            (status.version->0@, status.protocol->0, status.live_handoff),
        ),
        Err(e) => status_of(reply) == Err::<(Seq<char>, u32, bool), Seq<char>>(e@),
    }
}

/// Whether a result is the wanted one: the same value, or an error with the same text.
pub open spec fn says<T>(r: Result<T, String>, wanted: Result<T, Seq<char>>) -> bool {
    match r {
        Ok(value) => wanted == Ok::<T, Seq<char>>(value),
        Err(e) => wanted == Err::<T, Seq<char>>(e@),
    }
}

/// The remotes in a reply.
pub fn remotes_in_reply(reply: Result<SuccessResponse, String>) -> (r: Result<
    Vec<RemoteDefinitionSnapshot>,
    String,
>)
    ensures
        says(r, remotes_of(reply)),
{
    match reply {
        Err(e) => Err(e),
        Ok(response) => match response.result {
            ResponseResult::RemoteList { remotes } => Ok(remotes),
            other => Err(unexpected_result("remote.list", &other)),
        },
    }
}

/// The workspaces in a reply.
pub fn workspaces_in_reply(reply: Result<SuccessResponse, String>) -> (r: Result<
    Vec<WorkspaceInfo>,
    String,
>)
    ensures
        says(r, workspaces_of(reply)),
{
    match reply {
        Err(e) => Err(e),
        Ok(response) => match response.result {
            ResponseResult::WorkspaceList { workspaces } => Ok(workspaces),
            other => Err(unexpected_result("workspace.list", &other)),
        },
    }
}

/// The agents in a reply.
pub fn agents_in_reply(reply: Result<SuccessResponse, String>) -> (r: Result<
    Vec<AgentInfo>,
    String,
>)
    ensures
        says(r, agents_of(reply)),
{
    match reply {
        Err(e) => Err(e),
        Ok(response) => match response.result {
            ResponseResult::AgentList { agents } => Ok(agents),
            other => Err(unexpected_result("agent.list", &other)),
        },
    }
}

/// The status in a reply.
pub fn status_in_reply(reply: Result<SuccessResponse, String>) -> (r: Result<
    RuntimeStatus,
    String,
>)
    ensures
        status_is(reply, r),
{
    match reply {
        Err(e) => Err(e),
        Ok(response) => match response.result {
            ResponseResult::Pong { version, protocol, live_handoff } => Ok(
                RuntimeStatus { version: Some(version), protocol: Some(protocol), live_handoff },
            ),
            other => Err(unexpected_result("ping", &other)),
        },
    }
}

/// The settings in a reply.
pub fn ui_settings_in_reply(reply: Result<SuccessResponse, String>) -> (r: Result<
    UiSettingsInfo,
    String,
>)
    ensures
        says(r, settings_of(reply)),
{
    match reply {
        Err(e) => Err(e),
        Ok(response) => match response.result {
            ResponseResult::UiSettings { settings } => Ok(settings),
            other => Err(unexpected_result("server.ui_settings", &other)),
        },
    }
}

/// Asks for the registry of remotes.
fn request_remote_list<A: SupervisorApi>(api: &mut A) -> (r: Result<
    Vec<RemoteDefinitionSnapshot>,
    String,
>)
    ensures
        exists|reply: Reply| says(r, #[trigger] remotes_of(reply)),
{
    let reply: Result<SuccessResponse, String> = api.request(remote_list_request());
    remotes_in_reply(reply)
}

/// Asks for the settings of the sidebar.
fn request_ui_settings<A: SupervisorApi>(api: &mut A) -> (r: Result<UiSettingsInfo, String>)
    ensures
        exists|reply: Reply| says(r, #[trigger] settings_of(reply)),
{
    let reply: Result<SuccessResponse, String> = api.request(ui_settings_request());
    ui_settings_in_reply(reply)
}

/// Whether a summary is what two replies come to: the first with the workspaces, the second with
/// the agents. The second is not asked for where the first fails.
pub open spec fn summary_is(
    workspaces: Reply,
    agents: Reply,
    r: Result<ServerSummary, String>,
) -> bool {
    match workspaces_of(workspaces) {
        Err(e) => r is Err && r->Err_0@ == e,
        Ok(spaces) => match agents_of(agents) {
            Err(e) => r is Err && r->Err_0@ == e,
            Ok(found) => r is Ok && r->Ok_0.deep_view() == summary_of(spaces@, found@),
        },
    }
}

/// Asks for workspaces and agents.
fn request_server_summary<A: SupervisorApi>(api: &mut A) -> (r: Result<ServerSummary, String>)
    ensures
        exists|first: Reply, second: Reply| #[trigger] summary_is(first, second, r),
{
    let first: Result<SuccessResponse, String> = api.request(workspace_list_request());
    let workspaces: Vec<WorkspaceInfo> = match workspaces_in_reply(first) {
        Ok(workspaces) => workspaces,
        Err(e) => {
            assert(summary_is(first, first, Err(e)));
            return Err(e);
        },
    };
    let second: Result<SuccessResponse, String> = api.request(agent_list_request());
    let agents: Vec<AgentInfo> = match agents_in_reply(second) {
        Ok(agents) => agents,
        Err(e) => {
            assert(summary_is(first, second, Err(e)));
            return Err(e);
        },
    };
    let summary: ServerSummary = ServerSummary::from_api(&workspaces, &agents);
    assert(summary_is(first, second, Ok(summary)));
    Ok(summary)
}

/// The model of a client that has read its main server's registry, summary and settings.
pub open spec fn bootstrapped(
    name: Seq<char>,
    remotes: Seq<RemoteView>,
    summary: SummaryView,
    settings: Option<UiSettingsInfo>,
) -> ModelView {
    let m = summary_set(registry_synced(new_model(name), remotes), 0, summary);
    match settings {
        Some(s) => ModelView { ui_settings: s, ..m },
        None => m,
    }
}

/// The model of a client that has read its main server's registry, summary and, where they could
/// be had, settings.
pub fn bootstrap_model(
    main_display_name: &str,
    remotes: Vec<RemoteDefinitionSnapshot>,
    summary: ServerSummary,
    settings: Option<UiSettingsInfo>,
) -> (r: ClientSupervisorModel)
    ensures
        r@ == bootstrapped(
            main_display_name@,
            remotes.deep_view(),
            summary.deep_view(),
            settings,
        ),
{
    let mut model: ClientSupervisorModel = ClientSupervisorModel::new(main_display_name);
    model.sync_remote_registry(remotes);
    proof {
        law_new_model_is_valid(main_display_name@);
        law_sync_keeps_valid(new_model(main_display_name@), remotes.deep_view());
        lemma_is_index_of_server(model@.servers, main_id(), 0);
    }
    let main: ServerId = ServerId::main();
    let noted: Result<(), ()> = model.set_summary(&main, summary);
    if let Some(s) = settings {
        model.set_ui_settings(s);
    }
    model
}

/// A client starts with a valid model, whatever the main server says of its remotes, its summary
/// and its settings.
pub proof fn law_started_model_is_valid(
    name: Seq<char>,
    remotes: Seq<RemoteView>,
    summary: SummaryView,
    settings: Option<UiSettingsInfo>,
)
    ensures
        valid(bootstrapped(name, remotes, summary, settings)),
        bootstrapped(name, remotes, summary, settings).active == main_id(),
        bootstrapped(name, remotes, summary, settings).servers.len() == remotes.len() + 1,
{
    let m = registry_synced(new_model(name), remotes);
    law_new_model_is_valid(name);
    law_sync_keeps_valid(new_model(name), remotes);
    lemma_is_index_of_server(m.servers, main_id(), 0);
    law_summary_keeps_valid(m, main_id(), summary);
}

/// What the start of a client comes to, from the replies with the remotes, the workspaces, the
/// agents and the settings. The first failure is the result, but without settings the defaults are
/// in force.
pub open spec fn start_comes_to(
    name: Seq<char>,
    remotes: Reply,
    workspaces: Reply,
    agents: Reply,
    settings: Reply,
    r: Result<ModelView, Seq<char>>,
) -> bool {
    r == (match remotes_of(remotes) {
        Err(e) => Err(e),
        Ok(listed) => match workspaces_of(workspaces) {
            Err(e) => Err(e),
            Ok(spaces) => match agents_of(agents) {
                Err(e) => Err(e),
                Ok(found) => Ok(
                    bootstrapped(
                        name,
                        listed.deep_view(),
                        summary_of(spaces@, found@),
                        match settings_of(settings) {
                            Ok(s) => Some(s),
                            Err(_) => None,
                        },
                    ),
                ),
            },
        },
    })
}

/// A start as a mathematical value.
pub open spec fn start_view(r: Result<ClientSupervisorModel, String>) -> Result<
    ModelView,
    Seq<char>,
> {
    match r {
        Ok(model) => Ok(model@),
        Err(e) => Err(e@),
    }
}

/// What the start of a client comes to: a failure with the remotes or the summary is the result,
/// that with the remotes first; a failure with the settings alone leaves the defaults in force.
pub open spec fn started(
    name: Seq<char>,
    remotes: Result<Vec<RemoteDefinitionSnapshot>, String>,
    summary: Result<ServerSummary, String>,
    settings: Result<UiSettingsInfo, String>,
) -> Result<ModelView, Seq<char>> {
    match remotes {
        Err(e) => Err(e@),
        Ok(listed) => match summary {
            Err(e) => Err(e@),
            Ok(summary) => Ok(
                bootstrapped(
                    name,
                    listed.deep_view(),
                    summary.deep_view(),
                    match settings {
                        Ok(s) => Some(s),
                        Err(_) => None,
                    },
                ),
            ),
        },
    }
}

/// Starts a client on what the main server said of its remotes, its summary and its settings.
pub fn bootstrap_from_results(
    main_display_name: &str,
    remotes: Result<Vec<RemoteDefinitionSnapshot>, String>,
    summary: Result<ServerSummary, String>,
    settings: Result<UiSettingsInfo, String>,
) -> (r: Result<ClientSupervisorModel, String>)
    ensures
        start_view(r) == started(main_display_name@, remotes, summary, settings),
{
    let listed: Vec<RemoteDefinitionSnapshot> = match remotes {
        Ok(listed) => listed,
        Err(e) => {
            return Err(e);
        },
    };
    let summed: ServerSummary = match summary {
        Ok(summed) => summed,
        Err(e) => {
            return Err(e);
        },
    };
    let told: Option<UiSettingsInfo> = match settings {
        Ok(told) => Some(told),
        Err(_) => None,
    };
    Ok(bootstrap_model(main_display_name, listed, summed, told))
}

/// Reads the registry, the summary and the settings of the main server. Without settings the
/// defaults are in force; the first failure of another request is the result, and nothing is asked
/// for after it.
pub fn bootstrap_from_main_api<A: SupervisorApi>(api: &mut A, main_display_name: &str) -> (r:
    Result<ClientSupervisorModel, String>)
    ensures
        exists|remotes: Reply, workspaces: Reply, agents: Reply, settings: Reply| #[trigger]
            start_comes_to(
                main_display_name@,
                remotes,
                workspaces,
                agents,
                settings,
                start_view(r),
            ),
{
    let remotes: Result<Vec<RemoteDefinitionSnapshot>, String> = request_remote_list(api);
    let ghost a = choose|reply: Reply| says(remotes, #[trigger] remotes_of(reply));
    let ghost mut b = a;
    let ghost mut c = a;
    let ghost mut d = a;
    let summary: Result<ServerSummary, String> = match &remotes {
        Ok(_) => {
            let summed: Result<ServerSummary, String> = request_server_summary(api);
            proof {
                let (first, second) = choose|first: Reply, second: Reply| #[trigger]
                    summary_is(first, second, summed);
                b = first;
                c = second;
            }
            summed
        },
        Err(e) => Err(e.clone()),
    };
    let settings: Result<UiSettingsInfo, String> = match &summary {
        Ok(_) => {
            let told: Result<UiSettingsInfo, String> = request_ui_settings(api);
            proof {
                d = choose|reply: Reply| says(told, #[trigger] settings_of(reply));
            }
            told
        },
        Err(e) => Err(e.clone()),
    };
    let r: Result<ClientSupervisorModel, String> = bootstrap_from_results(
        main_display_name,
        remotes,
        summary,
        settings,
    );
    assert(start_comes_to(main_display_name@, a, b, c, d, start_view(r)));
    r
}

/// How the connection to a server stands whose status request came to this: `Ok` where it speaks
/// this client's protocol.
pub fn check_runtime_status(status: &Result<RuntimeStatus, String>) -> (r: Result<
    (),
    ConnectionState,
>)
    ensures
        match status {
            Err(_) => r is Err && r->Err_0 is Disconnected,
            Ok(s) => if s.protocol == Some(PROTOCOL_VERSION) {
                r is Ok
            } else {
                r is Err && r->Err_0 == (ConnectionState::ProtocolMismatch {
                    server_protocol: s.protocol,
                    client_protocol: PROTOCOL_VERSION,
                })
            },
        },
{
    match status {
        Err(_) => Err(ConnectionState::Disconnected),
        Ok(s) => {
            let same: bool = match s.protocol {
                Some(p) => p == PROTOCOL_VERSION,
                None => false,
            };
            if same {
                Ok(())
            } else {
                Err(
                    ConnectionState::ProtocolMismatch {
                        server_protocol: s.protocol,
                        client_protocol: PROTOCOL_VERSION,
                    },
                )
            }
        },
    }
}

/// Asks a server for its status.
pub fn request_runtime_status<A: SupervisorApi>(api: &mut A) -> (r: Result<RuntimeStatus, String>)
    ensures
        exists|reply: Reply| #[trigger] status_is(reply, r),
{
    let reply: Result<SuccessResponse, String> = api.request(status_request());
    status_in_reply(reply)
}

/// What fetching a summary comes to, from the replies with the status, the workspaces and the
/// agents: a server that cannot be asked is disconnected, and one of another protocol is asked no
/// more.
pub open spec fn fetch_comes_to(
    status: Reply,
    workspaces: Reply,
    agents: Reply,
    r: Result<SummaryView, ConnectionState>,
) -> bool {
    r == (match status_of(status) {
        Err(_) => Err(ConnectionState::Disconnected),
        Ok((version, protocol, live_handoff)) => if protocol != PROTOCOL_VERSION {
            Err(
                ConnectionState::ProtocolMismatch {
                    server_protocol: Some(protocol),
                    client_protocol: PROTOCOL_VERSION,
                },
            )
        } else {
            match (workspaces_of(workspaces), agents_of(agents)) {
                (Ok(spaces), Ok(found)) => Ok(summary_of(spaces@, found@)),
                _ => Err(ConnectionState::Disconnected),
            }
        },
    })
}

/// A fetch as a mathematical value.
pub open spec fn fetch_of(r: Result<ServerSummary, ConnectionState>) -> Result<
    SummaryView,
    ConnectionState,
> {
    match r {
        Ok(summary) => Ok(summary.deep_view()),
        Err(state) => Err(state),
    }
}

/// Fetches the summary of a server that speaks this client's protocol.
pub fn fetch_server_summary<A: SupervisorApi>(api: &mut A) -> (r: Result<
    ServerSummary,
    ConnectionState,
>)
    ensures
        exists|status: Reply, workspaces: Reply, agents: Reply| #[trigger]
            fetch_comes_to(status, workspaces, agents, fetch_of(r)),
{
    let status: Result<RuntimeStatus, String> = request_runtime_status(api);
    let ghost a = choose|reply: Reply| #[trigger] status_is(reply, status);
    match check_runtime_status(&status) {
        Err(state) => {
            assert(fetch_comes_to(a, a, a, Err(state)));
            return Err(state);
        },
        Ok(()) => {},
    }
    let summed: Result<ServerSummary, String> = request_server_summary(api);
    let ghost (b, c) = choose|first: Reply, second: Reply| #[trigger]
        summary_is(first, second, summed);
    match summed {
        Ok(summary) => {
            assert(fetch_comes_to(a, b, c, Ok(summary.deep_view())));
            Ok(summary)
        },
        Err(_) => {
            assert(fetch_comes_to(a, b, c, Err(ConnectionState::Disconnected)));
            Err(ConnectionState::Disconnected)
        },
    }
}

/// What reading the settings again comes to, from the reply.
pub open spec fn settings_read(m: ModelView, reply: Reply) -> (ModelView, Result<(), Seq<char>>) {
    match settings_of(reply) {
        Ok(settings) => (ModelView { ui_settings: settings, ..m }, Ok(())),
        Err(e) => (m, Err(e)),
    }
}

/// What reading the registry again comes to, from the reply.
pub open spec fn registry_read(m: ModelView, reply: Reply) -> (ModelView, Result<(), Seq<char>>) {
    match remotes_of(reply) {
        Ok(remotes) => (registry_synced(m, remotes.deep_view()), Ok(())),
        Err(e) => (m, Err(e)),
    }
}

/// What reading the summary of the main server again comes to, from the replies with the
/// workspaces and the agents.
pub open spec fn main_summary_read(m: ModelView, workspaces: Reply, agents: Reply) -> (
    ModelView,
    Result<(), Seq<char>>,
) {
    match workspaces_of(workspaces) {
        Err(e) => (m, Err(e)),
        Ok(spaces) => match agents_of(agents) {
            Err(e) => (m, Err(e)),
            Ok(found) => match index_of_server(m.servers, main_id()) {
                Some(i) => (summary_set(m, i, summary_of(spaces@, found@)), Ok(())),
                None => (m, Err("main server is missing from supervisor model"@)),
            },
        },
    }
}

/// A result without a value, as a mathematical value.
pub open spec fn outcome_view(r: Result<(), String>) -> Result<(), Seq<char>> {
    match r {
        Ok(_) => Ok(()),
        Err(e) => Err(e@),
    }
}

impl ClientSupervisorModel {
    /// Reads the settings of the main server again.
    pub fn refresh_main_ui_settings_from_api<A: SupervisorApi>(&mut self, api: &mut A) -> (r:
        Result<(), String>)
        ensures
            exists|reply: Reply| #[trigger]
                settings_read(old(self)@, reply) == (final(self)@, outcome_view(r)),
    {
        let told: Result<UiSettingsInfo, String> = request_ui_settings(api);
        let ghost reply = choose|reply: Reply| says(told, #[trigger] settings_of(reply));
        match told {
            Ok(settings) => {
                self.set_ui_settings(settings);
                assert(settings_read(old(self)@, reply) == (self@, Ok::<(), Seq<char>>(())));
                Ok(())
            },
            Err(e) => {
                assert(settings_read(old(self)@, reply) == (self@, Err::<(), Seq<char>>(e@)));
                Err(e)
            },
        }
    }

    /// Reads the registry of remotes again.
    pub fn refresh_remote_registry_from_api<A: SupervisorApi>(&mut self, api: &mut A) -> (r: Result<
        (),
        String,
    >)
        ensures
            exists|reply: Reply| #[trigger]
                registry_read(old(self)@, reply) == (final(self)@, outcome_view(r)),
    {
        let listed: Result<Vec<RemoteDefinitionSnapshot>, String> = request_remote_list(api);
        let ghost reply = choose|reply: Reply| says(listed, #[trigger] remotes_of(reply));
        match listed {
            Ok(remotes) => {
                self.sync_remote_registry(remotes);
                assert(registry_read(old(self)@, reply) == (self@, Ok::<(), Seq<char>>(())));
                Ok(())
            },
            Err(e) => {
                assert(registry_read(old(self)@, reply) == (self@, Err::<(), Seq<char>>(e@)));
                Err(e)
            },
        }
    }

    /// Reads the summary of the main server again.
    pub fn refresh_main_summary_from_api<A: SupervisorApi>(&mut self, api: &mut A) -> (r: Result<
        (),
        String,
    >)
        ensures
            exists|workspaces: Reply, agents: Reply| #[trigger]
                main_summary_read(old(self)@, workspaces, agents) == (
                    final(self)@,
                    outcome_view(r),
                ),
    {
        let summed: Result<ServerSummary, String> = request_server_summary(api);
        let ghost (b, c) = choose|first: Reply, second: Reply| #[trigger]
            summary_is(first, second, summed);
        let summary: ServerSummary = match summed {
            Ok(summary) => summary,
            Err(e) => {
                assert(main_summary_read(old(self)@, b, c) == (self@, Err::<(), Seq<char>>(e@)));
                return Err(e);
            },
        };
        let main: ServerId = ServerId::main();
        match self.set_summary(&main, summary) {
            Ok(()) => {
                assert(main_summary_read(old(self)@, b, c) == (self@, Ok::<(), Seq<char>>(())));
                Ok(())
            },
            Err(()) => {
                let missing: String = "main server is missing from supervisor model".to_owned();
                assert(main_summary_read(old(self)@, b, c) == (
                    self@,
                    Err::<(), Seq<char>>(missing@),
                ));
                Err(missing)
            },
        }
    }
}

} // verus!
