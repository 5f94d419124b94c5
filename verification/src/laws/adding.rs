//! How a remote is added, and what the client makes of a server's replies.

use vstd::prelude::*;

use crate::add_remote::{is_transient, validated, ValidateView};
use crate::add_remote_steps::{
    add_remote_stepped, add_remote_submitted, remote_taken, AddEventView, AddStepView, SocketsView,
};
use crate::api::{
    AgentInfo, Request, ResponseResult, RuntimeStatus, RuntimeStatusView, SuccessResponse,
    UiSettingsInfo, WorkspaceInfo,
};
use crate::client::{bridge_to, ApiTargetView, ClientSocketView};
use crate::client_state::{lemma_bridge_to_others, lemma_pushed_bridge, StateView};
use crate::remote_registry::{canonical_key_of, RemoteDefinitionSnapshot, RemoteView, TargetView};
use crate::servers::{summary_of, ConnectionState, SummaryView};
use crate::supervisor::overlay::DraftView;
use crate::supervisor::ModelView;
use crate::supervisor_api::{
    agent_list_request, agents_in_reply, agents_of, bootstrapped, check_runtime_status,
    fetch_comes_to, registry_read, remote_list_request, remotes_in_reply, remotes_of, settings_of,
    settings_read, status_in_reply, status_of, status_request, ui_settings_in_reply,
    ui_settings_request, workspace_list_request, workspaces_in_reply, workspaces_of, Reply,
};
use crate::text::{decimal, lower_spec, occurs_in};

verus! {

/// A remote that is asked for is refused where its target names none, or names the main server;
/// a session on this machine is looked at where it is, and a host over ssh through a bridge that
/// is started first, with its own options.
pub proof fn law_asked_for_remote(
    draft: DraftView,
    main: Option<TargetView>,
    host: Seq<char>,
    args: Seq<Seq<char>>,
    session: Option<Seq<char>>,
)
    ensures
        add_remote_submitted(draft, None, main) == (AddStepView::Refused {
            message: "remote target is invalid"@,
        }),
        ({
            let target = TargetView::Ssh { target: host, args };
            let same = main is Some && canonical_key_of(main->0) == canonical_key_of(target);
            &&& same ==> add_remote_submitted(draft, Some(target), main) == (AddStepView::Refused {
                message: "remote already added"@,
            })
            &&& !same ==> add_remote_submitted(draft, Some(target), main) == (
            AddStepView::StartBridge { draft, target: host, args })
        }),
        ({
            let target = TargetView::Local { session };
            let same = main is Some && canonical_key_of(main->0) == canonical_key_of(target);
            &&& same ==> add_remote_submitted(draft, Some(target), main) == (AddStepView::Refused {
                message: "remote already added"@,
            })
            &&& !same ==> add_remote_submitted(draft, Some(target), main) == (
            AddStepView::CheckStatus {
                draft,
                target: ApiTargetView::LocalSession(session),
                socket: ClientSocketView::Session(session),
                bridge: None,
                wait_millis: 0,
            })
        }),
{
}

/// A server is accepted exactly where it speaks this client's protocol. One that cannot be
/// reached yet is asked again after a twentieth of a second, for five seconds; any other fault
/// ends it with its own words.
pub proof fn law_new_server_is_validated(
    status: RuntimeStatusView,
    error: Seq<char>,
    elapsed: u64,
)
    ensures
        validated(Ok(status), elapsed) is Accept <==> status.protocol == Some(11u32),
        status.protocol is None ==> validated(Ok(status), elapsed) == (ValidateView::Reject {
            message: "protocol mismatch: server protocol "@ + "None"@ + ", client protocol "@
                + decimal(11),
        }),
        status.protocol is Some && status.protocol != Some(11u32) ==> validated(
            Ok(status),
            elapsed,
        ) == (ValidateView::Reject {
            message: "protocol mismatch: server protocol "@ + ("Some("@ + decimal(
                status.protocol->0 as nat,
            ) + ")"@) + ", client protocol "@ + decimal(11),
        }),
        is_transient(error) && elapsed < 5000 ==> validated(Err(error), elapsed) == (
        ValidateView::Retry { millis: 50 }),
        !is_transient(error) || elapsed >= 5000 ==> validated(Err(error), elapsed) == (
        ValidateView::Reject { message: error }),
{
}

/// A fault may pass where it says, in letters small or large, that the resource is unavailable for
/// now, that the call would block, that it timed out, that the connection was refused or that
/// there is no such file; no other may.
pub proof fn law_faults_that_may_pass(error: Seq<char>)
    ensures
        ({
            let said = error.map_values(|c: char| lower_spec(c));
            &&& occurs_in("resource temporarily unavailable"@, said) ==> is_transient(error)
            &&& occurs_in("operation would block"@, said) ==> is_transient(error)
            &&& occurs_in("timed out"@, said) ==> is_transient(error)
            &&& occurs_in("connection refused"@, said) ==> is_transient(error)
            &&& occurs_in("no such file or directory"@, said) ==> is_transient(error)
            &&& is_transient(error) ==> occurs_in("resource temporarily unavailable"@, said)
                || occurs_in("operation would block"@, said) || occurs_in("timed out"@, said)
                || occurs_in("connection refused"@, said) || occurs_in(
                "no such file or directory"@,
                said,
            )
        }),
{
}

/// Adding goes on step by step: a bridge that was started is used for calls by the one socket and
/// for the screen by the other, a server that was accepted is connected to, one that was connected
/// to is stored, and one that was stored is attached under its own id. A fault ends it and says
/// what it was; nothing is changed before the remote is stored.
pub proof fn law_adding_goes_step_by_step(
    s: StateView,
    draft: DraftView,
    host: Seq<char>,
    args: Seq<Seq<char>>,
    bridge: SocketsView,
    target: ApiTargetView,
    socket: ClientSocketView,
    sockets: Option<SocketsView>,
    wait: u64,
    remote: RemoteView,
    error: Seq<char>,
)
    ensures
        add_remote_stepped(
            s,
            AddStepView::StartBridge { draft, target: host, args },
            AddEventView::BridgeStarted { bridge },
        ) == (
            s,
            AddStepView::CheckStatus {
                draft,
                target: ApiTargetView::SocketPath(bridge.api_socket),
                socket: ClientSocketView::Path(bridge.client_socket),
                bridge: Some(bridge),
                wait_millis: 0,
            },
        ),
        add_remote_stepped(
            s,
            AddStepView::StartBridge { draft, target: host, args },
            AddEventView::BridgeFailed { error },
        ) == (
            s,
            AddStepView::Refused { message: "failed to start ssh remote bridge: "@ + error },
        ),
        add_remote_stepped(
            s,
            AddStepView::Connect { draft, socket, bridge: sockets },
            AddEventView::Connected,
        ) == (s, AddStepView::SendAdd { draft, bridge: sockets }),
        add_remote_stepped(
            s,
            AddStepView::Connect { draft, socket, bridge: sockets },
            AddEventView::ConnectFailed { error },
        ) == (s, AddStepView::Refused { message: error }),
        add_remote_stepped(
            s,
            AddStepView::SendAdd { draft, bridge: sockets },
            AddEventView::Submitted { result: Err(error) },
        ) == (s, AddStepView::Refused { message: error }),
        add_remote_stepped(
            s,
            AddStepView::SendAdd { draft, bridge: sockets },
            AddEventView::Submitted { result: Ok(remote) },
        ).1 == (AddStepView::Attach { server_id: "secondary:"@ + remote.id }),
        add_remote_stepped(
            s,
            AddStepView::Attach { server_id: host },
            AddEventView::AttachFailed { error },
        ) == (s, AddStepView::Refused { message: error }),
        add_remote_stepped(s, AddStepView::Attach { server_id: host }, AddEventView::Attached).1
            == AddStepView::Done,
        forall|status: Result<RuntimeStatusView, Seq<char>>, elapsed: u64|
            #![trigger validated(status, elapsed)]
            ({
                let r = add_remote_stepped(
                    s,
                    AddStepView::CheckStatus {
                        draft,
                        target,
                        socket,
                        bridge: sockets,
                        wait_millis: wait,
                    },
                    AddEventView::Status { status, elapsed_millis: elapsed },
                );
                &&& r.0 == s
                &&& validated(status, elapsed) is Accept ==> r.1 == (AddStepView::Connect {
                    draft,
                    socket,
                    bridge: sockets,
                })
                &&& validated(status, elapsed) is Reject ==> r.1 == (AddStepView::Refused {
                    message: validated(status, elapsed)->message,
                })
                &&& validated(status, elapsed) is Retry ==> r.1 == (AddStepView::CheckStatus {
                    draft,
                    target,
                    socket,
                    bridge: sockets,
                    wait_millis: validated(status, elapsed)->millis,
                })
            }),
{
}

/// A remote that was stored is known from then on, last and connected, under its name and target,
/// and its bridge is known by its id, each socket for what it is.
pub proof fn law_stored_remote_is_known(s: StateView, remote: RemoteView, bridge: SocketsView)
    requires
        s.model is Some,
        !remote.disabled,
    ensures
        ({
            let after = remote_taken(s, remote, Some(bridge));
            let m = after.model->0;
            &&& after.model is Some
            &&& m.servers.len() == s.model->0.servers.len() + 1
            &&& m.servers.last().id == "secondary:"@ + remote.id
            &&& m.servers.last().display_name == remote.name
            &&& m.servers.last().connection_state is Connected
            &&& m.servers.drop_last() == s.model->0.servers
            &&& bridge_to(after.bridges, "secondary:"@ + remote.id) is Some
            &&& bridge_to(after.bridges, "secondary:"@ + remote.id)->0.client_socket
                == bridge.client_socket
            &&& bridge_to(after.bridges, "secondary:"@ + remote.id)->0.api_socket
                == bridge.api_socket
            &&& remote_taken(s, remote, None).bridges == s.bridges
        }),
{
    let after = remote_taken(s, remote, Some(bridge));
    assert(after.model->0.servers.drop_last() =~= s.model->0.servers);
    let known = crate::client::BridgeView {
        server_id: "secondary:"@ + remote.id,
        client_socket: bridge.client_socket,
        api_socket: bridge.api_socket,
    };
    assert(after.bridges == crate::client_state::bridges_with(s.bridges, known));
    let others = crate::client_state::bridges_without(s.bridges, known.server_id);
    lemma_bridge_to_others(s.bridges, known.server_id, known.server_id);
    lemma_pushed_bridge(others, known, known.server_id);
}

/// A reply is read as what was asked for: each list, the settings and the status come out as they
/// were sent, an error comes out with its own words, and a reply of another kind is an error.
pub proof fn law_replies_are_read_as_sent(
    remotes: Vec<RemoteDefinitionSnapshot>,
    workspaces: Vec<WorkspaceInfo>,
    agents: Vec<AgentInfo>,
    settings: UiSettingsInfo,
    version: String,
    protocol: u32,
    live_handoff: bool,
    id: String,
    error: String,
)
    ensures
        remotes_of(
            Ok(SuccessResponse { id, result: ResponseResult::RemoteList { remotes } }),
        ) == Ok::<Vec<RemoteDefinitionSnapshot>, Seq<char>>(remotes),
        workspaces_of(
            Ok(SuccessResponse { id, result: ResponseResult::WorkspaceList { workspaces } }),
        ) == Ok::<Vec<WorkspaceInfo>, Seq<char>>(workspaces),
        agents_of(
            Ok(SuccessResponse { id, result: ResponseResult::AgentList { agents } }),
        ) == Ok::<Vec<AgentInfo>, Seq<char>>(agents),
        settings_of(
            Ok(SuccessResponse { id, result: ResponseResult::UiSettings { settings } }),
        ) == Ok::<UiSettingsInfo, Seq<char>>(settings),
        status_of(
            Ok(
                SuccessResponse {
                    id,
                    result: ResponseResult::Pong { version, protocol, live_handoff },
                },
            ),
        ) == Ok::<(Seq<char>, u32, bool), Seq<char>>((version@, protocol, live_handoff)),
        remotes_of(Err(error)) == Err::<Vec<RemoteDefinitionSnapshot>, Seq<char>>(error@),
        workspaces_of(Err(error)) == Err::<Vec<WorkspaceInfo>, Seq<char>>(error@),
        agents_of(Err(error)) == Err::<Vec<AgentInfo>, Seq<char>>(error@),
        settings_of(Err(error)) == Err::<UiSettingsInfo, Seq<char>>(error@),
        status_of(Err(error)) == Err::<(Seq<char>, u32, bool), Seq<char>>(error@),
        remotes_of(
            Ok(SuccessResponse { id, result: ResponseResult::AgentList { agents } }),
        ) is Err,
        workspaces_of(
            Ok(SuccessResponse { id, result: ResponseResult::AgentList { agents } }),
        ) is Err,
        agents_of(
            Ok(SuccessResponse { id, result: ResponseResult::WorkspaceList { workspaces } }),
        ) is Err,
{
}

/// The functions that read replies give what was sent, or the error's own words.
pub proof fn law_reply_readers(
    reply: Reply,
    remotes: Result<Vec<RemoteDefinitionSnapshot>, String>,
    workspaces: Result<Vec<WorkspaceInfo>, String>,
    agents: Result<Vec<AgentInfo>, String>,
    settings: Result<UiSettingsInfo, String>,
    status: Result<RuntimeStatus, String>,
)
    requires
        call_ensures(remotes_in_reply, (reply,), remotes),
        call_ensures(workspaces_in_reply, (reply,), workspaces),
        call_ensures(agents_in_reply, (reply,), agents),
        call_ensures(ui_settings_in_reply, (reply,), settings),
        call_ensures(status_in_reply, (reply,), status),
    ensures
        reply is Err ==> {
            &&& remotes is Err && remotes->Err_0@ == reply->Err_0@
            &&& workspaces is Err && workspaces->Err_0@ == reply->Err_0@
            &&& agents is Err && agents->Err_0@ == reply->Err_0@
            &&& settings is Err && settings->Err_0@ == reply->Err_0@
            &&& status is Err && status->Err_0@ == reply->Err_0@
        },
        reply is Ok && reply->Ok_0.result is RemoteList ==> remotes == Ok::<
            Vec<RemoteDefinitionSnapshot>,
            String,
        >(reply->Ok_0.result->remotes) && workspaces is Err && agents is Err,
        reply is Ok && reply->Ok_0.result is WorkspaceList ==> workspaces == Ok::<
            Vec<WorkspaceInfo>,
            String,
        >(reply->Ok_0.result->workspaces) && remotes is Err && agents is Err,
        reply is Ok && reply->Ok_0.result is AgentList ==> agents == Ok::<Vec<AgentInfo>, String>(
            reply->Ok_0.result->agents,
        ) && remotes is Err && workspaces is Err,
        reply is Ok && reply->Ok_0.result is UiSettings ==> settings == Ok::<
            UiSettingsInfo,
            String,
        >(reply->Ok_0.result->settings),
        reply is Ok && reply->Ok_0.result is Pong ==> {
            &&& status is Ok
            &&& status->Ok_0.version is Some
            &&& status->Ok_0.version->0@ == reply->Ok_0.result->version@
            &&& status->Ok_0.protocol == Some(reply->Ok_0.result->protocol)
            &&& status->Ok_0.live_handoff == reply->Ok_0.result->live_handoff
        },
        reply is Ok && !(reply->Ok_0.result is Pong) ==> status is Err && status->Err_0@
            == "ping"@ + " returned unexpected result: "@ + crate::supervisor_api::debug_form(
            reply->Ok_0.result.deep_view(),
        ),
{
}

/// Each request asks for what it is named for.
pub proof fn law_requests(
    remotes: Request,
    workspaces: Request,
    agents: Request,
    status: Request,
    settings: Request,
    checked: Result<(), ConnectionState>,
    found: Result<RuntimeStatus, String>,
)
    requires
        call_ensures(remote_list_request, (), remotes),
        call_ensures(workspace_list_request, (), workspaces),
        call_ensures(agent_list_request, (), agents),
        call_ensures(status_request, (), status),
        call_ensures(ui_settings_request, (), settings),
        call_ensures(check_runtime_status, (&found,), checked),
    ensures
        remotes.method is RemoteList && remotes.id@ == "client-supervisor:remote-list"@,
        workspaces.method is WorkspaceList && workspaces.id@ == "client-supervisor:workspace-list"@,
        agents.method is AgentList && agents.id@ == "client-supervisor:agent-list"@,
        status.method is Ping && status.id@ == "client-supervisor:status"@,
        settings.method is ServerUiSettings && settings.id@ == "client-supervisor:ui-settings"@,
        checked is Ok <==> found is Ok && found->Ok_0.protocol == Some(11u32),
        found is Err ==> checked == Err::<(), ConnectionState>(ConnectionState::Disconnected),
        found is Ok && found->Ok_0.protocol != Some(11u32) ==> checked == Err::<
            (),
            ConnectionState,
        >(
            ConnectionState::ProtocolMismatch {
                server_protocol: found->Ok_0.protocol,
                client_protocol: 11,
            },
        ),
{
}

/// A remote's summary is taken only where it speaks this client's protocol and told both lists; of
/// another protocol it is noted so, with the protocol that it told, and else it is disconnected.
pub proof fn law_fetched_summary(
    status: Reply,
    workspaces: Reply,
    agents: Reply,
    r: Result<SummaryView, ConnectionState>,
)
    requires
        fetch_comes_to(status, workspaces, agents, r),
    ensures
        r is Ok ==> status_of(status) is Ok && (status_of(status)->Ok_0).1 == 11
            && workspaces_of(workspaces) is Ok && agents_of(agents) is Ok && r->Ok_0 == summary_of(
            workspaces_of(workspaces)->Ok_0@,
            agents_of(agents)->Ok_0@,
        ),
        status_of(status) is Ok && (status_of(status)->Ok_0).1 != 11 ==> r == Err::<
            SummaryView,
            ConnectionState,
        >(
            ConnectionState::ProtocolMismatch {
                server_protocol: Some((status_of(status)->Ok_0).1),
                client_protocol: 11,
            },
        ),
        status_of(status) is Err ==> r == Err::<SummaryView, ConnectionState>(
            ConnectionState::Disconnected,
        ),
        status_of(status) is Ok && (status_of(status)->Ok_0).1 == 11 && workspaces_of(
            workspaces,
        ) is Ok && agents_of(agents) is Ok ==> r is Ok,
        status_of(status) is Ok && (status_of(status)->Ok_0).1 == 11 && (workspaces_of(
            workspaces,
        ) is Err || agents_of(agents) is Err) ==> r == Err::<SummaryView, ConnectionState>(
            ConnectionState::Disconnected,
        ),
{
}

/// A client that starts knows its main server under the name given, with the summary that it told,
/// and every registered remote behind it, connecting where it is enabled; the settings are the
/// server's where it told them, and the usual ones else.
pub proof fn law_start(
    name: Seq<char>,
    remotes: Seq<RemoteView>,
    summary: SummaryView,
    settings: Option<UiSettingsInfo>,
    i: int,
)
    ensures
        ({
            let m = bootstrapped(name, remotes, summary, settings);
            &&& m.servers.len() == remotes.len() + 1
            &&& m.servers[0].id == "main"@
            &&& m.servers[0].display_name == name
            &&& m.servers[0].summaries == summary
            &&& m.servers[0].connection_state is Connected
            &&& m.active == "main"@
            &&& settings is Some ==> m.ui_settings == settings->0
            &&& settings is None ==> m.ui_settings == crate::api::default_ui_settings()
            &&& 0 <= i < remotes.len() ==> {
                &&& m.servers[i + 1].id == "secondary:"@ + remotes[i].id
                &&& m.servers[i + 1].display_name == remotes[i].name
                &&& !remotes[i].disabled ==> m.servers[i + 1].connection_state is Connecting
                &&& remotes[i].disabled ==> m.servers[i + 1].connection_state is Disconnected
            }
        }),
{
    let first = crate::supervisor::new_model(name);
    crate::supervisor::laws::law_new_model_is_valid(name);
    crate::supervisor::laws::law_sync_keeps_valid(first, remotes);
    crate::supervisor_api::law_started_model_is_valid(name, remotes, summary, settings);
    if 0 <= i < remotes.len() {
        crate::supervisor::laws::law_sync_matches_the_registry(first, remotes, i);
        reveal_with_fuel(crate::supervisor::index_of_secondary, 2);
        assert(first.servers.drop_first() =~= Seq::empty());
    }
}

/// Settings and remotes that were told take the place of what was known, and a failed call leaves
/// it as it was.
pub proof fn law_told_settings_and_remotes(m: ModelView, reply: Reply)
    ensures
        settings_of(reply) is Ok ==> settings_read(m, reply) == (
            ModelView { ui_settings: settings_of(reply)->Ok_0, ..m },
            Ok::<(), Seq<char>>(()),
        ),
        settings_of(reply) is Err ==> settings_read(m, reply) == (
            m,
            Err::<(), Seq<char>>(settings_of(reply)->Err_0),
        ),
        remotes_of(reply) is Err ==> registry_read(m, reply) == (
            m,
            Err::<(), Seq<char>>(remotes_of(reply)->Err_0),
        ),
        remotes_of(reply) is Ok ==> registry_read(m, reply).1 is Ok && registry_read(
            m,
            reply,
        ).0.ui_settings == m.ui_settings,
{
}

} // verus!
