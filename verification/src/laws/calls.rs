//! What a call leaves behind: each law is of a call of the function that it names, over what went
//! in and what came out.

use vstd::prelude::*;

use crate::add_remote::{main_server_target_snapshot, remote_add_request};
use crate::api::{SidebarSpaceItem, SidebarSpaceSettings};
use crate::client::{
    api_target_for_connection_target, client_keybindings_from_snapshot, client_render_plan,
    client_socket_path_for_connection_target, handshake_outcome, requested_keybindings, run_client,
    run_terminal_attach, secondary_stream_source, ApiTargetView, ClientError, ClientLaunch,
    ClientRenderPlan, ClientSocket, ClientSocketView, ConnectionTarget, SshBridge, StreamSource,
};
use crate::client_loop::{ActionView, ClipboardImage, LoopOutcome};
use crate::client_state::{ClientState, RetryDecision};
use crate::compositor::ClientCompositor;
use crate::dispatch::{dispatch_sidebar_hit_target, ClientApiRefreshPolicy, ClientInputDispatch};
use crate::input::{MouseButton, MouseEvent, MouseEventKind};
use crate::layout::{SidebarHitTarget, SidebarLayout};
use crate::messages::{
    build_hello_message, ClientKeybindings, ClientMessage, ClientSurfaceMode, RenderEncoding,
    ServerMessage,
};
use crate::remote::{RemoteHerdr, RemotePlatform};
use crate::remote_registry::{
    RemoteDefinitionSnapshot, RemoteKeybindingsSnapshot, RemoteRegistryError,
    RemoteRegistrySnapshot, RemoteTargetSnapshot, TargetView,
};
use crate::api::Request;
use crate::servers::{ServerConnectionTarget, ServerId};
use crate::startup::{attach_request, client_shows_graphics, exit_code};
use crate::supervisor::overlay::AddRemoteDraft;
use crate::supervisor::routes::SecondaryConnectionPlan;
use crate::supervisor::ClientSupervisorModel;
use crate::text::trim_spec;

verus! {

/// A client with a sidebar asks its server for frames of the content alone, in what twenty-six
/// columns leave; one without asks for the whole screen, as it was told to.
pub proof fn law_render_plan(
    model: Option<&ClientSupervisorModel>,
    encoding: RenderEncoding,
    size: (u16, u16),
    r: ClientRenderPlan,
)
    requires
        call_ensures(client_render_plan, (model, encoding, size), r),
    ensures
        model is Some ==> {
            &&& r.surface_mode is EmbeddedContent
            &&& r.requested_encoding is SemanticFrame
            &&& r.use_client_compositor
            &&& size.0 > 26 ==> r.server_size == ((size.0 - 26) as u16, size.1)
        },
        model is None ==> {
            &&& r.surface_mode is FullApp
            &&& r.requested_encoding == encoding
            &&& !r.use_client_compositor
            &&& r.server_size == size
        },
{
}

/// A server's welcome gives the encoding that it chose, or its refusal with its own version and
/// words; any other first message breaks the protocol.
pub proof fn law_handshake(welcome: ServerMessage, r: Result<RenderEncoding, ClientError>)
    requires
        call_ensures(handshake_outcome, (welcome,), r),
    ensures
        welcome is Welcome && welcome->error is None ==> r == Ok::<RenderEncoding, ClientError>(
            welcome->encoding,
        ),
        welcome is Welcome && welcome->error is Some ==> r == Err::<RenderEncoding, ClientError>(
            ClientError::HandshakeRejected {
                version: welcome->version,
                error: welcome->error->0,
            },
        ),
        !(welcome is Welcome) ==> r is Err && r->Err_0 is Protocol,
{
}

/// The first message of a client tells its protocol, its size, what it asks for and its keys, each
/// as it was given.
pub proof fn law_hello(
    cols: u16,
    rows: u16,
    width: u32,
    height: u32,
    encoding: RenderEncoding,
    mode: ClientSurfaceMode,
    keys: ClientKeybindings,
    r: ClientMessage,
)
    requires
        call_ensures(build_hello_message, (cols, rows, width, height, encoding, mode, keys), r),
    ensures
        r is Hello,
        r->version == 11,
        r->Hello_cols == cols,
        r->Hello_rows == rows,
        r->Hello_cell_width_px == width,
        r->Hello_cell_height_px == height,
        r->requested_encoding == encoding,
        r->surface_mode == mode,
        r->keybindings == keys,
{
}

/// A client's own keys are sent exactly where they are asked for and it has any; else the server's
/// hold.
pub proof fn law_whose_keys_hold(
    setting: Option<&str>,
    snapshot: RemoteKeybindingsSnapshot,
    profile: Option<String>,
    main: ClientKeybindings,
    remote: ClientKeybindings,
)
    requires
        call_ensures(requested_keybindings, (setting, profile), main),
        call_ensures(client_keybindings_from_snapshot, (snapshot, profile), remote),
    ensures
        setting is Some && setting->0@ == "local"@ && profile is Some ==> main == (
        ClientKeybindings::Local { keys_toml: profile->0 }),
        setting is None || setting->0@ != "local"@ || profile is None ==> main is Server,
        snapshot is Local && profile is Some ==> remote == (ClientKeybindings::Local {
            keys_toml: profile->0,
        }),
        snapshot is Server || profile is None ==> remote is Server,
{
}

/// A terminal is attached to as it was asked for, and draws in full; a plain client attaches to
/// none.
pub proof fn law_launches(
    setting: Option<&str>,
    terminal: String,
    takeover: bool,
    plain: ClientLaunch,
    attached: ClientLaunch,
    configured: bool,
    shows: bool,
    message: Option<ClientMessage>,
)
    requires
        call_ensures(run_client, (setting,), plain),
        call_ensures(run_terminal_attach, (terminal, takeover), attached),
        call_ensures(client_shows_graphics, (configured, &attached.attach), shows),
        call_ensures(attach_request, (attached.attach,), message),
    ensures
        plain.attach is None,
        attached.requested_encoding is TerminalAnsi,
        attached.attach == Some((terminal, takeover)),
        !shows,
        message == Some(ClientMessage::AttachTerminal { terminal_id: terminal, takeover }),
{
}

/// A client that ended well, or was detached, exits with no failure; any other end is one.
pub proof fn law_exit_codes(result: Result<(), ClientError>, code: i32)
    requires
        call_ensures(exit_code, (&result,), code),
    ensures
        result is Ok ==> code == 0,
        result is Err && result->Err_0 is ServerShutdown && result->Err_0->reason is Some
            && result->Err_0->reason->0@ == "detached"@ ==> code == 0,
        result is Err && !(result->Err_0 is ServerShutdown) ==> code == 1,
        result is Err && result->Err_0 is ServerShutdown && result->Err_0->reason is None
            ==> code == 1,
{
}

/// Where a server is reached without a bridge: the main one and the sessions on this machine are,
/// a host over ssh is not, and is given a bridge to its own host.
pub proof fn law_reached_without_a_bridge(
    target: &ServerConnectionTarget,
    api: Option<ConnectionTarget>,
    socket: Option<ClientSocket>,
    plan: &SecondaryConnectionPlan,
    bridges: &Vec<SshBridge>,
    source: StreamSource,
)
    requires
        call_ensures(api_target_for_connection_target, (target,), api),
        call_ensures(client_socket_path_for_connection_target, (target,), socket),
        call_ensures(secondary_stream_source, (plan, bridges), source),
    ensures
        target is Main ==> api.deep_view() == Some(ApiTargetView::LocalSession(None))
            && socket.deep_view() == Some(ClientSocketView::Main),
        target is LocalSession ==> api.deep_view() == Some(
            ApiTargetView::LocalSession(target->LocalSession_0.deep_view()),
        ) && socket.deep_view() == Some(
            ClientSocketView::Session(target->LocalSession_0.deep_view()),
        ),
        target is Ssh ==> api.deep_view() is None && socket.deep_view() is None,
        plan.target is Main ==> source is Socket && source->Socket_0.deep_view()
            == ClientSocketView::Main,
        plan.target is Ssh && bridges@.len() == 0 ==> source is StartBridge
            && source->StartBridge_0@ == plan.target->Ssh_0@,
{
}

/// A remote is asked for as it was drafted.
pub proof fn law_add_request(draft: AddRemoteDraft, r: Request)
    requires
        call_ensures(remote_add_request, (draft,), r),
    ensures
        r.id@ == "client:remote-add"@,
        r.method is RemoteAdd,
        r.method->RemoteAdd_0.target == draft.target,
        r.method->RemoteAdd_0.name == draft.name,
        r.method->RemoteAdd_0.keybindings == draft.keybindings,
{
}

/// The main server of a client is the remote that it was started for, and else the session on this
/// machine.
pub proof fn law_main_target(
    setting: Option<&str>,
    session: Option<String>,
    r: Option<RemoteTargetSnapshot>,
)
    requires
        call_ensures(main_server_target_snapshot, (setting, session), r),
    ensures
        setting is None ==> r.deep_view() == Some(
            TargetView::Local { session: session.deep_view() },
        ),
        setting is Some && trim_spec(setting->0@) == "localhost"@ ==> r.deep_view() == Some(
            TargetView::Local { session: None },
        ),
{
    if setting is Some {
        crate::laws::targets::law_local_targets(setting->0@, Seq::empty());
    }
}

/// A binary lies below the home directory on its host: the usual one in its place, another where
/// it was put, and one that was found where it was found.
pub proof fn law_remote_binaries(
    platform: RemotePlatform,
    suffix: String,
    found: String,
    usual: RemoteHerdr,
    other: RemoteHerdr,
    moved: RemoteHerdr,
)
    requires
        call_ensures(RemoteHerdr::for_platform, (platform,), usual),
        call_ensures(RemoteHerdr::for_install_suffix, (platform, suffix), other),
        call_ensures(RemoteHerdr::with_shell_path, (&usual, found), moved),
    ensures
        usual.install_suffix@ == ".local/bin/herdr"@,
        usual.shell_path@ == "\"$HOME/"@ + usual.install_suffix@ + "\""@,
        usual.platform == platform,
        other.install_suffix@ == suffix@,
        other.shell_path@ == "\"$HOME/"@ + other.install_suffix@ + "\""@,
        other.platform == platform,
        moved.shell_path@ == found@,
        moved.install_suffix@ == usual.install_suffix@,
        moved.platform == platform,
{
}

/// The end of the main server ends the client, with the reason that it gave; the end of a remote
/// closes that remote alone and draws the screen.
pub proof fn law_server_that_ends(
    state: &mut ClientState,
    id: ServerId,
    reason: Option<String>,
    now: u64,
    r: LoopOutcome,
)
    requires
        call_ensures(
            ClientState::on_server_message,
            (state, id, ServerMessage::ServerShutdown { reason }, now),
            r,
        ),
    ensures
        id@ == "main"@ ==> {
            &&& r.exit == Some(Err::<(), ClientError>(ClientError::ServerShutdown { reason }))
            &&& r.actions@.len() == 0
            &&& final(state)@ == old(state)@
        },
        id@ != "main"@ ==> {
            &&& r.exit is None
            &&& r.actions.deep_view() == seq![
                ActionView::Close { server_id: id@ },
                ActionView::RenderCached,
            ]
            &&& !final(state)@.streams.contains(id@)
            &&& final(state)@.retries.len() > 0
            &&& final(state)@.retries.last().server_id == id@
            &&& final(state)@.retries.last().attempt == 0
        },
{
    if id@ != "main"@ {
        let ids = old(state)@.streams;
        let f = |a: Seq<char>| crate::client_state::other_id(a, id@);
        let left = crate::client_state::ids_without(ids, id@);
        if left.contains(id@) {
            let k = choose|k: int| 0 <= k < left.len() && left[k] == id@;
            let i = crate::seqs::lemma_pick_source(ids, f, k);
            assert(f(ids[i]) == Some(id@));
        }
    }
}

/// A lost connection to the main server ends the client; one to a remote closes that remote alone
/// and is tried again.
pub proof fn law_lost_connection(
    state: &mut ClientState,
    id: ServerId,
    now: u64,
    r: LoopOutcome,
)
    requires
        call_ensures(ClientState::on_server_disconnected, (state, id, now), r),
    ensures
        id@ == "main"@ ==> r.exit is Some && r.exit->0 is Err && r.exit->0->Err_0 is ConnectionLost
            && r.actions@.len() == 0 && final(state)@ == old(state)@,
        id@ != "main"@ ==> {
            &&& r.exit is None
            &&& r.actions.deep_view() == seq![
                ActionView::Close { server_id: id@ },
                ActionView::RenderCached,
            ]
            &&& final(state)@.retries.len() > 0
            &&& final(state)@.retries.last().server_id == id@
            &&& final(state)@.retries.last().attempt == 0
            &&& now <= u64::MAX - 1000 ==> final(state)@.retries.last().next_retry_at == now
                + 1000
        },
{
}

/// A message that cannot be sent to the main server ends the client with that fault; one to a
/// remote closes it.
pub proof fn law_failed_write(
    state: &mut ClientState,
    id: ServerId,
    message: &ClientMessage,
    error: String,
    now: u64,
    r: LoopOutcome,
)
    requires
        call_ensures(ClientState::on_write_failed, (state, id, message, error, now), r),
    ensures
        id@ == "main"@ ==> r.exit == Some(
            Err::<(), ClientError>(ClientError::ConnectionLost { error }),
        ) && final(state)@ == old(state)@,
        id@ != "main"@ ==> r.exit is None && r.actions.deep_view().len() >= 1
            && r.actions.deep_view()[0] == (ActionView::Close { server_id: id@ })
            && final(state)@.full_redraw,
{
}

/// A new size is told to every server where there is a sidebar, and to the shown one where there
/// is none.
pub proof fn law_resize_is_told(
    state: &mut ClientState,
    cols: u16,
    rows: u16,
    width: u32,
    height: u32,
    r: LoopOutcome,
)
    requires
        call_ensures(ClientState::on_resize, (state, cols, rows, width, height), r),
    ensures
        final(state)@.host_size == (cols, rows),
        r.exit is None,
        r.actions.deep_view().len() == 1,
        ({
            let told = ClientMessage::Resize {
                cols: final(state)@.reported_size.0,
                rows: final(state)@.reported_size.1,
                cell_width_px: width,
                cell_height_px: height,
            };
            &&& old(state)@.compositor is Some ==> r.actions.deep_view()[0] == (
            ActionView::Broadcast { message: told })
            &&& old(state)@.compositor is None && old(state)@.model is None
                ==> r.actions.deep_view()[0] == (ActionView::Write {
                server_id: "main"@,
                message: told,
            }) && final(state)@.reported_size == (cols, rows)
        }),
{
}

/// Summaries are read again on the timer where two seconds have passed, and left alone else.
pub proof fn law_refresh_on_the_timer(state: &mut ClientState, now: u64, r: LoopOutcome)
    requires
        call_ensures(ClientState::refresh_if_due, (state, now), r),
    ensures
        now >= old(state)@.last_refresh + 2000 && old(state)@.model is Some ==> {
            &&& final(state)@.last_refresh == now
            &&& r.actions.deep_view().len() == 4
            &&& r.actions.deep_view()[0] == ActionView::RefreshSummaries
        },
        now < old(state)@.last_refresh + 2000 ==> final(state)@ == old(state)@
            && r.actions.deep_view().len() == 0,
        r.exit is None,
{
}

/// What a request changed is read at once where the request was sent and asked for that, and later
/// else; the screen is drawn either way.
pub proof fn law_answered_request(
    state: &mut ClientState,
    sent: bool,
    refresh: ClientApiRefreshPolicy,
    now: u64,
    r: LoopOutcome,
)
    requires
        call_ensures(ClientState::on_request_finished, (state, sent, refresh, now), r),
    ensures
        sent && refresh is Immediate ==> final(state)@.last_refresh == now
            && r.actions.deep_view() == seq![
            ActionView::RefreshSummaries,
            ActionView::StartSubscriptions,
            ActionView::RenderCached,
        ],
        !sent || refresh is Deferred ==> final(state)@.last_refresh == old(state)@.last_refresh
            && r.actions.deep_view() == seq![ActionView::RenderCached],
        final(state)@.full_redraw,
        final(state)@.model == old(state)@.model,
        r.exit is None,
{
}

/// A picture in the clipboard goes to the shown server in place of the paste, unless it is too
/// large; without one the paste goes there as it came.
pub proof fn law_clipboard_image(
    state: &ClientState,
    image: Option<ClipboardImage>,
    data: Vec<u8>,
    most: usize,
    r: LoopOutcome,
)
    requires
        call_ensures(ClientState::on_clipboard_image, (state, image, data, most), r),
        state@.model is None,
    ensures
        image is None ==> r.actions.deep_view() == seq![
            ActionView::Write { server_id: "main"@, message: ClientMessage::Input { data } },
        ],
        image is Some && image->0.bytes@.len() > most ==> r.actions.deep_view().len() == 0,
        image is Some && image->0.bytes@.len() <= most ==> r.actions.deep_view() == seq![
            ActionView::Write {
                server_id: "main"@,
                message: ClientMessage::ClipboardImage {
                    extension: image->0.extension,
                    data: image->0.bytes,
                },
            },
        ],
        r.exit is None,
{
}

/// What the user asked for ends the client only where it was to detach.
pub proof fn law_only_detaching_ends_the_client(
    state: &mut ClientState,
    dispatch: ClientInputDispatch,
    r: LoopOutcome,
)
    requires
        call_ensures(ClientState::after_dispatch, (state, dispatch), r),
    ensures
        dispatch is DetachAll ==> r.exit == Some(Ok::<(), ClientError>(())),
        !(dispatch is DetachAll) ==> r.exit is None,
{
}

/// A try that is due is made where the remote has no stream yet and still has a plan, and is
/// dropped else.
pub proof fn law_due_try(state: &mut ClientState, id: &ServerId, r: RetryDecision)
    requires
        call_ensures(ClientState::retry_due_secondary_connection, (state, id), r),
    ensures
        old(state)@.streams.contains(id@) ==> r is Dropped,
        old(state)@.model is None ==> r is Dropped,
        r is Connect ==> r->Connect_0.server_id@ == id@ && final(state)@ == old(state)@,
        r is Dropped ==> !crate::client_state::has_retry(final(state)@.retries, id@)
            && final(state)@.streams == old(state)@.streams && final(state)@.model
            == old(state)@.model,
{
    if r is Connect {
        lemma_plan_named(
            crate::supervisor::routes::plans_of(old(state)@.model->0.servers),
            id@,
        );
    } else {
        let s = old(state)@.retries;
        let f = |x: crate::client_state::RetryView| crate::client_state::other_retry(x, id@);
        if crate::client_state::has_retry(final(state)@.retries, id@) {
            let after = crate::seqs::pick(s, f);
            let i = choose|i: int|
                0 <= i < after.len() && (#[trigger] after[i]).server_id == id@;
            let j = crate::seqs::lemma_pick_source(s, f, i);
            assert(f(s[j]) == Some(after[i]));
        }
    }
}

proof fn lemma_plan_named(plans: Seq<crate::supervisor::routes::PlanView>, id: Seq<char>)
    ensures
        crate::client_state::plan_named(plans, id) is Some ==> crate::client_state::plan_named(
            plans,
            id,
        )->0.server_id == id,
    decreases plans.len(),
{
    if plans.len() > 0 {
        lemma_plan_named(plans.drop_first(), id);
    }
}

/// A remote is switched on and off, renamed and marked for updates by its id: that one thing
/// changes of that one remote, and the call gives back the remote as it then is.
pub proof fn law_registry_changes_one_thing(
    on: &mut RemoteRegistrySnapshot,
    updated: &mut RemoteRegistrySnapshot,
    renamed: &mut RemoteRegistrySnapshot,
    id: &str,
    flag: bool,
    name: String,
    switched: Result<RemoteDefinitionSnapshot, RemoteRegistryError>,
    marked: Result<RemoteDefinitionSnapshot, RemoteRegistryError>,
    called: Result<RemoteDefinitionSnapshot, RemoteRegistryError>,
    i: int,
    j: int,
)
    requires
        call_ensures(RemoteRegistrySnapshot::set_enabled, (on, id, flag), switched),
        call_ensures(RemoteRegistrySnapshot::set_auto_update, (updated, id, flag), marked),
        call_ensures(RemoteRegistrySnapshot::rename, (renamed, id, name), called),
        0 <= i < old(on)@.len(),
        0 <= j < old(on)@.len(),
        i != j,
        old(on)@[i].id == id@,
        forall|k: int| 0 <= k < i ==> (#[trigger] old(on)@[k]).id != id@,
        old(updated)@ == old(on)@,
        old(renamed)@ == old(on)@,
    ensures
        switched is Ok && final(on)@.len() == old(on)@.len(),
        final(on)@[i].disabled == !flag,
        final(on)@[i].name == old(on)@[i].name,
        final(on)@[i].target == old(on)@[i].target,
        final(on)@[i].auto_update == old(on)@[i].auto_update,
        final(on)@[j] == old(on)@[j],
        marked is Ok,
        final(updated)@[i].auto_update == flag,
        final(updated)@[i].disabled == old(on)@[i].disabled,
        final(updated)@[j] == old(on)@[j],
        called is Ok ==> final(renamed)@[i].name == trim_spec(name@) && final(renamed)@[i].id
            == id@ && final(renamed)@[i].target == old(on)@[i].target && final(renamed)@[j]
            == old(on)@[j],
        trim_spec(name@).len() == 0 ==> called == Err::<
            RemoteDefinitionSnapshot,
            RemoteRegistryError,
        >(RemoteRegistryError::InvalidName),
        old(on)@[j].name == trim_spec(name@) && old(on)@[j].id != id@ ==> called is Err,
        called is Err ==> final(renamed)@ == old(renamed)@,
{
    let s = old(on)@;
    assert(crate::remote_registry::id_taken(s, id@));
    assert forall|k: int| crate::remote_registry::is_first(s, k, id@) implies k == i by {
        if k < i {
            assert(s[k].id != id@);
        }
        if k > i {
            assert(s[i].id != id@);
        }
    }
    if s[j].name == trim_spec(name@) && s[j].id != id@ {
        assert(crate::remote_registry::name_taken_by_other(s, id@, trim_spec(name@)));
    }
}

/// A remote that is taken out of the registry is gone and the others stay; an id that is not there
/// changes nothing.
pub proof fn law_registry_removes_one(
    registry: &mut RemoteRegistrySnapshot,
    id: &str,
    r: Result<String, RemoteRegistryError>,
    i: int,
)
    requires
        call_ensures(RemoteRegistrySnapshot::remove, (registry, id), r),
        0 <= i < old(registry)@.len(),
    ensures
        old(registry)@[i].id == id@ ==> r is Ok && r->Ok_0@ == id@ && final(registry)@.len()
            == old(registry)@.len() - 1,
        old(registry)@[i].id != id@ ==> final(registry)@.contains(old(registry)@[i]),
        r is Err ==> r == Err::<String, RemoteRegistryError>(RemoteRegistryError::NotFound)
            && final(registry)@ == old(registry)@,
{
    let s = old(registry)@;
    if s[i].id == id@ {
        assert(crate::remote_registry::id_taken(s, id@));
    } else if r is Ok {
        let k = choose|k: int| #[trigger]
            crate::remote_registry::is_first(s, k, id@) && final(registry)@ == s.remove(k);
        assert(s[k].id == id@);
        if i < k {
            assert(final(registry)@[i] == s[i]);
        } else {
            assert(final(registry)@[i - 1] == s[i]);
        }
    } else {
        assert(final(registry)@[i] == s[i]);
    }
}

/// A server becomes the shown one exactly where it is known; a remote that is added is last,
/// connected and known by its id.
pub proof fn law_model_changes(
    shown: &mut ClientSupervisorModel,
    grown: &mut ClientSupervisorModel,
    id: ServerId,
    definition: RemoteDefinitionSnapshot,
    r: Result<(), ()>,
    added: ServerId,
    i: int,
)
    requires
        call_ensures(ClientSupervisorModel::set_active_server, (shown, id), r),
        call_ensures(ClientSupervisorModel::add_secondary, (grown, definition), added),
    ensures
        0 <= i < old(shown)@.servers.len() && old(shown)@.servers[i].id == id@ ==> r is Ok,
        r is Ok ==> final(shown)@.active == id@ && final(shown)@.servers == old(shown)@.servers
            && final(shown)@.filter == old(shown)@.filter,
        r is Err ==> final(shown)@ == old(shown)@,
        added@ == "secondary:"@ + definition.id@,
        final(grown)@.servers.len() == old(grown)@.servers.len() + 1,
        final(grown)@.servers.last().id == "secondary:"@ + definition.id@,
        final(grown)@.servers.last().display_name == definition.name@,
        !definition.disabled ==> final(grown)@.servers.last().connection_state is Connected,
        definition.disabled ==> final(grown)@.servers.last().connection_state is Disconnected,
        final(grown)@.servers.drop_last() == old(grown)@.servers,
{
    crate::supervisor::lemma_index_of_server(old(shown)@.servers, id@);
    assert(final(grown)@.servers.drop_last() =~= old(grown)@.servers);
}

/// The selection in the list of destinations moves on by one and stops at the last.
pub proof fn law_selection_moves_on(model: &mut ClientSupervisorModel)
    requires
        call_ensures(ClientSupervisorModel::move_new_workspace_picker_next, (model,), ()),
        old(model)@.picker is Some,
    ensures
        final(model)@.picker is Some,
        final(model)@.picker->0.destinations == old(model)@.picker->0.destinations,
        old(model)@.picker->0.selected + 1 < old(model)@.picker->0.destinations.len()
            ==> final(model)@.picker->0.selected == old(model)@.picker->0.selected + 1,
        old(model)@.picker->0.selected + 1 >= old(model)@.picker->0.destinations.len()
            ==> final(model)@.picker->0.selected == old(model)@.picker->0.selected,
        final(model)@.servers == old(model)@.servers,
{
}

/// A click does something only where it is the left button pressed.
pub proof fn law_only_the_left_button_clicks(
    target: SidebarHitTarget,
    model: &mut ClientSupervisorModel,
    mouse: &MouseEvent,
    r: ClientInputDispatch,
)
    requires
        call_ensures(dispatch_sidebar_hit_target, (target, model, mouse), r),
        mouse.kind != MouseEventKind::Down(MouseButton::Left),
    ensures
        r is Consumed,
        final(model)@ == old(model)@,
{
}

/// The wheel over the sidebar moves the list that lies under it: the agents below, the workspaces
/// above; beside the sidebar it moves neither.
pub proof fn law_wheel_moves_the_list_under_it(
    compositor: &mut ClientCompositor,
    layout: &SidebarLayout,
    mouse: &MouseEvent,
    width: u16,
    height: u16,
    r: Option<bool>,
)
    requires
        call_ensures(
            ClientCompositor::handle_sidebar_scroll_mouse,
            (compositor, layout, mouse, width, height),
            r,
        ),
        0 < old(compositor)@.sidebar_width < width,
        mouse.row < height,
    ensures
        mouse.column >= old(compositor)@.sidebar_width ==> r is None && final(compositor)@
            == old(compositor)@,
        !(mouse.kind is ScrollUp) && !(mouse.kind is ScrollDown) ==> r is None
            && final(compositor)@ == old(compositor)@,
        ({
            let over = mouse.column < old(compositor)@.sidebar_width;
            let below = layout.detail_area.width > 0 && layout.detail_area.y <= mouse.row
                < layout.detail_area.y + layout.detail_area.height;
            let above = mouse.row < layout.detail_area.y;
            let down = mouse.kind is ScrollDown;
            &&& over && down && below && layout.agent_scroll.scrollable
                && layout.agent_scroll.offset < layout.agent_scroll.max_offset ==> {
                &&& r == Some(true)
                &&& final(compositor)@.agent_panel_scroll == layout.agent_scroll.offset + 1
                &&& final(compositor)@.workspace_scroll == old(compositor)@.workspace_scroll
            }
            &&& over && mouse.kind is ScrollUp && below && layout.agent_scroll.scrollable
                && layout.agent_scroll.offset > 0 ==> {
                &&& r == Some(true)
                &&& final(compositor)@.agent_panel_scroll == layout.agent_scroll.offset - 1
            }
            &&& over && down && above && layout.workspace_scroll.scrollable
                && layout.workspace_scroll.offset < layout.workspace_scroll.max_offset ==> {
                &&& r == Some(true)
                &&& final(compositor)@.workspace_scroll == layout.workspace_scroll.offset + 1
                &&& final(compositor)@.agent_panel_scroll == old(compositor)@.agent_panel_scroll
            }
            &&& over && mouse.kind is ScrollUp && above && layout.workspace_scroll.scrollable
                && layout.workspace_scroll.offset > 0 ==> {
                &&& r == Some(true)
                &&& final(compositor)@.workspace_scroll == layout.workspace_scroll.offset - 1
            }
        }),
{
}

/// Each item of the settings for spaces switches its own part and leaves the other.
pub proof fn law_space_settings(
    item: SidebarSpaceItem,
    spaces: &mut SidebarSpaceSettings,
    enabled: bool,
)
    requires
        call_ensures(SidebarSpaceItem::set_enabled, (item, spaces, enabled), ()),
    ensures
        item is Branch ==> final(spaces).branch == enabled && final(spaces).branch_status == old(
            spaces,
        ).branch_status,
        item is BranchStatus ==> final(spaces).branch_status == enabled && final(spaces).branch
            == old(spaces).branch,
{
}

} // verus!
