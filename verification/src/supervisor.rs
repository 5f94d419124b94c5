//! What the client knows and shows of its servers: the list of servers, the filter, the active
//! server, the picker for new workspaces, and the overlays.

use vstd::prelude::*;

use crate::api::{default_ui_settings, UiSettingsInfo};
use crate::remote_registry::{RemoteDefinitionSnapshot, RemoteKeybindingsSnapshot, RemoteView};
use crate::seqs::{lemma_pick_step, pick};
use crate::servers::{
    connection_of, main_id, main_server, managed_secondary, secondary_id, secondary_server, settle,
    settled, ssh_args, ssh_args_of, ConnectionState, ManagedServer, ServerConnectionTarget,
    ServerFilter, ServerId, ServerRole, ServerSummary, ServerView, SummaryView,
};
use crate::text::clone_option;

pub mod laws;
pub mod overlay;
pub mod routes;
pub mod rows;

verus! {

/// A server on which a workspace can be created.
#[derive(Debug, PartialEq, Eq)]
pub struct ServerDestination {
    pub server_id: ServerId,
    pub display_name: String,
}

/// A destination as a mathematical value.
#[verifier::ext_equal]
pub struct DestinationView {
    pub server_id: Seq<char>,
    pub display_name: Seq<char>,
}

impl DeepView for ServerDestination {
    type V = DestinationView;

    open spec fn deep_view(&self) -> DestinationView {
        DestinationView { server_id: self.server_id@, display_name: self.display_name@ }
    }
}

impl Clone for ServerDestination {
    fn clone(&self) -> (r: Self)
        ensures
            r == *self,
    {
        ServerDestination {
            server_id: self.server_id.clone(),
            display_name: self.display_name.clone(),
        }
    }
}

/// A copy of a list of destinations.
fn clone_destinations(v: &Vec<ServerDestination>) -> (r: Vec<ServerDestination>)
    ensures
        r@ == v@,
{
    let mut r: Vec<ServerDestination> = Vec::new();
    let mut i: usize = 0;
    while i < v.len()
        invariant
            i <= v@.len(),
            r@ == v@.take(i as int),
        decreases v@.len() - i,
    {
        r.push(v[i].clone());
        i = i + 1;
    }
    r
}

/// The open question on which server to create a workspace.
#[derive(Debug, PartialEq, Eq)]
pub struct NewWorkspacePicker {
    pub destinations: Vec<ServerDestination>,
    pub selected: usize,
}

/// A picker as a mathematical value.
#[verifier::ext_equal]
pub struct PickerView {
    pub destinations: Seq<DestinationView>,
    pub selected: nat,
}

impl DeepView for NewWorkspacePicker {
    type V = PickerView;

    open spec fn deep_view(&self) -> PickerView {
        PickerView { destinations: self.destinations.deep_view(), selected: self.selected as nat }
    }
}

impl Clone for NewWorkspacePicker {
    fn clone(&self) -> (r: Self)
        ensures
            r.deep_view() == self.deep_view(),
    {
        NewWorkspacePicker {
            destinations: clone_destinations(&self.destinations),
            selected: self.selected,
        }
    }
}

#[derive(Debug, Clone, Copy, PartialEq, Eq, Structural)]
pub enum AddRemoteField {
    Target,
    Name,
}

/// The form by which a remote is added.
#[derive(Debug, PartialEq, Eq)]
pub struct AddRemoteForm {
    pub target: String,
    pub name: String,
    pub focused_field: AddRemoteField,
    pub error: Option<String>,
}

/// The form as a mathematical value.
#[verifier::ext_equal]
pub struct FormView {
    pub target: Seq<char>,
    pub name: Seq<char>,
    pub focused_field: AddRemoteField,
    pub error: Option<Seq<char>>,
}

impl DeepView for AddRemoteForm {
    type V = FormView;

    open spec fn deep_view(&self) -> FormView {
        FormView {
            target: self.target@,
            name: self.name@,
            focused_field: self.focused_field,
            error: self.error.deep_view(),
        }
    }
}

impl Clone for AddRemoteForm {
    fn clone(&self) -> (r: Self)
        ensures
            r.deep_view() == self.deep_view(),
    {
        AddRemoteForm {
            target: self.target.clone(),
            name: self.name.clone(),
            focused_field: self.focused_field,
            error: clone_option(&self.error),
        }
    }
}

/// What lies over the sidebar.
#[derive(Debug, PartialEq, Eq)]
pub enum ClientOverlayState {
    Closed,
    GlobalMenu { highlighted: usize },
    AddRemote(AddRemoteForm),
}

/// An overlay as a mathematical value.
#[verifier::ext_equal]
pub enum OverlayView {
    Closed,
    GlobalMenu { highlighted: nat },
    AddRemote { form: FormView },
}

impl DeepView for ClientOverlayState {
    type V = OverlayView;

    open spec fn deep_view(&self) -> OverlayView {
        match self {
            ClientOverlayState::Closed => OverlayView::Closed,
            ClientOverlayState::GlobalMenu { highlighted } => OverlayView::GlobalMenu {
                highlighted: *highlighted as nat,
            },
            ClientOverlayState::AddRemote(form) => OverlayView::AddRemote {
                form: form.deep_view(),
            },
        }
    }
}

/// The client's model of its servers.
pub struct ClientSupervisorModel {
    servers: Vec<ManagedServer>,
    filter: ServerFilter,
    active_server_id: ServerId,
    ui_settings: UiSettingsInfo,
    picker: Option<NewWorkspacePicker>,
    client_overlay: ClientOverlayState,
    adding_remote: bool,
}

/// The model as a mathematical value.
#[verifier::ext_equal]
pub struct ModelView {
    pub servers: Seq<ServerView>,
    /// The one server that is shown, `None` for all.
    pub filter: Option<Seq<char>>,
    pub active: Seq<char>,
    pub ui_settings: UiSettingsInfo,
    pub picker: Option<PickerView>,
    pub overlay: OverlayView,
    /// Whether a remote is being added right now.
    pub adding: bool,
}

impl View for ClientSupervisorModel {
    type V = ModelView;

    closed spec fn view(&self) -> ModelView {
        ModelView {
            servers: self.servers.deep_view(),
            filter: self.filter@,
            active: self.active_server_id@,
            ui_settings: self.ui_settings,
            picker: self.picker.deep_view(),
            overlay: self.client_overlay.deep_view(),
            adding: self.adding_remote,
        }
    }
}

/// The place of the first server with this id.
pub open spec fn index_of_server(servers: Seq<ServerView>, id: Seq<char>) -> Option<int>
    decreases servers.len(),
{
    if servers.len() == 0 {
        None
    } else if servers[0].id == id {
        Some(0)
    } else {
        match index_of_server(servers.drop_first(), id) {
            Some(i) => Some(i + 1),
            None => None,
        }
    }
}

/// The first server with this id.
pub open spec fn server_named(servers: Seq<ServerView>, id: Seq<char>) -> Option<ServerView> {
    match index_of_server(servers, id) {
        Some(i) => Some(servers[i]),
        None => None,
    }
}

/// Whether a server has this id.
pub open spec fn has_server(servers: Seq<ServerView>, id: Seq<char>) -> bool {
    index_of_server(servers, id) is Some
}

/// What the place of a server says.
pub proof fn lemma_index_of_server(servers: Seq<ServerView>, id: Seq<char>)
    ensures
        match index_of_server(servers, id) {
            Some(i) => 0 <= i < servers.len() && servers[i].id == id && forall|j: int|
                0 <= j < i ==> (#[trigger] servers[j]).id != id,
            None => forall|j: int| 0 <= j < servers.len() ==> (#[trigger] servers[j]).id != id,
        },
    decreases servers.len(),
{
    if servers.len() > 0 && servers[0].id != id {
        let rest = servers.drop_first();
        lemma_index_of_server(rest, id);
        match index_of_server(rest, id) {
            Some(i) => {
                assert forall|j: int| 0 <= j < i + 1 implies (#[trigger] servers[j]).id != id by {
                    if j > 0 {
                        assert(rest[j - 1] == servers[j]);
                    }
                }
            },
            None => {
                assert forall|j: int| 0 <= j < servers.len() implies (#[trigger] servers[j]).id
                    != id by {
                    if j > 0 {
                        assert(rest[j - 1] == servers[j]);
                    }
                }
            },
        }
    }
}

/// A place with these properties is the place of the server.
pub proof fn lemma_is_index_of_server(servers: Seq<ServerView>, id: Seq<char>, i: int)
    requires
        0 <= i < servers.len(),
        servers[i].id == id,
        forall|j: int| 0 <= j < i ==> (#[trigger] servers[j]).id != id,
    ensures
        index_of_server(servers, id) == Some(i),
{
    lemma_index_of_server(servers, id);
    match index_of_server(servers, id) {
        Some(k) => {
            if k < i {
                assert(servers[k].id != id);
            }
        },
        None => {
            assert(servers[i].id != id);
        },
    }
}

/// The model of a client that knows only its main server.
pub open spec fn new_model(main_display_name: Seq<char>) -> ModelView {
    ModelView {
        servers: seq![main_server(main_display_name)],
        filter: None,
        active: main_id(),
        ui_settings: default_ui_settings(),
        picker: None,
        overlay: OverlayView::Closed,
        adding: false,
    }
}

/// The model without an open picker.
pub open spec fn picker_closed(m: ModelView) -> ModelView {
    ModelView { picker: None, ..m }
}

/// The filter as it can be: one on a server that is not there shows all.
pub open spec fn checked_filter(
    servers: Seq<ServerView>,
    filter: Option<Seq<char>>,
) -> Option<Seq<char>> {
    match filter {
        Some(id) => if has_server(servers, id) {
            Some(id)
        } else {
            None
        },
        None => None,
    }
}

pub open spec fn filter_set(m: ModelView, filter: Option<Seq<char>>) -> ModelView {
    ModelView { filter: checked_filter(m.servers, filter), ..picker_closed(m) }
}

/// The text that names the filter.
pub open spec fn filter_label_of(m: ModelView) -> Seq<char> {
    match m.filter {
        Some(id) => match server_named(m.servers, id) {
            Some(server) => server.display_name,
            None => "all"@,
        },
        None => "all"@,
    }
}

/// The filter after this one: all, then each server in turn, then all again.
pub open spec fn next_filter(
    servers: Seq<ServerView>,
    filter: Option<Seq<char>>,
) -> Option<Seq<char>> {
    match filter {
        None => if servers.len() > 0 {
            Some(servers[0].id)
        } else {
            None
        },
        Some(id) => match index_of_server(servers, id) {
            Some(i) => if i + 1 < servers.len() {
                Some(servers[i + 1].id)
            } else {
                None
            },
            None => None,
        },
    }
}

pub open spec fn filter_cycled(m: ModelView) -> ModelView {
    ModelView { filter: next_filter(m.servers, m.filter), ..picker_closed(m) }
}

/// A destination for new workspaces, where the server is connected.
pub open spec fn destination_of(server: ServerView) -> Option<DestinationView> {
    if server.connection_state is Connected {
        Some(DestinationView { server_id: server.id, display_name: server.display_name })
    } else {
        None
    }
}

/// The connected servers.
pub open spec fn connected_of(servers: Seq<ServerView>) -> Seq<DestinationView> {
    pick(servers, |s: ServerView| destination_of(s))
}

/// The first destination on this server.
pub open spec fn destination_named(
    destinations: Seq<DestinationView>,
    id: Seq<char>,
) -> Option<DestinationView>
    decreases destinations.len(),
{
    if destinations.len() == 0 {
        None
    } else if destinations[0].server_id == id {
        Some(destinations[0])
    } else {
        destination_named(destinations.drop_first(), id)
    }
}

/// The picker with the destinations that are still connected, under their present names; closed
/// where none is left.
pub open spec fn reconciled_picker(
    picker: Option<PickerView>,
    servers: Seq<ServerView>,
) -> Option<PickerView> {
    match picker {
        None => None,
        Some(p) => {
            let left = pick(
                p.destinations,
                |d: DestinationView| destination_named(connected_of(servers), d.server_id),
            );
            if left.len() == 0 {
                None
            } else {
                Some(
                    PickerView {
                        destinations: left,
                        selected: if p.selected < left.len() {
                            p.selected
                        } else {
                            (left.len() - 1) as nat
                        },
                    },
                )
            }
        },
    }
}

/// The model with a picker that fits its servers.
pub open spec fn picker_reconciled(m: ModelView) -> ModelView {
    ModelView { picker: reconciled_picker(m.picker, m.servers), ..m }
}

/// The model with a filter and an active server that are there.
pub open spec fn selection_reconciled(m: ModelView) -> ModelView {
    ModelView {
        filter: checked_filter(m.servers, m.filter),
        active: if can_be_active(m.servers, m.active) {
            m.active
        } else {
            main_id()
        },
        ..m
    }
}

/// Whether a server may stay the active one: it is there and not switched off.
pub open spec fn can_be_active(servers: Seq<ServerView>, id: Seq<char>) -> bool {
    match index_of_server(servers, id) {
        Some(i) => !servers[i].disabled,
        None => false,
    }
}

impl ClientSupervisorModel {
    /// The model of a client that knows only its main server.
    pub fn new(main_display_name: &str) -> (r: Self)
        ensures
            r@ == new_model(main_display_name@),
    {
        let none: Vec<String> = Vec::new();
        assert(none.deep_view() =~= Seq::<Seq<char>>::empty());
        let main: ManagedServer = ManagedServer {
            id: ServerId::main(),
            display_name: main_display_name.to_owned(),
            role: ServerRole::Main,
            target: ServerConnectionTarget::Main,
            ssh_args: none,
            keybindings: RemoteKeybindingsSnapshot::Server,
            disabled: false,
            connection_state: ConnectionState::Connected,
            summaries: ServerSummary::default(),
        };
        let mut servers: Vec<ManagedServer> = Vec::new();
        servers.push(main);
        assert(servers.deep_view() =~= seq![main_server(main_display_name@)]);
        ClientSupervisorModel {
            servers,
            filter: ServerFilter::All,
            active_server_id: ServerId::main(),
            ui_settings: UiSettingsInfo::default(),
            picker: None,
            client_overlay: ClientOverlayState::Closed,
            adding_remote: false,
        }
    }

    pub fn ui_settings(&self) -> (r: &UiSettingsInfo)
        ensures
            *r == self@.ui_settings,
    {
        &self.ui_settings
    }

    pub fn set_ui_settings(&mut self, ui_settings: UiSettingsInfo)
        ensures
            final(self)@ == (ModelView { ui_settings, ..old(self)@ }),
    {
        self.ui_settings = ui_settings;
    }

    /// The servers, in order.
    pub fn servers(&self) -> (r: &Vec<ManagedServer>)
        ensures
            r.deep_view() == self@.servers,
    {
        &self.servers
    }

    /// The place of the first server with this id.
    fn index_of(&self, id: &ServerId) -> (r: Option<usize>)
        ensures
            match r {
                Some(i) => index_of_server(self@.servers, id@) == Some(i as int) && i
                    < self.servers@.len() && self@.servers[i as int]
                    == self.servers@[i as int].deep_view(),
                None => index_of_server(self@.servers, id@) is None,
            },
    {
        let mut i: usize = 0;
        while i < self.servers.len()
            invariant
                i <= self.servers@.len(),
                forall|j: int| 0 <= j < i ==> (#[trigger] self@.servers[j]).id != id@,
            decreases self.servers@.len() - i,
        {
            assert(self@.servers[i as int] == self.servers@[i as int].deep_view());
            if self.servers[i].id.is(id) {
                proof {
                    lemma_is_index_of_server(self@.servers, id@, i as int);
                }
                return Some(i);
            }
            i = i + 1;
        }
        proof {
            lemma_index_of_server(self@.servers, id@);
        }
        None
    }

    /// The first server with this id.
    pub fn server(&self, id: &ServerId) -> (r: Option<&ManagedServer>)
        ensures
            match r {
                Some(server) => server_named(self@.servers, id@) == Some(server.deep_view()),
                None => server_named(self@.servers, id@) is None,
            },
    {
        match self.index_of(id) {
            Some(i) => Some(&self.servers[i]),
            None => None,
        }
    }

    /// Makes the main server the active one.
    pub fn activate_main_server(&mut self)
        ensures
            final(self)@ == (ModelView { active: main_id(), ..picker_closed(old(self)@) }),
    {
        self.picker = None;
        self.active_server_id = ServerId::main();
    }

    /// Adds the server of a remote, as a connected one.
    pub fn add_secondary(&mut self, definition: RemoteDefinitionSnapshot) -> (r: ServerId)
        ensures
            r@ == secondary_id(definition.deep_view().id),
            final(self)@ == (ModelView {
                servers: old(self)@.servers.push(
                    secondary_server(definition.deep_view(), ConnectionState::Connected),
                ),
                ..old(self)@
            }),
    {
        let ghost before = self.servers.deep_view();
        let server: ManagedServer = managed_secondary(&definition, ConnectionState::Connected);
        self.servers.push(server);
        assert(self.servers.deep_view() =~= before.push(server.deep_view()));
        ServerId::secondary(definition.id.as_str())
    }

    pub fn filter(&self) -> (r: &ServerFilter)
        ensures
            r@ == self@.filter,
    {
        &self.filter
    }

    /// Shows one server or all; a server that is not there shows all.
    pub fn set_filter(&mut self, filter: ServerFilter)
        ensures
            final(self)@ == filter_set(old(self)@, filter@),
    {
        self.picker = None;
        let checked: ServerFilter = match filter {
            ServerFilter::All => ServerFilter::All,
            ServerFilter::Server(id) => {
                if self.index_of(&id).is_some() {
                    ServerFilter::Server(id)
                } else {
                    ServerFilter::All
                }
            },
        };
        self.filter = checked;
    }

    /// The text that names the filter.
    pub fn filter_label(&self) -> (r: String)
        ensures
            r@ == filter_label_of(self@),
    {
        match &self.filter {
            ServerFilter::All => "all".to_owned(),
            ServerFilter::Server(id) => match self.server(id) {
                Some(server) => server.display_name.clone(),
                None => "all".to_owned(),
            },
        }
    }

    /// Goes on to the next filter: all, then each server in turn, then all again.
    pub fn cycle_filter(&mut self)
        ensures
            final(self)@ == filter_cycled(old(self)@),
    {
        self.picker = None;
        let next: ServerFilter = match &self.filter {
            ServerFilter::All => {
                if self.servers.len() > 0 {
                    ServerFilter::Server(self.servers[0].id.clone())
                } else {
                    ServerFilter::All
                }
            },
            ServerFilter::Server(current) => match self.index_of(current) {
                Some(i) => {
                    if self.servers.len() - i > 1 {
                        ServerFilter::Server(self.servers[i + 1].id.clone())
                    } else {
                        ServerFilter::All
                    }
                },
                None => ServerFilter::All,
            },
        };
        self.filter = next;
    }

    pub fn active_server_id(&self) -> (r: &ServerId)
        ensures
            r@ == self@.active,
    {
        &self.active_server_id
    }

    /// Makes a server the active one; an error where it is not there.
    pub fn set_active_server(&mut self, id: ServerId) -> (r: Result<(), ()>)
        ensures
            r is Ok <==> has_server(old(self)@.servers, id@),
            r is Ok ==> final(self)@ == (ModelView { active: id@, ..old(self)@ }),
            r is Err ==> final(self)@ == old(self)@,
    {
        if self.index_of(&id).is_none() {
            return Err(());
        }
        self.active_server_id = id;
        Ok(())
    }

    /// The connected servers.
    pub fn connected_destinations(&self) -> (r: Vec<ServerDestination>)
        ensures
            r.deep_view() == connected_of(self@.servers),
    {
        let ghost servers = self@.servers;
        let ghost f = |s: ServerView| destination_of(s);
        let mut found: Vec<ServerDestination> = Vec::new();
        let mut i: usize = 0;
        assert(found.deep_view() =~= pick(servers.take(0), f));
        while i < self.servers.len()
            invariant
                i <= self.servers@.len(),
                servers == self@.servers,
                f == (|s: ServerView| destination_of(s)),
                found.deep_view() =~= pick(servers.take(i as int), f),
            decreases self.servers@.len() - i,
        {
            let ghost before = found.deep_view();
            let server: &ManagedServer = &self.servers[i];
            assert(servers[i as int] == server.deep_view());
            proof {
                lemma_pick_step(servers, i as int, f);
            }
            if server.connection_state.is_connected() {
                let destination: ServerDestination = ServerDestination {
                    server_id: server.id.clone(),
                    display_name: server.display_name.clone(),
                };
                found.push(destination);
                assert(found.deep_view() =~= before.push(destination.deep_view()));
            }
            i = i + 1;
        }
        assert(servers.take(i as int) =~= servers);
        found
    }

    /// Drops from the picker what is no longer connected.
    fn reconcile_new_workspace_picker(&mut self)
        ensures
            final(self)@ == picker_reconciled(old(self)@),
    {
        let connected: Vec<ServerDestination> = self.connected_destinations();
        let ghost available = connected_of(self@.servers);
        let ghost f = |d: DestinationView| destination_named(available, d.server_id);
        let next: Option<NewWorkspacePicker> = match &self.picker {
            None => None,
            Some(picker) => {
                let ghost shown = picker.destinations.deep_view();
                let mut left: Vec<ServerDestination> = Vec::new();
                let mut i: usize = 0;
                assert(left.deep_view() =~= pick(shown.take(0), f));
                while i < picker.destinations.len()
                    invariant
                        i <= picker.destinations@.len(),
                        shown == picker.destinations.deep_view(),
                        available == connected.deep_view(),
                        f == (|d: DestinationView| destination_named(available, d.server_id)),
                        left.deep_view() =~= pick(shown.take(i as int), f),
                    decreases picker.destinations@.len() - i,
                {
                    let ghost before = left.deep_view();
                    proof {
                        lemma_pick_step(shown, i as int, f);
                    }
                    match find_destination(&connected, &picker.destinations[i].server_id) {
                        Some(k) => {
                            let destination: ServerDestination = connected[k].clone();
                            left.push(destination);
                            assert(left.deep_view() =~= before.push(destination.deep_view()));
                        },
                        None => {},
                    }
                    i = i + 1;
                }
                assert(shown.take(i as int) =~= shown);
                assert(left.deep_view().len() == left@.len());
                if left.len() == 0 {
                    None
                } else {
                    let selected: usize = if picker.selected < left.len() {
                        picker.selected
                    } else {
                        left.len() - 1
                    };
                    Some(NewWorkspacePicker { destinations: left, selected })
                }
            },
        };
        self.picker = next;
        assert(self@ =~= picker_reconciled(old(self)@));
    }
}

/// The first destination on this server.
fn find_destination(destinations: &Vec<ServerDestination>, id: &ServerId) -> (r: Option<usize>)
    ensures
        match r {
            Some(i) => i < destinations@.len() && destination_named(
                destinations.deep_view(),
                id@,
            ) == Some(destinations@[i as int].deep_view()),
            None => destination_named(destinations.deep_view(), id@) is None,
        },
{
    let ghost all = destinations.deep_view();
    let mut i: usize = 0;
    assert(all.skip(0) =~= all);
    while i < destinations.len()
        invariant
            i <= destinations@.len(),
            all == destinations.deep_view(),
            destination_named(all, id@) == destination_named(all.skip(i as int), id@),
        decreases destinations@.len() - i,
    {
        assert(all.skip(i as int)[0] == destinations@[i as int].deep_view());
        if destinations[i].server_id.is(id) {
            return Some(i);
        }
        assert(all.skip(i as int).drop_first() =~= all.skip(i + 1));
        i = i + 1;
    }
    None
}

/// The place of the first remote's server with this id.
pub open spec fn index_of_secondary(servers: Seq<ServerView>, id: Seq<char>) -> Option<int>
    decreases servers.len(),
{
    if servers.len() == 0 {
        None
    } else if servers[0].id == id && servers[0].role == ServerRole::Secondary {
        Some(0)
    } else {
        match index_of_secondary(servers.drop_first(), id) {
            Some(i) => Some(i + 1),
            None => None,
        }
    }
}

proof fn lemma_index_of_secondary(servers: Seq<ServerView>, id: Seq<char>)
    ensures
        match index_of_secondary(servers, id) {
            Some(i) => 0 <= i < servers.len() && servers[i].id == id && servers[i].role
                == ServerRole::Secondary,
            None => true,
        },
    decreases servers.len(),
{
    if servers.len() > 0 && !(servers[0].id == id && servers[0].role == ServerRole::Secondary) {
        lemma_index_of_secondary(servers.drop_first(), id);
    }
}

/// How the connection to a remote's server stands after the registry was read: as before, unless
/// the remote was switched off or on.
pub open spec fn synced_state(server: ServerView, disabled: bool) -> ConnectionState {
    if server.disabled && !disabled {
        ConnectionState::Connecting
    } else {
        settled(disabled, server.connection_state)
    }
}

/// The server of a remote after the registry was read: what is known of it stays, its name, its
/// target and its key bindings are those of the registry, and so is whether it is switched off.
pub open spec fn synced_server(servers: Seq<ServerView>, definition: RemoteView) -> ServerView {
    match index_of_secondary(servers, secondary_id(definition.id)) {
        Some(i) => ServerView {
            display_name: definition.name,
            target: connection_of(definition.target),
            ssh_args: ssh_args_of(definition.target),
            keybindings: definition.keybindings,
            disabled: definition.disabled,
            connection_state: synced_state(servers[i], definition.disabled),
            ..servers[i]
        },
        None => secondary_server(definition, ConnectionState::Connecting),
    }
}

/// The main server, where there is one.
pub open spec fn main_only(server: ServerView) -> Option<ServerView> {
    if server.role == ServerRole::Main {
        Some(server)
    } else {
        None
    }
}

/// The servers after the registry was read: the main server, then those of the registry, in its
/// order.
pub open spec fn synced_servers(
    servers: Seq<ServerView>,
    remotes: Seq<RemoteView>,
) -> Seq<ServerView> {
    pick(servers, |s: ServerView| main_only(s)) + remotes.map_values(
        |d: RemoteView| synced_server(servers, d),
    )
}

pub open spec fn registry_synced(m: ModelView, remotes: Seq<RemoteView>) -> ModelView {
    picker_reconciled(
        selection_reconciled(ModelView { servers: synced_servers(m.servers, remotes), ..m }),
    )
}

pub open spec fn secondary_removed(m: ModelView, id: Seq<char>, i: int) -> ModelView {
    picker_reconciled(
        ModelView {
            servers: m.servers.remove(i),
            filter: if m.filter == Some(id) {
                None
            } else {
                m.filter
            },
            active: if m.active == id {
                main_id()
            } else {
                m.active
            },
            ..m
        },
    )
}

pub open spec fn connection_set(
    m: ModelView,
    i: int,
    id: Seq<char>,
    state: ConnectionState,
) -> ModelView {
    let state = settled(m.servers[i].disabled, state);
    picker_reconciled(
        ModelView {
            servers: m.servers.update(i, ServerView { connection_state: state, ..m.servers[i] }),
            active: if m.active == id && !(state is Connected) {
                main_id()
            } else {
                m.active
            },
            ..m
        },
    )
}

pub open spec fn summary_set(m: ModelView, i: int, summary: SummaryView) -> ModelView {
    ModelView {
        servers: m.servers.update(i, ServerView { summaries: summary, ..m.servers[i] }),
        ..m
    }
}

/// What a fetch of a server's summary came to.
pub enum FetchView {
    Fetched(SummaryView),
    Failed(ConnectionState),
}

/// The servers after one fetch.
pub open spec fn fetch_applied(
    servers: Seq<ServerView>,
    id: Seq<char>,
    result: FetchView,
) -> Seq<ServerView> {
    match index_of_server(servers, id) {
        Some(i) => match result {
            FetchView::Fetched(summary) => servers.update(
                i,
                ServerView {
                    connection_state: settled(servers[i].disabled, ConnectionState::Connected),
                    summaries: summary,
                    ..servers[i]
                },
            ),
            FetchView::Failed(state) => servers.update(
                i,
                ServerView {
                    connection_state: settled(servers[i].disabled, state),
                    ..servers[i]
                },
            ),
        },
        None => servers,
    }
}

/// The servers after a row of fetches.
pub open spec fn fetches_applied(
    servers: Seq<ServerView>,
    results: Seq<(Seq<char>, FetchView)>,
) -> Seq<ServerView>
    decreases results.len(),
{
    if results.len() == 0 {
        servers
    } else {
        fetch_applied(
            fetches_applied(servers, results.drop_last()),
            results.last().0,
            results.last().1,
        )
    }
}

/// One fetch, with the server it is about.
pub open spec fn fetch_view(r: (ServerId, Result<ServerSummary, ConnectionState>)) -> (
    Seq<char>,
    FetchView,
) {
    (
        r.0@,
        match r.1 {
            Ok(summary) => FetchView::Fetched(summary.deep_view()),
            Err(state) => FetchView::Failed(state),
        },
    )
}

/// The fetches as mathematical values.
pub open spec fn fetch_views(
    results: Seq<(ServerId, Result<ServerSummary, ConnectionState>)>,
) -> Seq<(Seq<char>, FetchView)> {
    results.map_values(|r: (ServerId, Result<ServerSummary, ConnectionState>)| fetch_view(r))
}

impl ClientSupervisorModel {
    /// The place of the first remote's server with this id.
    fn index_of_remote(&self, id: &ServerId) -> (r: Option<usize>)
        ensures
            match r {
                Some(i) => index_of_secondary(self@.servers, id@) == Some(i as int) && i
                    < self.servers@.len() && self@.servers[i as int]
                    == self.servers@[i as int].deep_view(),
                None => index_of_secondary(self@.servers, id@) is None,
            },
    {
        let ghost all = self@.servers;
        let mut i: usize = 0;
        assert(all.skip(0) =~= all);
        while i < self.servers.len()
            invariant
                i <= self.servers@.len(),
                all == self@.servers,
                index_of_secondary(all, id@) == (match index_of_secondary(
                    all.skip(i as int),
                    id@,
                ) {
                    Some(k) => Some(k + i),
                    None => None,
                }),
            decreases self.servers@.len() - i,
        {
            assert(all.skip(i as int)[0] == self.servers@[i as int].deep_view());
            if self.servers[i].id.is(id) && self.servers[i].role == ServerRole::Secondary {
                return Some(i);
            }
            assert(all.skip(i as int).drop_first() =~= all.skip(i + 1));
            i = i + 1;
        }
        None
    }

    /// Makes filter and active server such that they are there.
    fn reconcile_selected_servers(&mut self)
        ensures
            final(self)@ == selection_reconciled(old(self)@),
    {
        let filter_gone: bool = match &self.filter {
            ServerFilter::All => false,
            ServerFilter::Server(id) => self.index_of(id).is_none(),
        };
        if filter_gone {
            self.filter = ServerFilter::All;
        }
        let stays: bool = match self.index_of(&self.active_server_id) {
            Some(i) => !self.servers[i].disabled,
            None => false,
        };
        if !stays {
            self.active_server_id = ServerId::main();
        }
    }

    /// Takes over the remotes of the registry.
    pub fn sync_remote_registry(&mut self, remotes: Vec<RemoteDefinitionSnapshot>)
        ensures
            final(self)@ == registry_synced(old(self)@, remotes.deep_view()),
    {
        let ghost servers = self@.servers;
        let ghost definitions = remotes.deep_view();
        let ghost f = |s: ServerView| main_only(s);
        let ghost g = |d: RemoteView| synced_server(servers, d);
        let mut next: Vec<ManagedServer> = Vec::new();
        let mut i: usize = 0;
        assert(next.deep_view() =~= pick(servers.take(0), f));
        while i < self.servers.len()
            invariant
                i <= self.servers@.len(),
                servers == self@.servers,
                f == (|s: ServerView| main_only(s)),
                next.deep_view() =~= pick(servers.take(i as int), f),
            decreases self.servers@.len() - i,
        {
            let ghost before = next.deep_view();
            assert(servers[i as int] == self.servers@[i as int].deep_view());
            proof {
                lemma_pick_step(servers, i as int, f);
            }
            if self.servers[i].role == ServerRole::Main {
                let copy: ManagedServer = self.servers[i].clone();
                next.push(copy);
                assert(next.deep_view() =~= before.push(copy.deep_view()));
            }
            i = i + 1;
        }
        assert(servers.take(i as int) =~= servers);
        let ghost mains = next.deep_view();
        let mut k: usize = 0;
        while k < remotes.len()
            invariant
                k <= remotes@.len(),
                definitions == remotes.deep_view(),
                servers == self@.servers,
                g == (|d: RemoteView| synced_server(servers, d)),
                next.deep_view() =~= mains + definitions.take(k as int).map_values(g),
            decreases remotes@.len() - k,
        {
            let ghost before = next.deep_view();
            let definition: &RemoteDefinitionSnapshot = &remotes[k];
            assert(definitions[k as int] == definition.deep_view());
            let id: ServerId = ServerId::secondary(definition.id.as_str());
            let server: ManagedServer = match self.index_of_remote(&id) {
                Some(at) => ManagedServer {
                    id: self.servers[at].id.clone(),
                    display_name: definition.name.clone(),
                    role: self.servers[at].role,
                    target: ServerConnectionTarget::from(definition.target.clone()),
                    ssh_args: ssh_args(&definition.target),
                    keybindings: definition.keybindings,
                    disabled: definition.disabled,
                    connection_state: if self.servers[at].disabled && !definition.disabled {
                        ConnectionState::Connecting
                    } else {
                        settle(definition.disabled, self.servers[at].connection_state)
                    },
                    summaries: self.servers[at].summaries.clone(),
                },
                None => managed_secondary(definition, ConnectionState::Connecting),
            };
            assert(server.deep_view() =~= synced_server(servers, definition.deep_view()));
            next.push(server);
            assert(next.deep_view() =~= before.push(server.deep_view()));
            k = k + 1;
        }
        assert(definitions.take(k as int) =~= definitions);
        self.servers = next;
        assert(self@ =~= (ModelView {
            servers: synced_servers(servers, definitions),
            ..old(self)@
        }));
        self.reconcile_selected_servers();
        self.reconcile_new_workspace_picker();
    }

    /// Takes the server of a remote away; whether it was there.
    pub fn remove_secondary(&mut self, id: &ServerId) -> (r: bool)
        ensures
            match index_of_secondary(old(self)@.servers, id@) {
                Some(i) => r && final(self)@ == secondary_removed(old(self)@, id@, i),
                None => !r && final(self)@ == old(self)@,
            },
    {
        match self.index_of_remote(id) {
            Some(i) => {
                let ghost before = self.servers.deep_view();
                let removed: ManagedServer = self.servers.remove(i);
                assert(self.servers.deep_view() =~= before.remove(i as int));
                let shown: bool = match &self.filter {
                    ServerFilter::All => false,
                    ServerFilter::Server(selected) => selected.is(id),
                };
                if shown {
                    self.filter = ServerFilter::All;
                }
                if self.active_server_id.is(id) {
                    self.active_server_id = ServerId::main();
                }
                self.reconcile_new_workspace_picker();
                true
            },
            None => false,
        }
    }

    /// Notes how the connection to a server stands; an error where the server is not there. An
    /// active server that is no longer connected gives way to the main server; a remote that is
    /// switched off stays disconnected.
    pub fn set_connection_state(
        &mut self,
        id: &ServerId,
        connection_state: ConnectionState,
    ) -> (r: Result<(), ()>)
        ensures
            match index_of_server(old(self)@.servers, id@) {
                Some(i) => r is Ok && final(self)@ == connection_set(
                    old(self)@,
                    i,
                    id@,
                    connection_state,
                ),
                None => r is Err && final(self)@ == old(self)@,
            },
    {
        match self.index_of(id) {
            Some(i) => {
                let ghost before = self.servers.deep_view();
                let connection_state: ConnectionState = settle(
                    self.servers[i].disabled,
                    connection_state,
                );
                let is_connected: bool = connection_state.is_connected();
                self.servers[i].connection_state = connection_state;
                assert(self.servers.deep_view() =~= before.update(
                    i as int,
                    ServerView { connection_state, ..before[i as int] },
                ));
                if self.active_server_id.is(id) && !is_connected {
                    self.active_server_id = ServerId::main();
                }
                self.reconcile_new_workspace_picker();
                Ok(())
            },
            None => Err(()),
        }
    }

    /// Notes the summary of a server; an error where the server is not there.
    pub fn set_summary(&mut self, id: &ServerId, summary: ServerSummary) -> (r: Result<(), ()>)
        ensures
            match index_of_server(old(self)@.servers, id@) {
                Some(i) => r is Ok && final(self)@ == summary_set(
                    old(self)@,
                    i,
                    summary.deep_view(),
                ),
                None => r is Err && final(self)@ == old(self)@,
            },
    {
        match self.index_of(id) {
            Some(i) => {
                let ghost before = self.servers.deep_view();
                self.servers[i].summaries = summary;
                assert(self.servers.deep_view() =~= before.update(
                    i as int,
                    ServerView { summaries: summary.deep_view(), ..before[i as int] },
                ));
                Ok(())
            },
            None => Err(()),
        }
    }

    /// Takes over what a row of fetches came to. A result for a server that is not there is
    /// dropped.
    pub fn apply_secondary_summary_results(
        &mut self,
        results: Vec<(ServerId, Result<ServerSummary, ConnectionState>)>,
    )
        ensures
            final(self)@ == picker_reconciled(
                (ModelView {
                    servers: fetches_applied(old(self)@.servers, fetch_views(results@)),
                    ..old(self)@
                }),
            ),
    {
        let ghost servers = self@.servers;
        let ghost all = fetch_views(results@);
        let ghost start = self@;
        let mut i: usize = 0;
        assert(all.take(0) =~= Seq::<(Seq<char>, FetchView)>::empty());
        while i < results.len()
            invariant
                i <= results@.len(),
                all == fetch_views(results@),
                servers == start.servers,
                self@ == (ModelView {
                    servers: fetches_applied(servers, all.take(i as int)),
                    ..start
                }),
            decreases results@.len() - i,
        {
            let ghost before = self.servers.deep_view();
            let result: &(ServerId, Result<ServerSummary, ConnectionState>) = &results[i];
            proof {
                assert(all[i as int] == fetch_view(*result));
                assert(all.take(i + 1).drop_last() =~= all.take(i as int));
                assert(all.take(i + 1).last() == all[i as int]);
            }
            match self.index_of(&result.0) {
                Some(at) => {
                    match &result.1 {
                        Ok(summary) => {
                            self.servers[at].connection_state = settle(
                                self.servers[at].disabled,
                                ConnectionState::Connected,
                            );
                            self.servers[at].summaries = summary.clone();
                        },
                        Err(state) => {
                            self.servers[at].connection_state = settle(
                                self.servers[at].disabled,
                                *state,
                            );
                        },
                    }
                    assert(self.servers.deep_view() =~= fetch_applied(
                        before,
                        result.0@,
                        fetch_view(*result).1,
                    ));
                },
                None => {},
            }
            i = i + 1;
        }
        assert(all.take(i as int) =~= all);
        self.reconcile_new_workspace_picker();
    }
}

} // verus!
