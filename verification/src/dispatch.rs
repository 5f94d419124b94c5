//! What becomes of input while the client shows its own sidebar.

use vstd::prelude::*;

use crate::api::{EmptyParams, Method, Request};
use crate::compositor::{
    content_size_of, hit_of, hover_of, model_label_rect, open_menu_item, resized, rows_shown,
    ClientCompositor, CompositorView,
};
use crate::frame::smaller;
use crate::input::{
    encode_mouse, sgr_report, KeyCode, KeyEventKind, KeyModifiers, MouseButton, MouseEvent,
    MouseEventKind, RawInputEvent, TerminalKey,
};
use crate::layout::{HitView, SidebarHitTarget, SidebarHoverTarget, SidebarLayout};
use crate::messages::ClientMessage;
use crate::servers::{main_id, ServerId};
use crate::sidebar_plan::agent_routes_of;
use crate::supervisor::laws::{
    law_activation_keeps_valid, law_filter_keeps_valid, law_focus_keeps_valid,
    law_overlays_keep_valid, law_picker_keeps_valid, valid,
};
use crate::supervisor::overlay::{
    form_key_handled, form_key_submits, highlighted_of, menu_action, menu_hovered, menu_items,
    menu_moved, menu_opened, menu_selected, overlay_closed, with_focused_text, with_form, AddRemoteDraft,
    AddRemoteFormOutcome, ClientGlobalMenuAction, DraftView,
};
use crate::supervisor::routes::{
    agent_focus_of, chosen_route, destination_chosen, focused, is_plain_create,
    new_workspace_route_of, picker_opened, selected_destination, workspace_focus_of, FocusRoute,
    FocusView, NewWorkspaceRoute, NewWorkspaceView,
};
use crate::supervisor::{
    filter_cycled, picker_closed, ClientSupervisorModel, ModelView, OverlayView,
};

verus! {

/// When the summaries are read again after a request.
#[derive(Debug, Clone, Copy, PartialEq, Eq, Structural)]
pub enum ClientApiRefreshPolicy {
    Immediate,
    Deferred,
}

/// What becomes of input.
#[derive(Debug, PartialEq, Eq)]
pub enum ClientInputDispatch {
    /// It goes to the active server.
    Forward(Vec<u8>),
    /// A message goes to a server.
    ServerControl { server_id: ServerId, message: ClientMessage },
    /// A request goes to a server's API.
    ApiRequest { server_id: ServerId, refresh: ClientApiRefreshPolicy, request: Box<Request> },
    AddRemote(AddRemoteDraft),
    /// The content has another size.
    Resize { cols: u16, rows: u16 },
    DetachAll,
    Redraw,
    Consumed,
}

/// What a request asks for, as far as input asks for it.
#[verifier::ext_equal]
pub enum AskView {
    FocusWorkspace { workspace_id: Seq<char> },
    FocusAgent { target: Seq<char> },
    /// A workspace, focused, with nothing else set.
    CreateWorkspace,
    ReloadConfig,
    OpenSettings,
    OpenKeybindHelp,
    Other,
}

/// What becomes of input, as a mathematical value.
#[verifier::ext_equal]
pub enum DispatchView {
    Forward { data: Seq<u8> },
    ServerControl { server_id: Seq<char>, ask: AskView },
    ApiRequest {
        server_id: Seq<char>,
        refresh: ClientApiRefreshPolicy,
        id: Seq<char>,
        ask: AskView,
    },
    AddRemote { draft: DraftView },
    Resize { cols: u16, rows: u16 },
    DetachAll,
    Redraw,
    Consumed,
}

/// What a method asks for.
pub open spec fn method_ask(method: Method) -> AskView {
    match method {
        Method::WorkspaceFocus(target) => AskView::FocusWorkspace {
            workspace_id: target.workspace_id@,
        },
        Method::AgentFocus(target) => AskView::FocusAgent { target: target.target@ },
        Method::ServerReloadConfig(_) => AskView::ReloadConfig,
        _ => if is_plain_create(method) {
            AskView::CreateWorkspace
        } else {
            AskView::Other
        },
    }
}

/// What a message asks for.
pub open spec fn message_ask(message: ClientMessage) -> AskView {
    match message {
        ClientMessage::OpenSettings => AskView::OpenSettings,
        ClientMessage::OpenKeybindHelp => AskView::OpenKeybindHelp,
        _ => AskView::Other,
    }
}

impl DeepView for ClientInputDispatch {
    type V = DispatchView;

    open spec fn deep_view(&self) -> DispatchView {
        match self {
            ClientInputDispatch::Forward(data) => DispatchView::Forward { data: data@ },
            ClientInputDispatch::ServerControl { server_id, message } =>
                DispatchView::ServerControl { server_id: server_id@, ask: message_ask(*message) },
            ClientInputDispatch::ApiRequest {
                server_id,
                refresh,
                request,
            } => DispatchView::ApiRequest {
                server_id: server_id@,
                refresh: *refresh,
                id: request.id@,
                ask: method_ask(request.method),
            },
            ClientInputDispatch::AddRemote(draft) => DispatchView::AddRemote {
                draft: draft.deep_view(),
            },
            ClientInputDispatch::Resize { cols, rows } => DispatchView::Resize {
                cols: *cols,
                rows: *rows,
            },
            ClientInputDispatch::DetachAll => DispatchView::DetachAll,
            ClientInputDispatch::Redraw => DispatchView::Redraw,
            ClientInputDispatch::Consumed => DispatchView::Consumed,
        }
    }
}

/// The model with its main server active.
pub open spec fn main_activated(m: ModelView) -> ModelView {
    ModelView { active: main_id(), ..picker_closed(m) }
}

/// The model after a menu item was carried out.
pub open spec fn menu_action_done(
    m: ModelView,
    action: Option<ClientGlobalMenuAction>,
) -> ModelView {
    match action {
        Some(ClientGlobalMenuAction::Settings) => main_activated(m),
        Some(ClientGlobalMenuAction::Keybinds) => main_activated(m),
        _ => m,
    }
}

/// What carrying out a menu item comes to. Settings and key bindings are those of the main
/// server.
pub open spec fn menu_action_dispatch(action: Option<ClientGlobalMenuAction>) -> DispatchView {
    match action {
        Some(ClientGlobalMenuAction::Settings) => DispatchView::ServerControl {
            server_id: main_id(),
            ask: AskView::OpenSettings,
        },
        Some(ClientGlobalMenuAction::Keybinds) => DispatchView::ServerControl {
            server_id: main_id(),
            ask: AskView::OpenKeybindHelp,
        },
        Some(ClientGlobalMenuAction::ReloadConfig) => DispatchView::ApiRequest {
            server_id: main_id(),
            refresh: ClientApiRefreshPolicy::Immediate,
            id: "client:reload-config"@,
            ask: AskView::ReloadConfig,
        },
        Some(ClientGlobalMenuAction::Detach) => DispatchView::DetachAll,
        Some(ClientGlobalMenuAction::AddRemote) => DispatchView::Redraw,
        None => DispatchView::Consumed,
    }
}

/// Carries out a menu item.
pub fn dispatch_client_global_menu_action(
    model: &mut ClientSupervisorModel,
    action: Option<ClientGlobalMenuAction>,
) -> (r: ClientInputDispatch)
    ensures
        r.deep_view() == menu_action_dispatch(action),
        final(model)@ == menu_action_done(old(model)@, action),
{
    match action {
        Some(ClientGlobalMenuAction::Settings) => {
            model.activate_main_server();
            ClientInputDispatch::ServerControl {
                server_id: ServerId::main(),
                message: ClientMessage::OpenSettings,
            }
        },
        Some(ClientGlobalMenuAction::Keybinds) => {
            model.activate_main_server();
            ClientInputDispatch::ServerControl {
                server_id: ServerId::main(),
                message: ClientMessage::OpenKeybindHelp,
            }
        },
        Some(ClientGlobalMenuAction::ReloadConfig) => ClientInputDispatch::ApiRequest {
            server_id: ServerId::main(),
            refresh: ClientApiRefreshPolicy::Immediate,
            request: Box::new(
                Request {
                    id: "client:reload-config".to_owned(),
                    method: Method::ServerReloadConfig(EmptyParams {  }),
                },
            ),
        },
        Some(ClientGlobalMenuAction::Detach) => ClientInputDispatch::DetachAll,
        Some(ClientGlobalMenuAction::AddRemote) => ClientInputDispatch::Redraw,
        None => ClientInputDispatch::Consumed,
    }
}

/// Whether a key moves the highlight of the menu up.
pub open spec fn is_menu_up(code: KeyCode) -> bool {
    code is Up || code == KeyCode::Char('k')
}

/// Whether a key moves the highlight of the menu down.
pub open spec fn is_menu_down(code: KeyCode) -> bool {
    code is Down || code == KeyCode::Char('j')
}

/// The model after a key went to the menu.
pub open spec fn menu_key_handled(m: ModelView, key: TerminalKey) -> ModelView {
    if !key.is_press() {
        m
    } else if key.code is Esc {
        overlay_closed(m)
    } else {
        match highlighted_of(m) {
            None => m,
            Some(h) => if is_menu_up(key.code) {
                menu_moved(
                    m,
                    if h > 0 {
                        (h - 1) as nat
                    } else {
                        0
                    },
                )
            } else if is_menu_down(key.code) {
                menu_moved(
                    m,
                    if h + 1 < menu_items().len() {
                        h + 1
                    } else {
                        (menu_items().len() - 1) as nat
                    },
                )
            } else if key.code is Enter {
                menu_action_done(menu_selected(m, h), menu_action(h))
            } else {
                m
            },
        }
    }
}

/// What a key that went to the menu comes to.
pub open spec fn menu_key_dispatch(m: ModelView, key: TerminalKey) -> DispatchView {
    if !key.is_press() {
        DispatchView::Consumed
    } else if key.code is Esc || is_menu_up(key.code) || is_menu_down(key.code) {
        DispatchView::Redraw
    } else if key.code is Enter {
        match highlighted_of(m) {
            Some(h) => menu_action_dispatch(menu_action(h)),
            None => DispatchView::Consumed,
        }
    } else {
        DispatchView::Consumed
    }
}

/// Hands a key to the menu.
pub fn dispatch_client_global_menu_key(
    model: &mut ClientSupervisorModel,
    key: TerminalKey,
) -> (r: ClientInputDispatch)
    ensures
        r.deep_view() == menu_key_dispatch(old(model)@, key),
        final(model)@ == menu_key_handled(old(model)@, key),
{
    if !key.pressed() {
        return ClientInputDispatch::Consumed;
    }
    match key.code {
        KeyCode::Esc => {
            model.close_client_overlay();
            ClientInputDispatch::Redraw
        },
        KeyCode::Up => {
            model.move_client_global_menu_prev();
            ClientInputDispatch::Redraw
        },
        KeyCode::Down => {
            model.move_client_global_menu_next();
            ClientInputDispatch::Redraw
        },
        KeyCode::Char(c) => {
            if c == 'k' {
                model.move_client_global_menu_prev();
                ClientInputDispatch::Redraw
            } else if c == 'j' {
                model.move_client_global_menu_next();
                ClientInputDispatch::Redraw
            } else {
                ClientInputDispatch::Consumed
            }
        },
        KeyCode::Enter => {
            let action: Option<ClientGlobalMenuAction> = model.accept_client_global_menu_item();
            dispatch_client_global_menu_action(model, action)
        },
        _ => ClientInputDispatch::Consumed,
    }
}

/// What a route for a new workspace comes to.
pub open spec fn create_dispatch(route: NewWorkspaceView) -> DispatchView {
    match route {
        NewWorkspaceView::CreateOn { server_id } => DispatchView::ApiRequest {
            server_id,
            refresh: ClientApiRefreshPolicy::Immediate,
            id: "client:workspace-create"@,
            ask: AskView::CreateWorkspace,
        },
        _ => DispatchView::Consumed,
    }
}

fn create_request(route: &NewWorkspaceRoute) -> (r: ClientInputDispatch)
    ensures
        r.deep_view() == create_dispatch(route.deep_view()),
{
    match route.api_request("client:workspace-create") {
        Some((server_id, request)) => ClientInputDispatch::ApiRequest {
            server_id,
            refresh: ClientApiRefreshPolicy::Immediate,
            request: Box::new(request),
        },
        None => ClientInputDispatch::Consumed,
    }
}

/// What a focus change comes to.
pub open spec fn focus_dispatch(route: FocusView, id: Seq<char>) -> DispatchView {
    match route {
        FocusView::Workspace { server_id, workspace_id } => DispatchView::ApiRequest {
            server_id,
            refresh: ClientApiRefreshPolicy::Deferred,
            id,
            ask: AskView::FocusWorkspace { workspace_id },
        },
        FocusView::Agent { server_id, target } => DispatchView::ApiRequest {
            server_id,
            refresh: ClientApiRefreshPolicy::Deferred,
            id,
            ask: AskView::FocusAgent { target },
        },
        _ => DispatchView::Consumed,
    }
}

fn focus_request(route: &FocusRoute, server_id: ServerId, id: &str) -> (r: ClientInputDispatch)
    requires
        match route.deep_view() {
            FocusView::Workspace { server_id: owner, workspace_id } => owner == server_id@,
            FocusView::Agent { server_id: owner, target } => owner == server_id@,
            _ => true,
        },
    ensures
        r.deep_view() == focus_dispatch(route.deep_view(), id@),
{
    match route.api_request(id) {
        Some(request) => ClientInputDispatch::ApiRequest {
            server_id,
            refresh: ClientApiRefreshPolicy::Deferred,
            request: Box::new(request),
        },
        None => ClientInputDispatch::Consumed,
    }
}

/// The press of a key that stands for a button of the form.
pub open spec fn enter_key() -> TerminalKey {
    TerminalKey {
        code: KeyCode::Enter,
        modifiers: crate::input::no_modifiers(),
        kind: KeyEventKind::Press,
    }
}

/// What a draft, if there is one, comes to.
pub open spec fn draft_dispatch(draft: Option<DraftView>) -> DispatchView {
    match draft {
        Some(d) => DispatchView::AddRemote { draft: d },
        None => DispatchView::Redraw,
    }
}

/// The model after a click met a target.
pub open spec fn hit_handled(m: ModelView, target: HitView) -> ModelView {
    match target {
        HitView::Filter => filter_cycled(m),
        HitView::Workspace { server_id, workspace_id } => focused(
            m,
            workspace_focus_of(m, server_id, workspace_id),
            server_id,
        ),
        HitView::Agent { server_id, agent_id } => focused(
            m,
            agent_focus_of(m, server_id, agent_id),
            server_id,
        ),
        HitView::New => picker_opened(m),
        HitView::NewWorkspaceDestination { server_id } => destination_chosen(m, server_id),
        HitView::ClientGlobalMenuItem { index } => menu_action_done(
            menu_selected(m, index as nat),
            menu_action(index as nat),
        ),
        HitView::Menu => menu_opened(m),
        HitView::AddRemoteSubmit => form_key_handled(m, enter_key()),
        HitView::AddRemoteCancel => overlay_closed(m),
        HitView::NewWorkspacePickerConfirm => match selected_destination(m) {
            Some(id) => destination_chosen(m, id),
            None => m,
        },
        HitView::NewWorkspacePickerCancel => picker_closed(m),
        _ => m,
    }
}

/// What a click that met a target comes to.
pub open spec fn hit_dispatch(m: ModelView, target: HitView) -> DispatchView {
    match target {
        HitView::Filter => DispatchView::Redraw,
        HitView::Workspace { server_id, workspace_id } => focus_dispatch(
            workspace_focus_of(m, server_id, workspace_id),
            "client:workspace-focus"@,
        ),
        HitView::Agent { server_id, agent_id } => focus_dispatch(
            agent_focus_of(m, server_id, agent_id),
            "client:agent-focus"@,
        ),
        HitView::New => if new_workspace_route_of(m) is PickDestination {
            DispatchView::Redraw
        } else {
            create_dispatch(new_workspace_route_of(m))
        },
        HitView::NewWorkspaceDestination { server_id } => create_dispatch(
            chosen_route(m, server_id),
        ),
        HitView::ClientGlobalMenuItem { index } => menu_action_dispatch(
            menu_action(index as nat),
        ),
        HitView::Menu => DispatchView::Redraw,
        HitView::AddRemoteSubmit => draft_dispatch(form_key_submits(m, enter_key())),
        HitView::AddRemoteCancel => DispatchView::Redraw,
        HitView::NewWorkspacePickerConfirm => match selected_destination(m) {
            Some(id) => create_dispatch(chosen_route(m, id)),
            None => DispatchView::Consumed,
        },
        HitView::NewWorkspacePickerCancel => DispatchView::Redraw,
        _ => DispatchView::Consumed,
    }
}

/// Handles a mouse report over a target: a press of the left button carries it out, everything
/// else is dropped.
pub fn dispatch_sidebar_hit_target(
    target: SidebarHitTarget,
    model: &mut ClientSupervisorModel,
    mouse: &MouseEvent,
) -> (r: ClientInputDispatch)
    ensures
        mouse.kind == MouseEventKind::Down(MouseButton::Left) ==> r.deep_view() == hit_dispatch(
            old(model)@,
            target.deep_view(),
        ) && final(model)@ == hit_handled(old(model)@, target.deep_view()),
        mouse.kind != MouseEventKind::Down(MouseButton::Left) ==> r is Consumed && final(model)@
            == old(model)@,
{
    if mouse.kind != MouseEventKind::Down(MouseButton::Left) {
        return ClientInputDispatch::Consumed;
    }
    match target {
        SidebarHitTarget::Filter => {
            model.cycle_filter();
            ClientInputDispatch::Redraw
        },
        SidebarHitTarget::Workspace { server_id, workspace_id } => {
            let route: FocusRoute = model.focus_workspace_route(&server_id, workspace_id.as_str());
            focus_request(&route, server_id, "client:workspace-focus")
        },
        SidebarHitTarget::Agent { server_id, agent_id } => {
            let route: FocusRoute = model.focus_agent_route(&server_id, agent_id.as_str());
            focus_request(&route, server_id, "client:agent-focus")
        },
        SidebarHitTarget::New => {
            let route: NewWorkspaceRoute = model.open_new_workspace_picker();
            match &route {
                NewWorkspaceRoute::PickDestination(_) => ClientInputDispatch::Redraw,
                _ => create_request(&route),
            }
        },
        SidebarHitTarget::NewWorkspaceDestination { server_id } => {
            let route: NewWorkspaceRoute = model.choose_new_workspace_destination(&server_id);
            create_request(&route)
        },
        SidebarHitTarget::ClientGlobalMenuItem { index } => {
            let action: Option<ClientGlobalMenuAction> = model.select_client_global_menu_item(
                index,
            );
            dispatch_client_global_menu_action(model, action)
        },
        SidebarHitTarget::Menu => {
            model.open_client_global_menu();
            ClientInputDispatch::Redraw
        },
        SidebarHitTarget::AddRemoteSubmit => {
            let key: TerminalKey = TerminalKey::new(KeyCode::Enter, KeyModifiers::none());
            match model.handle_add_remote_key(key) {
                AddRemoteFormOutcome::Submit(draft) => ClientInputDispatch::AddRemote(draft),
                AddRemoteFormOutcome::Redraw => ClientInputDispatch::Redraw,
            }
        },
        SidebarHitTarget::AddRemoteCancel => {
            model.close_client_overlay();
            ClientInputDispatch::Redraw
        },
        SidebarHitTarget::NewWorkspacePickerConfirm => {
            let route: NewWorkspaceRoute = model.accept_new_workspace_picker();
            create_request(&route)
        },
        SidebarHitTarget::NewWorkspacePickerCancel => {
            model.close_new_workspace_picker();
            ClientInputDispatch::Redraw
        },
        SidebarHitTarget::RemoteManageRow { index } => ClientInputDispatch::Consumed,
        SidebarHitTarget::RemoteManageAdd => ClientInputDispatch::Consumed,
        SidebarHitTarget::RemoteManageConfirmDelete => ClientInputDispatch::Consumed,
        SidebarHitTarget::RemoteManageCancelDelete => ClientInputDispatch::Consumed,
    }
}

/// What a mouse report beside the sidebar comes to: it goes to the server, with its column counted
/// from the content's first one. A plain motion goes as it came.
pub open spec fn content_mouse_dispatch(
    original: Seq<u8>,
    mouse: MouseEvent,
    sidebar_width: u16,
) -> DispatchView {
    if mouse.column < sidebar_width {
        DispatchView::Consumed
    } else {
        match sgr_report(
            mouse.kind,
            (mouse.column - sidebar_width) as u16,
            mouse.row,
            mouse.modifiers,
        ) {
            Some(report) => DispatchView::Forward { data: vstd::utf8::encode_utf8(report) },
            None => DispatchView::Forward { data: original },
        }
    }
}

/// What a mouse report beside the sidebar comes to.
pub fn translate_content_mouse_input(
    original: Vec<u8>,
    mouse: &MouseEvent,
    sidebar_width: u16,
) -> (r: ClientInputDispatch)
    ensures
        r.deep_view() == content_mouse_dispatch(original@, *mouse, sidebar_width),
{
    if mouse.column < sidebar_width {
        return ClientInputDispatch::Consumed;
    }
    let column: u16 = mouse.column - sidebar_width;
    match encode_mouse(mouse.kind, column, mouse.row, mouse.modifiers) {
        Some(report) => ClientInputDispatch::Forward(
            vstd::slice::slice_to_vec(report.as_str().as_bytes()),
        ),
        None => ClientInputDispatch::Forward(original),
    }
}

/// What one event leaves behind: the compositor, the model, and what becomes of the input.
pub struct Dispatched {
    pub compositor: CompositorView,
    pub model: ModelView,
    pub dispatch: DispatchView,
}

/// What a click meets, with everything taken from compositor and model.
pub open spec fn target_under(
    c: CompositorView,
    m: ModelView,
    layout: SidebarLayout,
    mouse: MouseEvent,
    host_size: (u16, u16),
) -> Option<HitView> {
    hit_of(
        c.sidebar_width,
        m,
        rows_shown(c, m),
        agent_routes_of(rows_shown(c, m)),
        layout,
        model_label_rect(
            m,
            crate::compositor::effective_width(c.sidebar_width, host_size.0),
            host_size.1,
        ),
        mouse.column,
        mouse.row,
        host_size.0,
        host_size.1,
    )
}

/// What the mouse is over, with everything taken from compositor and model.
pub open spec fn hover_under(
    c: CompositorView,
    m: ModelView,
    layout: SidebarLayout,
    mouse: MouseEvent,
    host_size: (u16, u16),
) -> Option<SidebarHoverTarget> {
    hover_of(
        c.sidebar_width,
        m,
        rows_shown(c, m),
        agent_routes_of(rows_shown(c, m)),
        layout,
        model_label_rect(
            m,
            crate::compositor::effective_width(c.sidebar_width, host_size.0),
            host_size.1,
        ),
        mouse.column,
        mouse.row,
        host_size.0,
        host_size.1,
    )
}

/// The item of the open menu that the mouse is over.
pub open spec fn menu_item_under_mouse(
    c: CompositorView,
    m: ModelView,
    layout: SidebarLayout,
    mouse: MouseEvent,
    host_size: (u16, u16),
) -> Option<int> {
    if crate::compositor::effective_width(c.sidebar_width, host_size.0) == 0 || host_size.1 == 0 {
        None
    } else {
        open_menu_item(m, layout, mouse.column, mouse.row)
    }
}

/// What a motion of the mouse leaves behind where it changes what is shown: another item of the
/// open menu is highlighted, or another part of the sidebar is under the mouse, or none any more.
pub open spec fn motion_dispatched(
    c: CompositorView,
    m: ModelView,
    layout: SidebarLayout,
    mouse: MouseEvent,
    host_size: (u16, u16),
) -> Option<Dispatched> {
    if mouse.kind != MouseEventKind::Moved {
        None
    } else if highlighted_of(m) is Some {
        let next = menu_hovered(m, menu_item_under_mouse(c, m, layout, mouse, host_size));
        if highlighted_of(next) != highlighted_of(m) {
            Some(Dispatched { compositor: c, model: next, dispatch: DispatchView::Redraw })
        } else {
            None
        }
    } else {
        let hover = hover_under(c, m, layout, mouse, host_size);
        if hover != c.hover {
            Some(
                Dispatched {
                    compositor: CompositorView { hover, ..c },
                    model: m,
                    dispatch: DispatchView::Redraw,
                },
            )
        } else {
            None
        }
    }
}

/// Handles a motion of the mouse; whether it changed what is shown.
fn dispatch_motion(
    compositor: &mut ClientCompositor,
    model: &mut ClientSupervisorModel,
    layout: &SidebarLayout,
    host_size: (u16, u16),
    mouse: &MouseEvent,
) -> (r: bool)
    ensures
        match motion_dispatched(old(compositor)@, old(model)@, *layout, *mouse, host_size) {
            Some(d) => r && final(compositor)@ == d.compositor && final(model)@ == d.model,
            None => !r && final(compositor)@ == old(compositor)@ && final(model)@ == old(model)@,
        },
{
    if mouse.kind != MouseEventKind::Moved {
        return false;
    }
    if model.client_global_menu_highlighted().is_some() {
        let item: Option<usize> = compositor.client_global_menu_item_at(
            model,
            layout,
            mouse.column,
            mouse.row,
            host_size.0,
            host_size.1,
        );
        return model.hover_client_global_menu_item(item);
    }
    let hover: Option<SidebarHoverTarget> = compositor.hover_test(
        model,
        layout,
        mouse.column,
        mouse.row,
        host_size.0,
        host_size.1,
    );
    compositor.set_hover(hover)
}

/// What a mouse report leaves behind: it drags the border, or it moves what is shown under the
/// mouse, or it is about what lies under it, or it goes to the content.
pub open spec fn mouse_dispatched(
    c: CompositorView,
    m: ModelView,
    data: Seq<u8>,
    layout: SidebarLayout,
    mouse: MouseEvent,
    host_size: (u16, u16),
) -> Dispatched {
    match resized(c, mouse, host_size.0, m.ui_settings) {
        Some(next) => {
            let size = content_size_of(next.sidebar_width, host_size.0, host_size.1);
            Dispatched {
                compositor: next,
                model: m,
                dispatch: if mouse.kind == MouseEventKind::Drag(MouseButton::Left) {
                    DispatchView::Resize { cols: size.0, rows: size.1 }
                } else {
                    DispatchView::Redraw
                },
            }
        },
        None => match motion_dispatched(c, m, layout, mouse, host_size) {
            Some(moved) => moved,
            None => match target_under(c, m, layout, mouse, host_size) {
                Some(target) => if mouse.kind == MouseEventKind::Down(MouseButton::Left) {
                    Dispatched {
                        compositor: c,
                        model: hit_handled(m, target),
                        dispatch: hit_dispatch(m, target),
                    }
                } else {
                    Dispatched { compositor: c, model: m, dispatch: DispatchView::Consumed }
                },
                None => Dispatched {
                    compositor: c,
                    model: m,
                    dispatch: content_mouse_dispatch(
                        data,
                        mouse,
                        smaller(c.sidebar_width as int, host_size.0 as int) as u16,
                    ),
                },
            },
        },
    }
}

/// Handles a mouse report.
pub fn dispatch_composited_mouse_input(
    data: Vec<u8>,
    compositor: &mut ClientCompositor,
    model: &mut ClientSupervisorModel,
    layout: &SidebarLayout,
    host_size: (u16, u16),
    mouse: &MouseEvent,
) -> (r: ClientInputDispatch)
    ensures
        (Dispatched {
            compositor: final(compositor)@,
            model: final(model)@,
            dispatch: r.deep_view(),
        }) == mouse_dispatched(
            old(compositor)@,
            old(model)@,
            data@,
            *layout,
            *mouse,
            host_size,
        ),
{
    if let Some((cols, rows)) = compositor.handle_sidebar_resize_mouse(
        mouse,
        host_size.0,
        host_size.1,
        model.ui_settings(),
    ) {
        return if mouse.kind == MouseEventKind::Drag(MouseButton::Left) {
            ClientInputDispatch::Resize { cols, rows }
        } else {
            ClientInputDispatch::Redraw
        };
    }
    if dispatch_motion(compositor, model, layout, host_size, mouse) {
        return ClientInputDispatch::Redraw;
    }
    if let Some(target) = compositor.hit_test(
        model,
        layout,
        mouse.column,
        mouse.row,
        host_size.0,
        host_size.1,
    ) {
        return dispatch_sidebar_hit_target(target, model, mouse);
    }
    let own: u16 = compositor.sidebar_width();
    let sidebar_width: u16 = if own < host_size.0 {
        own
    } else {
        host_size.0
    };
    translate_content_mouse_input(data, mouse, sidebar_width)
}

/// What one event leaves behind while something lies over the sidebar.
pub open spec fn overlay_dispatched(
    c: CompositorView,
    m: ModelView,
    data: Seq<u8>,
    layout: SidebarLayout,
    event: RawInputEvent,
    host_size: (u16, u16),
) -> Dispatched {
    match event {
        RawInputEvent::Mouse(mouse) => mouse_dispatched(c, m, data, layout, mouse, host_size),
        RawInputEvent::Key(key) => if m.overlay is AddRemote {
            Dispatched {
                compositor: c,
                model: form_key_handled(m, key),
                dispatch: draft_dispatch(form_key_submits(m, key)),
            }
        } else if highlighted_of(m) is Some {
            Dispatched {
                compositor: c,
                model: menu_key_handled(m, key),
                dispatch: menu_key_dispatch(m, key),
            }
        } else {
            Dispatched { compositor: c, model: m, dispatch: DispatchView::Consumed }
        },
        RawInputEvent::Paste(pasted) => match m.overlay {
            OverlayView::AddRemote { form } => Dispatched {
                compositor: c,
                model: with_form(
                    m,
                    Some(
                        with_focused_text(
                            form,
                            crate::supervisor::overlay::focused_text(form) + pasted@,
                        ),
                    ),
                ),
                dispatch: DispatchView::Redraw,
            },
            _ => Dispatched { compositor: c, model: m, dispatch: DispatchView::Consumed },
        },
        RawInputEvent::Unknown => Dispatched {
            compositor: c,
            model: m,
            dispatch: DispatchView::Consumed,
        },
    }
}

/// Whether what an event came to ends the handling of the input.
pub open spec fn ends_input(dispatch: DispatchView) -> bool {
    dispatch is AddRemote || dispatch is ApiRequest || dispatch is ServerControl
        || dispatch is Resize || dispatch is DetachAll
}

/// Whether a layout may be what `layout_of` gives for compositor and model.
pub open spec fn is_layout<F>(
    layout_of: F,
    c: CompositorView,
    m: ModelView,
    layout: SidebarLayout,
) -> bool where F: Fn(&ClientCompositor, &ClientSupervisorModel) -> SidebarLayout {
    exists|compositor: &ClientCompositor, model: &ClientSupervisorModel|
        compositor@ == c && model@ == m && #[trigger] call_ensures(
            layout_of,
            (compositor, model),
            layout,
        )
}

/// Whether the events, in order, may leave this behind. The first one that ends the input decides;
/// else the input asks for a redraw where one of them did.
pub open spec fn events_leave<F>(
    layout_of: F,
    c: CompositorView,
    m: ModelView,
    data: Seq<u8>,
    events: Seq<RawInputEvent>,
    host_size: (u16, u16),
    so_far: DispatchView,
    result: Dispatched,
) -> bool where F: Fn(&ClientCompositor, &ClientSupervisorModel) -> SidebarLayout
    decreases events.len(),
{
    if events.len() == 0 {
        result == (Dispatched { compositor: c, model: m, dispatch: so_far })
    } else {
        exists|layout: SidebarLayout| #[trigger]
            is_layout(layout_of, c, m, layout) && {
                let next = overlay_dispatched(c, m, data, layout, events[0], host_size);
                if ends_input(next.dispatch) {
                    result == next
                } else {
                    events_leave(
                        layout_of,
                        next.compositor,
                        next.model,
                        data,
                        events.drop_first(),
                        host_size,
                        if next.dispatch is Redraw {
                            DispatchView::Redraw
                        } else {
                            so_far
                        },
                        result,
                    )
                }
            }
    }
}

/// Handles one event while something lies over the sidebar.
fn dispatch_overlay_event(
    data: &Vec<u8>,
    event: &RawInputEvent,
    compositor: &mut ClientCompositor,
    model: &mut ClientSupervisorModel,
    layout: &SidebarLayout,
    host_size: (u16, u16),
) -> (r: ClientInputDispatch)
    ensures
        (Dispatched {
            compositor: final(compositor)@,
            model: final(model)@,
            dispatch: r.deep_view(),
        }) == overlay_dispatched(
            old(compositor)@,
            old(model)@,
            data@,
            *layout,
            *event,
            host_size,
        ),
{
    match event {
        RawInputEvent::Mouse(mouse) => {
            let copy: Vec<u8> = vstd::slice::slice_to_vec(data.as_slice());
            dispatch_composited_mouse_input(copy, compositor, model, layout, host_size, mouse)
        },
        RawInputEvent::Key(key) => {
            if model.add_remote_form().is_some() {
                match model.handle_add_remote_key(*key) {
                    AddRemoteFormOutcome::Redraw => ClientInputDispatch::Redraw,
                    AddRemoteFormOutcome::Submit(draft) => ClientInputDispatch::AddRemote(draft),
                }
            } else if model.client_global_menu_highlighted().is_some() {
                dispatch_client_global_menu_key(model, *key)
            } else {
                ClientInputDispatch::Consumed
            }
        },
        RawInputEvent::Paste(pasted) => {
            if model.add_remote_form().is_some() {
                match model.append_add_remote_paste(pasted.as_str()) {
                    AddRemoteFormOutcome::Redraw => ClientInputDispatch::Redraw,
                    AddRemoteFormOutcome::Submit(draft) => ClientInputDispatch::AddRemote(draft),
                }
            } else {
                ClientInputDispatch::Consumed
            }
        },
        RawInputEvent::Unknown => ClientInputDispatch::Consumed,
    }
}

fn is_end(dispatch: &ClientInputDispatch) -> (r: bool)
    ensures
        r == ends_input(dispatch.deep_view()),
{
    match dispatch {
        ClientInputDispatch::AddRemote(_) => true,
        ClientInputDispatch::ApiRequest { server_id, refresh, request } => true,
        ClientInputDispatch::ServerControl { server_id, message } => true,
        ClientInputDispatch::Resize { cols, rows } => true,
        ClientInputDispatch::DetachAll => true,
        _ => false,
    }
}

/// Handles input while something lies over the sidebar. `layout_of` says where everything lies,
/// which the events may change.
pub fn dispatch_client_overlay_input<F>(
    data: Vec<u8>,
    events: &Vec<RawInputEvent>,
    compositor: &mut ClientCompositor,
    model: &mut ClientSupervisorModel,
    host_size: (u16, u16),
    layout_of: F,
) -> (r: ClientInputDispatch) where
    F: Fn(&ClientCompositor, &ClientSupervisorModel) -> SidebarLayout,

    requires
        forall|c: &ClientCompositor, m: &ClientSupervisorModel| #[trigger]
            call_requires(layout_of, (c, m)),
    ensures
        events_leave(
            layout_of,
            old(compositor)@,
            old(model)@,
            data@,
            events@,
            host_size,
            DispatchView::Consumed,
            (Dispatched {
                compositor: final(compositor)@,
                model: final(model)@,
                dispatch: r.deep_view(),
            }),
        ),
{
    let ghost c0 = compositor@;
    let ghost m0 = model@;
    let mut redraw: bool = false;
    let mut i: usize = 0;
    assert(events@.skip(0) =~= events@);
    while i < events.len()
        invariant
            i <= events@.len(),
            c0 == old(compositor)@,
            m0 == old(model)@,
            forall|c: &ClientCompositor, m: &ClientSupervisorModel| #[trigger]
                call_requires(layout_of, (c, m)),
            forall|result: Dispatched|
                #![trigger events_leave(layout_of, c0, m0, data@, events@, host_size, DispatchView::Consumed, result)]
                events_leave(
                    layout_of,
                    compositor@,
                    model@,
                    data@,
                    events@.skip(i as int),
                    host_size,
                    (if redraw {
                        DispatchView::Redraw
                    } else {
                        DispatchView::Consumed
                    }),
                    result,
                ) ==> events_leave(
                    layout_of,
                    c0,
                    m0,
                    data@,
                    events@,
                    host_size,
                    DispatchView::Consumed,
                    result,
                ),
        decreases events@.len() - i,
    {
        let ghost c = compositor@;
        let ghost m = model@;
        let ghost rest = events@.skip(i as int);
        let ghost so_far = if redraw {
            DispatchView::Redraw
        } else {
            DispatchView::Consumed
        };
        assert(rest[0] == events@[i as int]);
        assert(rest.drop_first() =~= events@.skip(i + 1));
        let layout: SidebarLayout = layout_of(compositor, model);
        assert(is_layout(layout_of, c, m, layout));
        let next: ClientInputDispatch = dispatch_overlay_event(
            &data,
            &events[i],
            compositor,
            model,
            &layout,
            host_size,
        );
        let ghost left = overlay_dispatched(c, m, data@, layout, rest[0], host_size);
        if is_end(&next) {
            assert(events_leave(
                layout_of,
                c,
                m,
                data@,
                rest,
                host_size,
                so_far,
                (Dispatched {
                    compositor: compositor@,
                    model: model@,
                    dispatch: next.deep_view(),
                }),
            ));
            return next;
        }
        let asks: bool = match &next {
            ClientInputDispatch::Redraw => true,
            _ => false,
        };
        if asks {
            redraw = true;
        }
        proof {
            let now = if redraw {
                DispatchView::Redraw
            } else {
                DispatchView::Consumed
            };
            assert forall|result: Dispatched|
                #![trigger events_leave(layout_of, c0, m0, data@, events@, host_size, DispatchView::Consumed, result)]
                events_leave(
                    layout_of,
                    compositor@,
                    model@,
                    data@,
                    events@.skip(i + 1),
                    host_size,
                    now,
                    result,
                ) implies events_leave(
                layout_of,
                c0,
                m0,
                data@,
                events@,
                host_size,
                DispatchView::Consumed,
                result,
            ) by {
                assert(is_layout(layout_of, c, m, layout));
                assert(events_leave(
                    layout_of,
                    c,
                    m,
                    data@,
                    rest,
                    host_size,
                    so_far,
                    result,
                ));
            }
        }
        i = i + 1;
    }
    assert(events@.skip(i as int) =~= Seq::<RawInputEvent>::empty());
    if redraw {
        ClientInputDispatch::Redraw
    } else {
        ClientInputDispatch::Consumed
    }
}

/// Whether input may leave this behind: what lies over the sidebar takes it first; else a single
/// mouse report is the sidebar's, and everything else goes to the server.
pub open spec fn input_leaves<F>(
    layout_of: F,
    c: CompositorView,
    m: ModelView,
    data: Seq<u8>,
    events: Seq<RawInputEvent>,
    host_size: (u16, u16),
    left: Dispatched,
) -> bool where F: Fn(&ClientCompositor, &ClientSupervisorModel) -> SidebarLayout {
    if m.overlay is AddRemote || highlighted_of(m) is Some {
        events_leave(layout_of, c, m, data, events, host_size, DispatchView::Consumed, left)
    } else if events.len() == 1 && events[0] is Mouse {
        exists|layout: SidebarLayout| #[trigger]
            is_layout(layout_of, c, m, layout) && left == mouse_dispatched(
                c,
                m,
                data,
                layout,
                events[0]->Mouse_0,
                host_size,
            )
    } else {
        left == (Dispatched { compositor: c, model: m, dispatch: DispatchView::Forward { data } })
    }
}

/// Handles input while the client shows its own sidebar.
pub fn dispatch_composited_input<F>(
    data: Vec<u8>,
    events: &Vec<RawInputEvent>,
    compositor: &mut ClientCompositor,
    model: &mut ClientSupervisorModel,
    host_size: (u16, u16),
    layout_of: F,
) -> (r: ClientInputDispatch) where
    F: Fn(&ClientCompositor, &ClientSupervisorModel) -> SidebarLayout,

    requires
        forall|c: &ClientCompositor, m: &ClientSupervisorModel| #[trigger]
            call_requires(layout_of, (c, m)),
    ensures
        input_leaves(
            layout_of,
            old(compositor)@,
            old(model)@,
            data@,
            events@,
            host_size,
            (Dispatched {
                compositor: final(compositor)@,
                model: final(model)@,
                dispatch: r.deep_view(),
            }),
        ),
{
    if model.add_remote_form().is_some() || model.client_global_menu_highlighted().is_some() {
        return dispatch_client_overlay_input(
            data,
            events,
            compositor,
            model,
            host_size,
            layout_of,
        );
    }
    if events.len() != 1 {
        return ClientInputDispatch::Forward(data);
    }
    match &events[0] {
        RawInputEvent::Mouse(mouse) => {
            let ghost c = compositor@;
            let ghost m = model@;
            let layout: SidebarLayout = layout_of(compositor, model);
            assert(is_layout(layout_of, c, m, layout));
            dispatch_composited_mouse_input(data, compositor, model, &layout, host_size, mouse)
        },
        _ => ClientInputDispatch::Forward(data),
    }
}

/// Nothing that a click meets, and no key in the menu, makes a valid model invalid.
pub proof fn law_input_keeps_valid(m: ModelView, target: HitView, key: TerminalKey)
    requires
        valid(m),
        target is ClientGlobalMenuItem ==> target->ClientGlobalMenuItem_index >= 0,
    ensures
        valid(hit_handled(m, target)),
        valid(menu_key_handled(m, key)),
{
    lemma_main_active(m);
    assert(menu_items().len() == 5);
    match target {
        HitView::Filter => law_filter_keeps_valid(m, None),
        HitView::Workspace { server_id, workspace_id } => law_focus_keeps_valid(
            m,
            server_id,
            workspace_id,
        ),
        HitView::Agent { server_id, agent_id } => law_focus_keeps_valid(m, server_id, agent_id),
        HitView::New => law_picker_keeps_valid(m, main_id()),
        HitView::NewWorkspaceDestination { server_id } => law_picker_keeps_valid(m, server_id),
        HitView::ClientGlobalMenuItem { index } => {
            law_overlays_keep_valid(m, index as nat, 0, key);
            lemma_main_active(menu_selected(m, index as nat));
        },
        HitView::NewWorkspacePickerConfirm => match selected_destination(m) {
            Some(id) => law_picker_keeps_valid(m, id),
            None => {},
        },
        HitView::Menu => law_overlays_keep_valid(m, 0, 0, key),
        HitView::AddRemoteSubmit => law_overlays_keep_valid(m, 0, 0, enter_key()),
        HitView::AddRemoteCancel => law_overlays_keep_valid(m, 0, 0, key),
        _ => {},
    }
    match highlighted_of(m) {
        Some(h) => {
            law_overlays_keep_valid(m, h, 0, key);
            lemma_main_active(menu_selected(m, h));
            law_overlays_keep_valid(
                m,
                h,
                if h + 1 < 5 {
                    h + 1
                } else {
                    4
                },
                key,
            );
            law_overlays_keep_valid(
                m,
                h,
                if h > 0 {
                    (h - 1) as nat
                } else {
                    0
                },
                key,
            );
        },
        None => law_overlays_keep_valid(m, 0, 0, key),
    }
}

proof fn lemma_main_active(m: ModelView)
    ensures
        valid(m) ==> valid(main_activated(m)),
{
    if valid(m) {
        law_activation_keeps_valid(m, m.active);
    }
}

proof fn lemma_mouse_keeps_valid(
    c: CompositorView,
    m: ModelView,
    data: Seq<u8>,
    layout: SidebarLayout,
    mouse: MouseEvent,
    host_size: (u16, u16),
)
    requires
        valid(m),
    ensures
        valid(mouse_dispatched(c, m, data, layout, mouse, host_size).model),
{
    assert(menu_items().len() == 5);
    match menu_item_under_mouse(c, m, layout, mouse, host_size) {
        Some(i) => if 0 <= i < 5 {
            law_overlays_keep_valid(m, 0, i as nat, enter_key());
        },
        None => {},
    }
    match target_under(c, m, layout, mouse, host_size) {
        Some(target) => law_input_keeps_valid(m, target, enter_key()),
        None => {},
    }
}

/// A motion of the mouse asks no server for anything, and one that stays where it is draws
/// nothing and changes nothing.
pub proof fn law_motion_draws_only_on_a_change(
    c: CompositorView,
    m: ModelView,
    data: Seq<u8>,
    layout: SidebarLayout,
    mouse: MouseEvent,
    host_size: (u16, u16),
)
    requires
        mouse.kind == MouseEventKind::Moved,
    ensures
        ({
            let first = mouse_dispatched(c, m, data, layout, mouse, host_size);
            let second = mouse_dispatched(
                first.compositor,
                first.model,
                data,
                layout,
                mouse,
                host_size,
            );
            &&& !ends_input(first.dispatch)
            &&& !(second.dispatch is Redraw)
            &&& second.compositor == first.compositor
            &&& second.model == first.model
            &&& highlighted_of(m) is None ==> first.compositor.hover == hover_under(
                c,
                m,
                layout,
                mouse,
                host_size,
            )
        }),
{
    assert(menu_items().len() == 5);
    let first = mouse_dispatched(c, m, data, layout, mouse, host_size);
    assert(rows_shown(first.compositor, m) == rows_shown(c, m));
}

proof fn lemma_event_keeps_valid(
    c: CompositorView,
    m: ModelView,
    data: Seq<u8>,
    layout: SidebarLayout,
    event: RawInputEvent,
    host_size: (u16, u16),
)
    requires
        valid(m),
    ensures
        valid(overlay_dispatched(c, m, data, layout, event, host_size).model),
{
    match event {
        RawInputEvent::Mouse(mouse) => lemma_mouse_keeps_valid(
            c,
            m,
            data,
            layout,
            mouse,
            host_size,
        ),
        RawInputEvent::Key(key) => {
            assert(menu_items().len() == 5);
            law_overlays_keep_valid(m, 0, 0, key);
            law_input_keeps_valid(m, HitView::Filter, key);
        },
        _ => {},
    }
}

proof fn lemma_events_keep_valid<F>(
    layout_of: F,
    c: CompositorView,
    m: ModelView,
    data: Seq<u8>,
    events: Seq<RawInputEvent>,
    host_size: (u16, u16),
    so_far: DispatchView,
    result: Dispatched,
) where F: Fn(&ClientCompositor, &ClientSupervisorModel) -> SidebarLayout
    requires
        valid(m),
        events_leave(layout_of, c, m, data, events, host_size, so_far, result),
    ensures
        valid(result.model),
    decreases events.len(),
{
    if events.len() > 0 {
        let layout = choose|layout: SidebarLayout| #[trigger]
            is_layout(layout_of, c, m, layout) && {
                let next = overlay_dispatched(c, m, data, layout, events[0], host_size);
                if ends_input(next.dispatch) {
                    result == next
                } else {
                    events_leave(
                        layout_of,
                        next.compositor,
                        next.model,
                        data,
                        events.drop_first(),
                        host_size,
                        if next.dispatch is Redraw {
                            DispatchView::Redraw
                        } else {
                            so_far
                        },
                        result,
                    )
                }
            };
        let next = overlay_dispatched(c, m, data, layout, events[0], host_size);
        lemma_event_keeps_valid(c, m, data, layout, events[0], host_size);
        if !ends_input(next.dispatch) {
            lemma_events_keep_valid(
                layout_of,
                next.compositor,
                next.model,
                data,
                events.drop_first(),
                host_size,
                if next.dispatch is Redraw {
                    DispatchView::Redraw
                } else {
                    so_far
                },
                result,
            );
        }
    }
}

/// No input at all makes a valid model invalid, wherever the sidebar shows things.
pub proof fn law_any_input_keeps_valid<F>(
    layout_of: F,
    c: CompositorView,
    m: ModelView,
    data: Seq<u8>,
    events: Seq<RawInputEvent>,
    host_size: (u16, u16),
    left: Dispatched,
) where F: Fn(&ClientCompositor, &ClientSupervisorModel) -> SidebarLayout
    requires
        valid(m),
        input_leaves(layout_of, c, m, data, events, host_size, left),
    ensures
        valid(left.model),
{
    if m.overlay is AddRemote || highlighted_of(m) is Some {
        lemma_events_keep_valid(
            layout_of,
            c,
            m,
            data,
            events,
            host_size,
            DispatchView::Consumed,
            left,
        );
    } else if events.len() == 1 && events[0] is Mouse {
        let mouse = events[0]->Mouse_0;
        let layout = choose|layout: SidebarLayout| #[trigger]
            is_layout(layout_of, c, m, layout) && left == mouse_dispatched(
                c,
                m,
                data,
                layout,
                mouse,
                host_size,
            );
        lemma_mouse_keeps_valid(c, m, data, layout, mouse, host_size);
    }
}

/// The items of the menu ask the main server, whichever server is active.
pub proof fn law_menu_asks_the_main_server(action: Option<ClientGlobalMenuAction>)
    ensures
        match menu_action_dispatch(action) {
            DispatchView::ServerControl { server_id, ask } => server_id == main_id(),
            DispatchView::ApiRequest { server_id, refresh, id, ask } => server_id == main_id(),
            _ => true,
        },
{
}

} // verus!
