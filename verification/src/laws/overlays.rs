//! What the keys and the mouse do to the menu, to the form for a new remote and to the list of
//! destinations.

use vstd::prelude::*;

use crate::dispatch::{
    hit_dispatch, hit_handled, menu_action_dispatch, menu_key_dispatch, menu_key_handled,
    overlay_dispatched, AskView, ClientApiRefreshPolicy, DispatchView,
};
use crate::compositor::CompositorView;
use crate::input::{KeyCode, KeyModifiers, RawInputEvent, TerminalKey};
use crate::layout::{HitView, SidebarLayout};
use crate::remote_registry::RemoteKeybindingsSnapshot;
use crate::supervisor::overlay::{
    draft_of, form_after_key, form_key_handled, form_key_submits, highlighted_of, menu_action,
    menu_items, submitted_by_key, ClientGlobalMenuAction,
};
use crate::supervisor::routes::{
    agent_focus_of, new_workspace_route_of, workspace_focus_of, NewWorkspaceView,
};
use crate::supervisor::{AddRemoteField, FormView, ModelView, OverlayView};
use crate::text::trim_spec;

verus! {

/// The menu names its actions in order, and choosing an item does what it names.
pub proof fn law_menu_names_its_actions(index: nat)
    ensures
        menu_items().len() == 5,
        menu_action(0) == Some(ClientGlobalMenuAction::Settings) && menu_items()[0] == "settings"@,
        menu_action(1) == Some(ClientGlobalMenuAction::Keybinds) && menu_items()[1] == "keybinds"@,
        menu_action(2) == Some(ClientGlobalMenuAction::ReloadConfig) && menu_items()[2]
            == "reload config"@,
        menu_action(3) == Some(ClientGlobalMenuAction::Detach) && menu_items()[3] == "detach"@,
        menu_action(4) == Some(ClientGlobalMenuAction::AddRemote) && menu_items()[4]
            == "add remote"@,
        menu_action(index) is Some <==> index < menu_items().len(),
{
}

/// Each action of the menu asks for its own thing: the settings and the keys of the main server
/// are opened there, its configuration is read again and shown at once, detaching leaves every
/// server, and a new remote is asked for in a form.
pub proof fn law_menu_action_asks_for_its_thing()
    ensures
        menu_action_dispatch(Some(ClientGlobalMenuAction::Settings)) == (
        DispatchView::ServerControl { server_id: "main"@, ask: AskView::OpenSettings }),
        menu_action_dispatch(Some(ClientGlobalMenuAction::Keybinds)) == (
        DispatchView::ServerControl { server_id: "main"@, ask: AskView::OpenKeybindHelp }),
        menu_action_dispatch(Some(ClientGlobalMenuAction::ReloadConfig)) == (
        DispatchView::ApiRequest {
            server_id: "main"@,
            refresh: ClientApiRefreshPolicy::Immediate,
            id: "client:reload-config"@,
            ask: AskView::ReloadConfig,
        }),
        menu_action_dispatch(Some(ClientGlobalMenuAction::Detach)) == DispatchView::DetachAll,
        menu_action_dispatch(Some(ClientGlobalMenuAction::AddRemote)) == DispatchView::Redraw,
        menu_action_dispatch(None) == DispatchView::Consumed,
{
}

/// A press of the return key on the highlighted item does what a click on that item does.
pub proof fn law_menu_key_and_click_agree(m: ModelView, key: TerminalKey, index: nat)
    requires
        m.overlay == (OverlayView::GlobalMenu { highlighted: index }),
        key.code is Enter,
        key.kind is Press,
    ensures
        menu_key_handled(m, key) == hit_handled(
            m,
            HitView::ClientGlobalMenuItem { index: index as int },
        ),
        menu_key_dispatch(m, key) == hit_dispatch(
            m,
            HitView::ClientGlobalMenuItem { index: index as int },
        ),
{
}

/// What the menu leaves behind: the form for a new remote where that was chosen, and nothing open
/// else; the settings and the keys are shown on the main server, and nothing else moves.
pub proof fn law_menu_choice_closes_the_menu(m: ModelView, index: nat)
    requires
        index < 5,
    ensures
        ({
            let after = hit_handled(m, HitView::ClientGlobalMenuItem { index: index as int });
            &&& index == 4 ==> after.overlay == (OverlayView::AddRemote {
                form: FormView {
                    target: Seq::empty(),
                    name: Seq::empty(),
                    focused_field: AddRemoteField::Target,
                    error: None,
                },
            }) && after.picker is None
            &&& index != 4 ==> after.overlay is Closed
            &&& index == 0 || index == 1 ==> after.active == "main"@
            &&& index >= 2 ==> after.active == m.active
            &&& after.servers == m.servers
            &&& after.filter == m.filter
            &&& after.ui_settings == m.ui_settings
            &&& after.adding == m.adding
        }),
{
}

/// The arrow keys, and `k` and `j`, move the highlight by one and stop at the menu's ends; the
/// escape key closes it; any other key but return leaves it, and a key that is let go does
/// nothing.
pub proof fn law_menu_keys(m: ModelView, key: TerminalKey, index: nat)
    requires
        m.overlay == (OverlayView::GlobalMenu { highlighted: index }),
        index < 5,
    ensures
        key.kind is Release ==> menu_key_handled(m, key) == m && menu_key_dispatch(m, key)
            == DispatchView::Consumed,
        !(key.kind is Release) ==> {
            let after = menu_key_handled(m, key);
            let dispatch = menu_key_dispatch(m, key);
            &&& key.code is Up || key.code == KeyCode::Char('k') ==> {
                &&& index > 0 ==> highlighted_of(after) == Some((index - 1) as nat)
                &&& index == 0 ==> highlighted_of(after) == Some(0nat)
                &&& dispatch == DispatchView::Redraw
            }
            &&& key.code is Down || key.code == KeyCode::Char('j') ==> {
                &&& index < 4 ==> highlighted_of(after) == Some(index + 1)
                &&& index == 4 ==> highlighted_of(after) == Some(4nat)
                &&& dispatch == DispatchView::Redraw
            }
            &&& key.code is Esc ==> after == (ModelView { overlay: OverlayView::Closed, ..m })
                && dispatch == DispatchView::Redraw
            &&& key.code is Tab || key.code is Backspace || key.code is PageUp
                || key.code is PageDown || key.code is Other || (key.code is Char && key.code
                != KeyCode::Char('k') && key.code != KeyCode::Char('j')) ==> after == m
                && dispatch == DispatchView::Consumed
        },
{
}

/// The text of the field that has the focus.
pub open spec fn text_in_focus(form: FormView) -> Seq<char> {
    if form.focused_field is Target {
        form.target
    } else {
        form.name
    }
}

/// The text of the other field.
pub open spec fn text_out_of_focus(form: FormView) -> Seq<char> {
    if form.focused_field is Target {
        form.name
    } else {
        form.target
    }
}

/// Whether no modifier but shift is held.
pub open spec fn only_shift(modifiers: KeyModifiers) -> bool {
    !modifiers.control && !modifiers.alt && !modifiers.super_key && !modifiers.hyper
        && !modifiers.meta
}

/// The form's keys: a character is typed at the end of the field with the focus, the backspace key
/// takes one off it, `u` with control empties it, tab and the arrows change the field, escape
/// closes the form; what was wrong before is forgotten as soon as something is typed.
pub proof fn law_form_keys(form: FormView, key: TerminalKey)
    requires
        !(key.kind is Release),
    ensures
        ({
            let after = form_after_key(form, key);
            &&& key.code is Esc ==> after is None
            &&& !(key.code is Esc) ==> after is Some
            &&& key.code is Char && only_shift(key.modifiers) ==> {
                &&& text_in_focus(after->0) == text_in_focus(form).push(key.code->Char_0)
                &&& text_out_of_focus(after->0) == text_out_of_focus(form)
                &&& after->0.focused_field == form.focused_field
                &&& after->0.error is None
            }
            &&& key.code == KeyCode::Char('u') && key.modifiers.control ==> {
                &&& text_in_focus(after->0).len() == 0
                &&& text_out_of_focus(after->0) == text_out_of_focus(form)
                &&& after->0.focused_field == form.focused_field
                &&& after->0.error is None
            }
            &&& key.code is Char && key.code != KeyCode::Char('u') && !only_shift(key.modifiers)
                ==> after->0 == form
            &&& key.code is Backspace ==> {
                &&& text_in_focus(form).len() > 0 ==> text_in_focus(after->0).push(
                    text_in_focus(form).last(),
                ) == text_in_focus(form)
                &&& text_in_focus(form).len() == 0 ==> text_in_focus(after->0).len() == 0
                &&& text_out_of_focus(after->0) == text_out_of_focus(form)
                &&& after->0.focused_field == form.focused_field
                &&& after->0.error is None
            }
            &&& key.code is Tab || key.code is Up || key.code is Down ==> {
                &&& after->0.focused_field != form.focused_field
                &&& after->0.target == form.target
                &&& after->0.name == form.name
                &&& after->0.error is None
            }
            &&& key.code is Enter ==> {
                &&& after->0.target == form.target
                &&& after->0.name == form.name
                &&& after->0.focused_field == form.focused_field
                &&& trim_spec(form.target).len() == 0 ==> after->0.error == Some(
                    "target required"@,
                )
                &&& trim_spec(form.target).len() > 0 ==> after->0.error == form.error
            }
        }),
{
    if key.code is Backspace && text_in_focus(form).len() > 0 {
        let text = text_in_focus(form);
        assert(text.drop_last().push(text.last()) =~= text);
    }
}

/// A key that is let go does nothing to the form, and only the return key submits it.
pub proof fn law_form_ignores_released_keys(form: FormView, key: TerminalKey)
    ensures
        key.kind is Release ==> form_after_key(form, key) == Some(form),
        key.kind is Release || !(key.code is Enter) ==> submitted_by_key(form, key) is None,
        !(key.kind is Release) && key.code is Enter ==> (submitted_by_key(form, key) is Some <==>
            trim_spec(form.target).len() > 0),
{
}

/// A key for the form does nothing where no form is open, except escape, which closes whatever is.
pub proof fn law_form_keys_need_a_form(m: ModelView, key: TerminalKey)
    requires
        !(m.overlay is AddRemote),
    ensures
        form_key_submits(m, key) is None,
        key.kind is Release || !(key.code is Esc) ==> form_key_handled(m, key) == m,
        !(key.kind is Release) && key.code is Esc ==> form_key_handled(m, key) == (ModelView {
            overlay: OverlayView::Closed,
            ..m
        }),
{
}

/// What is typed and taken back leaves the text as it was, and changing the field twice comes back
/// to the first.
pub proof fn law_typing_can_be_undone(form: FormView, key: TerminalKey, undo: TerminalKey)
    requires
        !(key.kind is Release),
        !(undo.kind is Release),
    ensures
        key.code is Char && only_shift(key.modifiers) && undo.code is Backspace ==> {
            let after = form_after_key(form_after_key(form, key)->0, undo)->0;
            after.target == form.target && after.name == form.name && after.focused_field
                == form.focused_field
        },
        key.code is Tab && undo.code is Tab ==> {
            let after = form_after_key(form_after_key(form, key)->0, undo)->0;
            after.target == form.target && after.name == form.name && after.focused_field
                == form.focused_field
        },
{
    if key.code is Char && only_shift(key.modifiers) && undo.code is Backspace {
        let text = text_in_focus(form);
        assert(text.push(key.code->Char_0).drop_last() =~= text);
    }
}

/// What is submitted is what was typed, without space around it; a blank name is none, and the new
/// remote obeys this client's keys.
pub proof fn law_submitted_remote_is_what_was_typed(form: FormView)
    ensures
        match draft_of(form) {
            Some(draft) => {
                &&& trim_spec(form.target).len() > 0
                &&& draft.target == trim_spec(form.target)
                &&& trim_spec(form.name).len() > 0 ==> draft.name == Some(trim_spec(form.name))
                &&& trim_spec(form.name).len() == 0 ==> draft.name is None
                &&& draft.keybindings == RemoteKeybindingsSnapshot::Local
            },
            None => trim_spec(form.target).len() == 0,
        },
{
}

/// The form's two buttons do what its keys do: one what a press of return does, the other what
/// escape does.
pub proof fn law_form_buttons_and_keys_agree(m: ModelView, enter: TerminalKey, escape: TerminalKey)
    requires
        enter.code is Enter,
        enter.kind is Press,
        enter.modifiers == crate::input::no_modifiers(),
        escape.code is Esc,
        escape.kind is Press,
    ensures
        hit_handled(m, HitView::AddRemoteSubmit) == form_key_handled(m, enter),
        hit_dispatch(m, HitView::AddRemoteSubmit) == (match form_key_submits(m, enter) {
            Some(draft) => DispatchView::AddRemote { draft },
            None => DispatchView::Redraw,
        }),
        hit_handled(m, HitView::AddRemoteCancel) == form_key_handled(m, escape),
        hit_handled(m, HitView::AddRemoteCancel).overlay is Closed,
        hit_dispatch(m, HitView::AddRemoteCancel) == DispatchView::Redraw,
{
}

/// What is pasted over the form comes to the end of the field with the focus; pasted over
/// anything else that is open it goes nowhere.
pub proof fn law_paste_goes_to_the_field(
    c: CompositorView,
    m: ModelView,
    data: Seq<u8>,
    layout: SidebarLayout,
    text: String,
    host_size: (u16, u16),
)
    ensures
        ({
            let after = overlay_dispatched(
                c,
                m,
                data,
                layout,
                RawInputEvent::Paste(text),
                host_size,
            );
            &&& m.overlay is AddRemote ==> {
                let form = m.overlay->AddRemote_form;
                &&& after.model.overlay is AddRemote
                &&& text_in_focus(after.model.overlay->AddRemote_form) == text_in_focus(form)
                    + text@
                &&& text_out_of_focus(after.model.overlay->AddRemote_form) == text_out_of_focus(
                    form,
                )
                &&& after.model.overlay->AddRemote_form.focused_field == form.focused_field
                &&& after.dispatch == DispatchView::Redraw
                &&& after.model == (ModelView { overlay: after.model.overlay, ..m })
            }
            &&& !(m.overlay is AddRemote) ==> after.model == m && after.dispatch
                == DispatchView::Consumed
            &&& after.compositor == c
        }),
{
}

/// Keys go to what is open and nowhere else: to the form, to the menu, and to none where neither
/// is open.
pub proof fn law_keys_go_to_what_is_open(
    c: CompositorView,
    m: ModelView,
    data: Seq<u8>,
    layout: SidebarLayout,
    key: TerminalKey,
    host_size: (u16, u16),
)
    ensures
        ({
            let after = overlay_dispatched(c, m, data, layout, RawInputEvent::Key(key), host_size);
            &&& after.compositor == c
            &&& m.overlay is AddRemote ==> after.model == form_key_handled(m, key)
            &&& m.overlay is AddRemote && form_key_submits(m, key) is Some ==> after.dispatch == (
            DispatchView::AddRemote { draft: form_key_submits(m, key)->0 })
            &&& m.overlay is AddRemote && form_key_submits(m, key) is None ==> after.dispatch
                == DispatchView::Redraw
            &&& m.overlay is GlobalMenu ==> after.model == menu_key_handled(m, key)
                && after.dispatch == menu_key_dispatch(m, key)
            &&& m.overlay is Closed ==> after.model == m && after.dispatch
                == DispatchView::Consumed
            &&& after.model.servers == m.servers
            &&& after.model.filter == m.filter
        }),
{
}

/// A click on a workspace or an agent asks its own server for it, and only where that server can
/// be asked: the request names what was clicked, and the summaries are read again later.
pub proof fn law_click_asks_for_what_was_clicked(
    m: ModelView,
    server_id: Seq<char>,
    target: Seq<char>,
)
    ensures
        workspace_focus_of(m, server_id, target) is Workspace ==> hit_dispatch(
            m,
            HitView::Workspace { server_id, workspace_id: target },
        ) == (DispatchView::ApiRequest {
            server_id,
            refresh: ClientApiRefreshPolicy::Deferred,
            id: "client:workspace-focus"@,
            ask: AskView::FocusWorkspace { workspace_id: target },
        }),
        !(workspace_focus_of(m, server_id, target) is Workspace) ==> hit_dispatch(
            m,
            HitView::Workspace { server_id, workspace_id: target },
        ) == DispatchView::Consumed && hit_handled(
            m,
            HitView::Workspace { server_id, workspace_id: target },
        ) == m,
        agent_focus_of(m, server_id, target) is Agent ==> hit_dispatch(
            m,
            HitView::Agent { server_id, agent_id: target },
        ) == (DispatchView::ApiRequest {
            server_id,
            refresh: ClientApiRefreshPolicy::Deferred,
            id: "client:agent-focus"@,
            ask: AskView::FocusAgent { target },
        }),
        !(agent_focus_of(m, server_id, target) is Agent) ==> hit_dispatch(
            m,
            HitView::Agent { server_id, agent_id: target },
        ) == DispatchView::Consumed && hit_handled(
            m,
            HitView::Agent { server_id, agent_id: target },
        ) == m,
{
}

/// A click on the button for a new workspace asks the one server that it can go to, or opens the
/// list of the servers where there are several, or does nothing where there is none.
pub proof fn law_new_button(m: ModelView)
    ensures
        match new_workspace_route_of(m) {
            NewWorkspaceView::CreateOn { server_id } => {
                &&& hit_dispatch(m, HitView::New) == (DispatchView::ApiRequest {
                    server_id,
                    refresh: ClientApiRefreshPolicy::Immediate,
                    id: "client:workspace-create"@,
                    ask: AskView::CreateWorkspace,
                })
                &&& hit_handled(m, HitView::New).active == server_id
                &&& hit_handled(m, HitView::New).picker is None
            },
            NewWorkspaceView::PickDestination { destinations } => {
                &&& hit_dispatch(m, HitView::New) == DispatchView::Redraw
                &&& hit_handled(m, HitView::New).picker is Some
                &&& hit_handled(m, HitView::New).picker->0.destinations == destinations
                &&& hit_handled(m, HitView::New).picker->0.selected == 0
                &&& hit_handled(m, HitView::New).active == m.active
            },
            NewWorkspaceView::Unavailable { server_id, reason } => {
                &&& hit_dispatch(m, HitView::New) == DispatchView::Consumed
                &&& hit_handled(m, HitView::New).picker is None
                &&& hit_handled(m, HitView::New).active == m.active
            },
        },
        hit_handled(m, HitView::New).overlay is Closed,
        hit_handled(m, HitView::New).servers == m.servers,
{
}

/// A destination that is chosen from the list is asked for a new workspace and shown, where it is
/// still connected; one that is not in the list, or was lost, is not. The list is closed either
/// way.
pub proof fn law_chosen_destination(m: ModelView, k: int, i: int)
    requires
        m.picker is Some,
        0 <= k < m.picker->0.destinations.len(),
        0 <= i < m.servers.len(),
        m.servers[i].id == m.picker->0.destinations[k].server_id,
        forall|j: int| 0 <= j < i ==> (#[trigger] m.servers[j]).id != m.servers[i].id,
    ensures
        ({
            let id = m.servers[i].id;
            let chosen = HitView::NewWorkspaceDestination { server_id: id };
            let after = hit_handled(m, chosen);
            &&& after.picker is None
            &&& after.servers == m.servers
            &&& after.filter == m.filter
            &&& m.servers[i].connection_state is Connected ==> after.active == id && hit_dispatch(
                m,
                chosen,
            ) == (DispatchView::ApiRequest {
                server_id: id,
                refresh: ClientApiRefreshPolicy::Immediate,
                id: "client:workspace-create"@,
                ask: AskView::CreateWorkspace,
            })
            &&& !(m.servers[i].connection_state is Connected) ==> after.active == m.active
                && hit_dispatch(m, chosen) == DispatchView::Consumed
        }),
{
    crate::supervisor::lemma_is_index_of_server(m.servers, m.servers[i].id, i);
    lemma_destination_is_named(m.picker->0.destinations, k);
}

proof fn lemma_destination_is_named(
    destinations: Seq<crate::supervisor::DestinationView>,
    k: int,
)
    requires
        0 <= k < destinations.len(),
    ensures
        crate::supervisor::destination_named(destinations, destinations[k].server_id) is Some,
    decreases destinations.len(),
{
    if k > 0 {
        assert(destinations.drop_first()[k - 1] == destinations[k]);
        lemma_destination_is_named(destinations.drop_first(), k - 1);
    }
}

/// A destination that the list does not show cannot be chosen from it.
pub proof fn law_unlisted_destination(m: ModelView, id: Seq<char>)
    requires
        m.picker is None,
    ensures
        hit_dispatch(m, HitView::NewWorkspaceDestination { server_id: id })
            == DispatchView::Consumed,
        hit_handled(m, HitView::NewWorkspaceDestination { server_id: id }) == m,
{
}

/// The filter's label steps the filter on, the menu's button opens the menu at its first item, the
/// list's cancel button closes the list, and its other button takes the selected destination as a
/// click on it would.
pub proof fn law_other_buttons(m: ModelView)
    ensures
        hit_dispatch(m, HitView::Filter) == DispatchView::Redraw,
        hit_handled(m, HitView::Filter).filter == crate::supervisor::next_filter(
            m.servers,
            m.filter,
        ),
        hit_handled(m, HitView::Filter).picker is None,
        hit_dispatch(m, HitView::Menu) == DispatchView::Redraw,
        hit_handled(m, HitView::Menu).overlay == (OverlayView::GlobalMenu { highlighted: 0 }),
        hit_handled(m, HitView::Menu).picker is None,
        hit_dispatch(m, HitView::NewWorkspacePickerCancel) == DispatchView::Redraw,
        hit_handled(m, HitView::NewWorkspacePickerCancel) == (ModelView { picker: None, ..m }),
        m.picker is Some && m.picker->0.selected < m.picker->0.destinations.len() ==> {
            let chosen = HitView::NewWorkspaceDestination {
                server_id: m.picker->0.destinations[m.picker->0.selected as int].server_id,
            };
            &&& hit_handled(m, HitView::NewWorkspacePickerConfirm) == hit_handled(m, chosen)
            &&& hit_dispatch(m, HitView::NewWorkspacePickerConfirm) == hit_dispatch(m, chosen)
        },
        m.picker is None ==> hit_handled(m, HitView::NewWorkspacePickerConfirm) == m
            && hit_dispatch(m, HitView::NewWorkspacePickerConfirm) == DispatchView::Consumed,
{
}

} // verus!
