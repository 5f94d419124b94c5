//! The overlays of the client: the global menu and the form by which a remote is added.

use vstd::prelude::*;

use crate::input::{KeyCode, TerminalKey};
use crate::remote_registry::RemoteKeybindingsSnapshot;
use crate::supervisor::{
    picker_closed, AddRemoteField, AddRemoteForm, ClientOverlayState, ClientSupervisorModel,
    FormView, ModelView, OverlayView,
};
use crate::text;
use crate::text::trim_spec;

verus! {

/// What an item of the global menu does.
#[derive(Debug, Clone, Copy, PartialEq, Eq, Structural)]
pub enum ClientGlobalMenuAction {
    Settings,
    Keybinds,
    ReloadConfig,
    Detach,
    AddRemote,
}

/// A remote that the user wants to add.
#[derive(Debug, PartialEq, Eq)]
pub struct AddRemoteDraft {
    pub target: String,
    pub name: Option<String>,
    pub keybindings: RemoteKeybindingsSnapshot,
}

/// A draft as a mathematical value.
#[verifier::ext_equal]
pub struct DraftView {
    pub target: Seq<char>,
    pub name: Option<Seq<char>>,
    pub keybindings: RemoteKeybindingsSnapshot,
}

impl DeepView for AddRemoteDraft {
    type V = DraftView;

    open spec fn deep_view(&self) -> DraftView {
        DraftView {
            target: self.target@,
            name: self.name.deep_view(),
            keybindings: self.keybindings,
        }
    }
}

impl Clone for AddRemoteDraft {
    fn clone(&self) -> (r: Self)
        ensures
            r == *self,
    {
        AddRemoteDraft {
            target: self.target.clone(),
            name: text::clone_option(&self.name),
            keybindings: self.keybindings,
        }
    }
}

/// What a key in the form comes to.
#[derive(Debug, PartialEq, Eq)]
pub enum AddRemoteFormOutcome {
    Redraw,
    Submit(AddRemoteDraft),
}

impl DeepView for AddRemoteFormOutcome {
    type V = Option<DraftView>;

    open spec fn deep_view(&self) -> Option<DraftView> {
        match self {
            AddRemoteFormOutcome::Redraw => None,
            AddRemoteFormOutcome::Submit(draft) => Some(draft.deep_view()),
        }
    }
}

/// The items of the global menu.
pub open spec fn menu_items() -> Seq<Seq<char>> {
    seq!["settings"@, "keybinds"@, "reload config"@, "detach"@, "add remote"@]
}

/// What the items of the global menu do, in order.
pub open spec fn menu_action(index: nat) -> Option<ClientGlobalMenuAction> {
    if index == 0 {
        Some(ClientGlobalMenuAction::Settings)
    } else if index == 1 {
        Some(ClientGlobalMenuAction::Keybinds)
    } else if index == 2 {
        Some(ClientGlobalMenuAction::ReloadConfig)
    } else if index == 3 {
        Some(ClientGlobalMenuAction::Detach)
    } else if index == 4 {
        Some(ClientGlobalMenuAction::AddRemote)
    } else {
        None
    }
}

/// The form as it opens.
pub open spec fn empty_form() -> FormView {
    FormView {
        target: Seq::empty(),
        name: Seq::empty(),
        focused_field: AddRemoteField::Target,
        error: None,
    }
}

pub open spec fn menu_opened(m: ModelView) -> ModelView {
    ModelView { overlay: OverlayView::GlobalMenu { highlighted: 0 }, ..picker_closed(m) }
}

pub open spec fn form_opened(m: ModelView) -> ModelView {
    ModelView { overlay: OverlayView::AddRemote { form: empty_form() }, ..picker_closed(m) }
}

pub open spec fn overlay_closed(m: ModelView) -> ModelView {
    ModelView { overlay: OverlayView::Closed, ..m }
}

/// The model after a menu item was selected.
pub open spec fn menu_selected(m: ModelView, index: nat) -> ModelView {
    match menu_action(index) {
        Some(ClientGlobalMenuAction::AddRemote) => form_opened(m),
        Some(_) => overlay_closed(m),
        None => m,
    }
}

/// The highlighted item, where the menu is open.
pub open spec fn highlighted_of(m: ModelView) -> Option<nat> {
    match m.overlay {
        OverlayView::GlobalMenu { highlighted } => Some(highlighted),
        _ => None,
    }
}

/// The model after the mouse moved over an item of the menu, or beside them.
pub open spec fn menu_hovered(m: ModelView, item: Option<int>) -> ModelView {
    match item {
        Some(i) => if 0 <= i < menu_items().len() {
            menu_moved(m, i as nat)
        } else {
            m
        },
        None => m,
    }
}

/// The model with another item highlighted.
pub open spec fn menu_moved(m: ModelView, highlighted: nat) -> ModelView {
    match m.overlay {
        OverlayView::GlobalMenu { highlighted: _ } => ModelView {
            overlay: OverlayView::GlobalMenu { highlighted },
            ..m
        },
        _ => m,
    }
}

/// The text of the field that has the focus.
pub open spec fn focused_text(form: FormView) -> Seq<char> {
    match form.focused_field {
        AddRemoteField::Target => form.target,
        AddRemoteField::Name => form.name,
    }
}

/// The form with another text in the field that has the focus, and without an error.
pub open spec fn with_focused_text(form: FormView, input: Seq<char>) -> FormView {
    match form.focused_field {
        AddRemoteField::Target => FormView { target: input, error: None, ..form },
        AddRemoteField::Name => FormView { name: input, error: None, ..form },
    }
}

/// The form with the focus on the other field, and without an error.
pub open spec fn with_other_focus(form: FormView) -> FormView {
    FormView {
        focused_field: match form.focused_field {
            AddRemoteField::Target => AddRemoteField::Name,
            AddRemoteField::Name => AddRemoteField::Target,
        },
        error: None,
        ..form
    }
}

/// A trimmed text, `None` where nothing is left.
pub open spec fn trimmed_optional_of(value: Seq<char>) -> Option<Seq<char>> {
    if trim_spec(value).len() == 0 {
        None
    } else {
        Some(trim_spec(value))
    }
}

/// The remote that the form describes, where a target is given.
pub open spec fn draft_of(form: FormView) -> Option<DraftView> {
    if trim_spec(form.target).len() == 0 {
        None
    } else {
        Some(
            DraftView {
                target: trim_spec(form.target),
                name: trimmed_optional_of(form.name),
                keybindings: RemoteKeybindingsSnapshot::Local,
            },
        )
    }
}

/// What a key does to the open form: the form afterwards, `None` where it closes.
pub open spec fn form_after_key(form: FormView, key: TerminalKey) -> Option<FormView> {
    if !key.is_press() {
        Some(form)
    } else {
        match key.code {
            KeyCode::Esc => None,
            KeyCode::Tab | KeyCode::Down | KeyCode::Up => Some(with_other_focus(form)),
            KeyCode::Enter => if draft_of(form) is None {
                Some(FormView { error: Some("target required"@), ..form })
            } else {
                Some(form)
            },
            KeyCode::Backspace => Some(
                with_focused_text(
                    form,
                    if focused_text(form).len() == 0 {
                        focused_text(form)
                    } else {
                        focused_text(form).drop_last()
                    },
                ),
            ),
            KeyCode::Char(ch) => if ch == 'u' && key.modifiers.control {
                Some(with_focused_text(form, Seq::empty()))
            } else if key.modifiers.at_most_shift_spec() {
                Some(with_focused_text(form, focused_text(form).push(ch)))
            } else {
                Some(form)
            },
            _ => Some(form),
        }
    }
}

/// The remote that a key in the form submits.
pub open spec fn submitted_by_key(form: FormView, key: TerminalKey) -> Option<DraftView> {
    if key.is_press() && key.code is Enter {
        draft_of(form)
    } else {
        None
    }
}

/// The model with another form, where one is open.
pub open spec fn with_form(m: ModelView, form: Option<FormView>) -> ModelView {
    match form {
        Some(f) => ModelView { overlay: OverlayView::AddRemote { form: f }, ..m },
        None => overlay_closed(m),
    }
}

/// The model after a key went to the form.
pub open spec fn form_key_handled(m: ModelView, key: TerminalKey) -> ModelView {
    match m.overlay {
        OverlayView::AddRemote { form } => with_form(m, form_after_key(form, key)),
        _ => if key.is_press() && key.code is Esc {
            overlay_closed(m)
        } else {
            m
        },
    }
}

/// What a key that went to the form submits.
pub open spec fn form_key_submits(m: ModelView, key: TerminalKey) -> Option<DraftView> {
    match m.overlay {
        OverlayView::AddRemote { form } => submitted_by_key(form, key),
        _ => None,
    }
}

fn trimmed_optional(value: &str) -> (r: Option<String>)
    ensures
        r.deep_view() == trimmed_optional_of(value@),
{
    let trimmed: &str = text::trim(value);
    if trimmed.is_empty() {
        None
    } else {
        Some(trimmed.to_owned())
    }
}

impl AddRemoteForm {
    /// The text of the field that has the focus.
    fn focused_input(&self) -> (r: &String)
        ensures
            r@ == focused_text(self.deep_view()),
    {
        match self.focused_field {
            AddRemoteField::Target => &self.target,
            AddRemoteField::Name => &self.name,
        }
    }

    /// Puts another text into the field that has the focus.
    fn replace_input(&mut self, input: String)
        ensures
            final(self).deep_view() == with_focused_text(old(self).deep_view(), input@),
    {
        match self.focused_field {
            AddRemoteField::Target => {
                self.target = input;
            },
            AddRemoteField::Name => {
                self.name = input;
            },
        }
        self.error = None;
    }
}

impl ClientSupervisorModel {
    /// The items of the global menu.
    pub fn client_global_menu_items(&self) -> (r: Vec<&'static str>)
        ensures
            r.deep_view() == menu_items(),
    {
        let mut items: Vec<&'static str> = Vec::new();
        items.push("settings");
        items.push("keybinds");
        items.push("reload config");
        items.push("detach");
        items.push("add remote");
        assert(items.deep_view() =~= menu_items());
        items
    }

    /// The highlighted item, where the menu is open.
    pub fn client_global_menu_highlighted(&self) -> (r: Option<usize>)
        ensures
            match r {
                Some(i) => highlighted_of(self@) == Some(i as nat),
                None => highlighted_of(self@) is None,
            },
    {
        match &self.client_overlay {
            ClientOverlayState::GlobalMenu { highlighted } => Some(*highlighted),
            ClientOverlayState::Closed => None,
            ClientOverlayState::AddRemote(_) => None,
        }
    }

    /// Opens the global menu.
    pub fn open_client_global_menu(&mut self)
        ensures
            final(self)@ == menu_opened(old(self)@),
    {
        self.picker = None;
        self.client_overlay = ClientOverlayState::GlobalMenu { highlighted: 0 };
    }

    /// Moves the highlight down, at most to the last item.
    pub fn move_client_global_menu_next(&mut self)
        ensures
            match highlighted_of(old(self)@) {
                Some(h) => final(self)@ == menu_moved(
                    old(self)@,
                    if h + 1 < menu_items().len() {
                        h + 1
                    } else {
                        (menu_items().len() - 1) as nat
                    },
                ),
                None => final(self)@ == old(self)@,
            },
    {
        assert(menu_items().len() == 5);
        match &self.client_overlay {
            ClientOverlayState::GlobalMenu { highlighted } => {
                let next: usize = if *highlighted < 4 {
                    *highlighted + 1
                } else {
                    4
                };
                self.client_overlay = ClientOverlayState::GlobalMenu { highlighted: next };
            },
            _ => {},
        }
    }

    /// Moves the highlight up, at most to the first item.
    pub fn move_client_global_menu_prev(&mut self)
        ensures
            match highlighted_of(old(self)@) {
                Some(h) => final(self)@ == menu_moved(
                    old(self)@,
                    if h > 0 {
                        (h - 1) as nat
                    } else {
                        0
                    },
                ),
                None => final(self)@ == old(self)@,
            },
    {
        match &self.client_overlay {
            ClientOverlayState::GlobalMenu { highlighted } => {
                let next: usize = if *highlighted > 0 {
                    *highlighted - 1
                } else {
                    0
                };
                self.client_overlay = ClientOverlayState::GlobalMenu { highlighted: next };
            },
            _ => {},
        }
    }

    /// Highlights the item that the mouse is over; whether that is another one. The mouse beside
    /// the items leaves the highlight where it is.
    pub fn hover_client_global_menu_item(&mut self, item: Option<usize>) -> (r: bool)
        ensures
            final(self)@ == menu_hovered(
                old(self)@,
                match item {
                    Some(i) => Some(i as int),
                    None => None,
                },
            ),
            r == (highlighted_of(final(self)@) != highlighted_of(old(self)@)),
    {
        assert(menu_items().len() == 5);
        if let Some(index) = item {
            if index < 5 {
                match &self.client_overlay {
                    ClientOverlayState::GlobalMenu { highlighted } => {
                        let changed: bool = *highlighted != index;
                        self.client_overlay = ClientOverlayState::GlobalMenu { highlighted: index };
                        return changed;
                    },
                    _ => {},
                }
            }
        }
        false
    }

    /// Selects the highlighted item.
    pub fn accept_client_global_menu_item(&mut self) -> (r: Option<ClientGlobalMenuAction>)
        ensures
            match highlighted_of(old(self)@) {
                Some(h) => r == menu_action(h) && final(self)@ == menu_selected(old(self)@, h),
                None => r is None && final(self)@ == old(self)@,
            },
    {
        match self.client_global_menu_highlighted() {
            Some(highlighted) => self.select_client_global_menu_item(highlighted),
            None => None,
        }
    }

    /// Selects an item of the menu.
    pub fn select_client_global_menu_item(&mut self, index: usize) -> (r: Option<
        ClientGlobalMenuAction,
    >)
        ensures
            r == menu_action(index as nat),
            final(self)@ == menu_selected(old(self)@, index as nat),
    {
        if index == 0 {
            self.close_client_overlay();
            Some(ClientGlobalMenuAction::Settings)
        } else if index == 1 {
            self.close_client_overlay();
            Some(ClientGlobalMenuAction::Keybinds)
        } else if index == 2 {
            self.close_client_overlay();
            Some(ClientGlobalMenuAction::ReloadConfig)
        } else if index == 3 {
            self.close_client_overlay();
            Some(ClientGlobalMenuAction::Detach)
        } else if index == 4 {
            self.open_add_remote_form();
            Some(ClientGlobalMenuAction::AddRemote)
        } else {
            None
        }
    }

    /// Opens the form by which a remote is added.
    pub fn open_add_remote_form(&mut self)
        ensures
            final(self)@ == form_opened(old(self)@),
    {
        self.picker = None;
        self.client_overlay = ClientOverlayState::AddRemote(
            AddRemoteForm {
                target: String::new(),
                name: String::new(),
                focused_field: AddRemoteField::Target,
                error: None,
            },
        );
    }

    /// The open form.
    pub fn add_remote_form(&self) -> (r: Option<&AddRemoteForm>)
        ensures
            match r {
                Some(form) => self@.overlay == (OverlayView::AddRemote { form: form.deep_view() }),
                None => !(self@.overlay is AddRemote),
            },
    {
        match &self.client_overlay {
            ClientOverlayState::AddRemote(form) => Some(form),
            ClientOverlayState::Closed => None,
            ClientOverlayState::GlobalMenu { highlighted } => None,
        }
    }

    /// Closes what lies over the sidebar.
    pub fn close_client_overlay(&mut self)
        ensures
            final(self)@ == overlay_closed(old(self)@),
    {
        self.client_overlay = ClientOverlayState::Closed;
    }

    /// Hands a key to the form.
    pub fn handle_add_remote_key(&mut self, key: TerminalKey) -> (r: AddRemoteFormOutcome)
        ensures
            r.deep_view() == form_key_submits(old(self)@, key),
            final(self)@ == form_key_handled(old(self)@, key),
    {
        if !key.pressed() {
            return AddRemoteFormOutcome::Redraw;
        }
        match key.code {
            KeyCode::Esc => {
                self.close_client_overlay();
            },
            KeyCode::Tab | KeyCode::Down | KeyCode::Up => {
                if let ClientOverlayState::AddRemote(form) = &mut self.client_overlay {
                    form.focused_field = match form.focused_field {
                        AddRemoteField::Target => AddRemoteField::Name,
                        AddRemoteField::Name => AddRemoteField::Target,
                    };
                    form.error = None;
                }
            },
            KeyCode::Enter => {
                if let ClientOverlayState::AddRemote(form) = &mut self.client_overlay {
                    let target: String = text::trim(form.target.as_str()).to_owned();
                    if target.as_str().is_empty() {
                        form.error = Some("target required".to_owned());
                        return AddRemoteFormOutcome::Redraw;
                    }
                    let name: Option<String> = trimmed_optional(form.name.as_str());
                    return AddRemoteFormOutcome::Submit(
                        AddRemoteDraft {
                            target,
                            name,
                            keybindings: RemoteKeybindingsSnapshot::Local,
                        },
                    );
                }
            },
            KeyCode::Backspace => {
                if let ClientOverlayState::AddRemote(form) = &mut self.client_overlay {
                    let input: String = text::without_last(form.focused_input().as_str());
                    form.replace_input(input);
                }
            },
            KeyCode::Char(ch) => {
                if ch == 'u' && key.modifiers.control {
                    if let ClientOverlayState::AddRemote(form) = &mut self.client_overlay {
                        form.replace_input(String::new());
                    }
                } else if key.modifiers.at_most_shift() {
                    if let ClientOverlayState::AddRemote(form) = &mut self.client_overlay {
                        let mut input: String = form.focused_input().clone();
                        input.push(ch);
                        form.replace_input(input);
                    }
                }
            },
            _ => {},
        }
        AddRemoteFormOutcome::Redraw
    }

    /// Puts a pasted text behind the text of the field that has the focus.
    pub fn append_add_remote_paste(&mut self, pasted: &str) -> (r: AddRemoteFormOutcome)
        ensures
            r is Redraw,
            final(self)@ == (match old(self)@.overlay {
                OverlayView::AddRemote { form } => with_form(
                    old(self)@,
                    Some(with_focused_text(form, focused_text(form) + pasted@)),
                ),
                _ => old(self)@,
            }),
    {
        if let ClientOverlayState::AddRemote(form) = &mut self.client_overlay {
            let mut input: String = form.focused_input().clone();
            input.append(pasted);
            form.replace_input(input);
        }
        AddRemoteFormOutcome::Redraw
    }

    /// Shows an error in the form.
    pub fn set_add_remote_error(&mut self, error: &str)
        ensures
            final(self)@ == (match old(self)@.overlay {
                OverlayView::AddRemote { form } => with_form(
                    old(self)@,
                    Some(FormView { error: Some(error@), ..form }),
                ),
                _ => old(self)@,
            }),
    {
        if let ClientOverlayState::AddRemote(form) = &mut self.client_overlay {
            form.error = Some(error.to_owned());
        }
    }

    /// Closes the form when the remote has been added.
    pub fn finish_add_remote(&mut self)
        ensures
            final(self)@ == overlay_closed(old(self)@),
    {
        self.close_client_overlay();
    }

    /// Notes whether a remote is being added right now.
    pub fn set_add_remote_in_progress(&mut self, adding: bool)
        ensures
            final(self)@ == (ModelView { adding, ..old(self)@ }),
    {
        self.adding_remote = adding;
    }

    /// Whether a remote is being added right now.
    pub fn add_remote_in_progress(&self) -> (r: bool)
        ensures
            r == self@.adding,
    {
        self.adding_remote
    }
}

} // verus!
