//! Where the parts of the sidebar and its overlays lie, and what lies under a cell.

use vstd::prelude::*;

use crate::frame::{contains, rect_contains, smaller, Rect};
use crate::servers::ServerId;
use crate::supervisor::{ClientSupervisorModel, DestinationView, ModelView};

verus! {

/// The card of a workspace.
#[derive(Debug, Clone, Copy)]
pub struct CardArea {
    pub rect: Rect,
    /// Which workspace row it shows.
    pub ws_idx: usize,
}

/// The banner of a host.
#[derive(Debug, Clone, Copy)]
pub struct BannerArea {
    pub rect: Rect,
    pub banner_idx: usize,
}

/// The list of agents.
#[derive(Debug, Clone, Copy)]
pub struct AgentPanel {
    pub body: Rect,
    /// How many rows an agent takes, without the gap behind it.
    pub entry_rows: u16,
    /// The first agent that is shown.
    pub scroll: usize,
}

/// How far a list can be scrolled.
#[derive(Debug, Clone, Copy)]
pub struct ScrollInfo {
    pub offset: usize,
    pub max_offset: usize,
    pub scrollable: bool,
}

/// The popup in which a destination is picked.
#[derive(Debug)]
pub struct PickerPopup {
    pub popup: Rect,
    pub inner: Rect,
    pub confirm: Rect,
    pub cancel: Rect,
    /// A row for each destination.
    pub rows: Vec<Rect>,
}

/// The popup of the form.
#[derive(Debug, Clone, Copy)]
pub struct FormPopup {
    pub popup: Rect,
    pub submit: Rect,
    pub cancel: Rect,
}

/// The popup in which a deletion is confirmed.
#[derive(Debug, Clone, Copy)]
pub struct ConfirmPopup {
    pub popup: Rect,
    pub confirm: Rect,
    pub cancel: Rect,
}

/// The popup that lists the remotes.
#[derive(Debug)]
pub struct ManageList {
    pub popup: Rect,
    pub inner: Rect,
    /// The rows that are shown, from the top.
    pub rows: Vec<Rect>,
}

/// The overlay in which remotes are managed.
#[derive(Debug)]
pub struct ManageOverlay {
    pub remote_count: usize,
    pub selected: usize,
    pub scroll: usize,
    /// The first row that keeps the selected one in sight.
    pub visible_start: usize,
    /// Whether a deletion waits to be confirmed.
    pub confirming: bool,
    /// `None` where there is no room for it.
    pub confirm: Option<ConfirmPopup>,
    /// `None` where there is no room for it.
    pub list: Option<ManageList>,
}

/// Where everything lies.
#[derive(Debug)]
pub struct SidebarLayout {
    pub new_button: Rect,
    pub launcher: Rect,
    /// Whether the buttons are drawn.
    pub mouse_capture: bool,
    pub cards: Vec<CardArea>,
    pub banners: Vec<BannerArea>,
    pub divider_rows: Vec<u16>,
    pub agents: AgentPanel,
    /// The part of the sidebar below the workspaces.
    pub detail_area: Rect,
    pub agent_scroll: ScrollInfo,
    pub workspace_scroll: ScrollInfo,
    /// The global menu, and how many items it has.
    pub menu: Rect,
    pub menu_items: usize,
    /// `None` where there is no room for it.
    pub picker: Option<PickerPopup>,
    /// `None` where there is no room for it.
    pub form: Option<FormPopup>,
    /// `None` where it is closed.
    pub manage: Option<ManageOverlay>,
}

/// What a click meets.
#[derive(Debug, PartialEq, Eq)]
pub enum SidebarHitTarget {
    Filter,
    Workspace { server_id: ServerId, workspace_id: String },
    Agent { server_id: ServerId, agent_id: String },
    NewWorkspaceDestination { server_id: ServerId },
    ClientGlobalMenuItem { index: usize },
    New,
    Menu,
    AddRemoteSubmit,
    AddRemoteCancel,
    NewWorkspacePickerConfirm,
    NewWorkspacePickerCancel,
    RemoteManageRow { index: usize },
    RemoteManageAdd,
    RemoteManageConfirmDelete,
    RemoteManageCancelDelete,
}

/// What a click meets, as a mathematical value.
#[verifier::ext_equal]
pub enum HitView {
    Filter,
    Workspace { server_id: Seq<char>, workspace_id: Seq<char> },
    Agent { server_id: Seq<char>, agent_id: Seq<char> },
    NewWorkspaceDestination { server_id: Seq<char> },
    ClientGlobalMenuItem { index: int },
    New,
    Menu,
    AddRemoteSubmit,
    AddRemoteCancel,
    NewWorkspacePickerConfirm,
    NewWorkspacePickerCancel,
    RemoteManageRow { index: int },
    RemoteManageAdd,
    RemoteManageConfirmDelete,
    RemoteManageCancelDelete,
}

impl DeepView for SidebarHitTarget {
    type V = HitView;

    open spec fn deep_view(&self) -> HitView {
        match self {
            SidebarHitTarget::Filter => HitView::Filter,
            SidebarHitTarget::Workspace { server_id, workspace_id } => HitView::Workspace {
                server_id: server_id@,
                workspace_id: workspace_id@,
            },
            SidebarHitTarget::Agent { server_id, agent_id } => HitView::Agent {
                server_id: server_id@,
                agent_id: agent_id@,
            },
            SidebarHitTarget::NewWorkspaceDestination { server_id } =>
                HitView::NewWorkspaceDestination { server_id: server_id@ },
            SidebarHitTarget::ClientGlobalMenuItem { index } => HitView::ClientGlobalMenuItem {
                index: *index as int,
            },
            SidebarHitTarget::New => HitView::New,
            SidebarHitTarget::Menu => HitView::Menu,
            SidebarHitTarget::AddRemoteSubmit => HitView::AddRemoteSubmit,
            SidebarHitTarget::AddRemoteCancel => HitView::AddRemoteCancel,
            SidebarHitTarget::NewWorkspacePickerConfirm => HitView::NewWorkspacePickerConfirm,
            SidebarHitTarget::NewWorkspacePickerCancel => HitView::NewWorkspacePickerCancel,
            SidebarHitTarget::RemoteManageRow { index } => HitView::RemoteManageRow {
                index: *index as int,
            },
            SidebarHitTarget::RemoteManageAdd => HitView::RemoteManageAdd,
            SidebarHitTarget::RemoteManageConfirmDelete => HitView::RemoteManageConfirmDelete,
            SidebarHitTarget::RemoteManageCancelDelete => HitView::RemoteManageCancelDelete,
        }
    }
}

/// What the mouse is over.
#[derive(Debug, Clone, Copy, PartialEq, Eq, Structural)]
pub enum SidebarHoverTarget {
    Filter,
    New,
    Menu,
    Workspace { ws_idx: usize },
    AgentRoute { route_idx: usize },
    HostBanner { banner_idx: usize },
    Divider,
    NewWorkspaceDestination { row: u16 },
}

/// The greater of two numbers.
pub open spec fn greater(a: int, b: int) -> int {
    if a > b {
        a
    } else {
        b
    }
}

/// `a` less `b`, not below zero.
pub open spec fn less(a: int, b: int) -> int {
    if a > b {
        a - b
    } else {
        0
    }
}

/// The item of the menu under a cell: inside its border, and not below the last item.
pub open spec fn menu_item_under(menu: Rect, items: int, x: u16, y: u16) -> Option<int> {
    let left = smaller(menu.x + 1, u16::MAX as int);
    let top = smaller(menu.y + 1, u16::MAX as int);
    let right = less(smaller(menu.x + menu.width, u16::MAX as int), 1);
    let bottom = less(smaller(menu.y + menu.height, u16::MAX as int), 1);
    if left <= x < right && top <= y < bottom && y - top < items {
        Some(y - top)
    } else {
        None
    }
}

/// The item of the menu under a cell.
pub fn global_menu_item_index_at(menu: Rect, items: usize, x: u16, y: u16) -> (r: Option<usize>)
    ensures
        match r {
            Some(i) => menu_item_under(menu, items as int, x, y) == Some(i as int),
            None => menu_item_under(menu, items as int, x, y) is None,
        },
{
    let left: u16 = menu.x.saturating_add(1);
    let top: u16 = menu.y.saturating_add(1);
    let right: u16 = menu.x.saturating_add(menu.width).saturating_sub(1);
    let bottom: u16 = menu.y.saturating_add(menu.height).saturating_sub(1);
    if x < left || x >= right || y < top || y >= bottom {
        return None;
    }
    let index: usize = (y - top) as usize;
    if index < items {
        Some(index)
    } else {
        None
    }
}

/// The first of the rows, of which at most `shown` are there, under a cell.
pub open spec fn row_under(rows: Seq<Rect>, shown: int, x: u16, y: u16) -> Option<int>
    decreases shown,
{
    if shown <= 0 {
        None
    } else {
        match row_under(rows, shown - 1, x, y) {
            Some(i) => Some(i),
            None => if shown <= rows.len() && contains(rows[shown - 1], x, y) {
                Some(shown - 1)
            } else {
                None
            },
        }
    }
}

fn find_row(rows: &Vec<Rect>, shown: usize, x: u16, y: u16) -> (r: Option<usize>)
    ensures
        match r {
            Some(i) => row_under(rows@, shown as int, x, y) == Some(i as int) && i < shown,
            None => row_under(rows@, shown as int, x, y) is None,
        },
{
    let mut i: usize = 0;
    while i < shown && i < rows.len()
        invariant
            i <= shown,
            row_under(rows@, i as int, x, y) is None,
        decreases shown - i,
    {
        if rect_contains(rows[i], x, y) {
            proof {
                lemma_row_stays(rows@, i + 1, shown as int, x, y);
            }
            return Some(i);
        }
        i = i + 1;
    }
    proof {
        lemma_no_row(rows@, i as int, shown as int, x, y);
    }
    None
}

proof fn lemma_row_stays(rows: Seq<Rect>, a: int, b: int, x: u16, y: u16)
    requires
        a <= b,
        row_under(rows, a, x, y) is Some,
    ensures
        row_under(rows, b, x, y) == row_under(rows, a, x, y),
    decreases b,
{
    if a < b {
        if b > 0 {
            lemma_row_stays(rows, a, b - 1, x, y);
        }
    }
}

proof fn lemma_no_row(rows: Seq<Rect>, a: int, b: int, x: u16, y: u16)
    requires
        0 <= a <= b,
        a == b || a >= rows.len(),
        row_under(rows, a, x, y) is None,
    ensures
        row_under(rows, b, x, y) is None,
    decreases b - a,
{
    if a < b {
        lemma_no_row(rows, a, b - 1, x, y);
    }
}

/// How many rows a popup has room for, beside its header and its footer.
pub open spec fn room(inner: Rect) -> int {
    less(inner.height as int, 3)
}

/// The destination row under a cell.
pub open spec fn picker_row_under(popup: PickerPopup, destinations: int, x: u16, y: u16) -> Option<
    int,
> {
    row_under(popup.rows@, smaller(destinations, room(popup.inner)), x, y)
}

fn find_picker_row(popup: &PickerPopup, destinations: usize, x: u16, y: u16) -> (r: Option<usize>)
    ensures
        match r {
            Some(i) => picker_row_under(*popup, destinations as int, x, y) == Some(i as int) && i
                < destinations && i < popup.inner.height,
            None => picker_row_under(*popup, destinations as int, x, y) is None,
        },
{
    let room: usize = popup.inner.height.saturating_sub(3) as usize;
    let shown: usize = if destinations < room {
        destinations
    } else {
        room
    };
    find_row(&popup.rows, shown, x, y)
}

/// What a click in the picker meets.
pub open spec fn picker_hit(
    destinations: Seq<DestinationView>,
    popup: PickerPopup,
    x: u16,
    y: u16,
) -> Option<HitView> {
    if contains(popup.confirm, x, y) {
        Some(HitView::NewWorkspacePickerConfirm)
    } else if contains(popup.cancel, x, y) {
        Some(HitView::NewWorkspacePickerCancel)
    } else {
        match picker_row_under(popup, destinations.len() as int, x, y) {
            Some(i) => Some(
                HitView::NewWorkspaceDestination { server_id: destinations[i].server_id },
            ),
            None => None,
        }
    }
}

/// What a click in the open picker, if there is one, meets.
pub open spec fn picker_hit_of(
    m: ModelView,
    layout: SidebarLayout,
    x: u16,
    y: u16,
) -> Option<HitView> {
    match (m.picker, layout.picker) {
        (Some(p), Some(popup)) => picker_hit(p.destinations, popup, x, y),
        _ => None,
    }
}

/// What a click in the open picker meets.
pub(crate) fn hit_test_new_workspace_picker(
    model: &ClientSupervisorModel,
    layout: &SidebarLayout,
    x: u16,
    y: u16,
) -> (r: Option<SidebarHitTarget>)
    ensures
        r.deep_view() == picker_hit_of(model@, *layout, x, y),
{
    let destinations: &Vec<crate::supervisor::ServerDestination> =
        match model.new_workspace_picker_destinations() {
        Some(d) => d,
        None => {
            return None;
        },
    };
    assert(destinations.deep_view().len() == destinations@.len());
    let popup: &PickerPopup = match &layout.picker {
        Some(popup) => popup,
        None => {
            return None;
        },
    };
    if rect_contains(popup.confirm, x, y) {
        return Some(SidebarHitTarget::NewWorkspacePickerConfirm);
    }
    if rect_contains(popup.cancel, x, y) {
        return Some(SidebarHitTarget::NewWorkspacePickerCancel);
    }
    match find_picker_row(popup, destinations.len(), x, y) {
        Some(i) => Some(
            SidebarHitTarget::NewWorkspaceDestination {
                server_id: destinations[i].server_id.clone(),
            },
        ),
        None => None,
    }
}

/// What the mouse is over in the open picker: its rows only.
pub open spec fn picker_hover_of(
    m: ModelView,
    layout: SidebarLayout,
    x: u16,
    y: u16,
) -> Option<SidebarHoverTarget> {
    match (m.picker, layout.picker) {
        (Some(p), Some(popup)) => match picker_row_under(popup, p.destinations.len() as int, x, y) {
            Some(i) => Some(SidebarHoverTarget::NewWorkspaceDestination { row: i as u16 }),
            None => None,
        },
        _ => None,
    }
}

/// What the mouse is over in the open picker.
pub(crate) fn hover_test_new_workspace_picker(
    model: &ClientSupervisorModel,
    layout: &SidebarLayout,
    x: u16,
    y: u16,
) -> (r: Option<SidebarHoverTarget>)
    ensures
        r == picker_hover_of(model@, *layout, x, y),
{
    let destinations: &Vec<crate::supervisor::ServerDestination> =
        match model.new_workspace_picker_destinations() {
        Some(d) => d,
        None => {
            return None;
        },
    };
    assert(destinations.deep_view().len() == destinations@.len());
    match &layout.picker {
        Some(popup) => match find_picker_row(popup, destinations.len(), x, y) {
            Some(i) => Some(SidebarHoverTarget::NewWorkspaceDestination { row: i as u16 }),
            None => None,
        },
        None => None,
    }
}

/// What a click in the form meets: its buttons.
pub open spec fn form_hit_of(m: ModelView, layout: SidebarLayout, x: u16, y: u16) -> Option<
    HitView,
> {
    if !(m.overlay is AddRemote) || layout.form is None {
        None
    } else if contains(layout.form->0.submit, x, y) {
        Some(HitView::AddRemoteSubmit)
    } else if contains(layout.form->0.cancel, x, y) {
        Some(HitView::AddRemoteCancel)
    } else {
        None
    }
}

/// What a click in the form meets.
pub(crate) fn hit_test_add_remote(
    model: &ClientSupervisorModel,
    layout: &SidebarLayout,
    x: u16,
    y: u16,
) -> (r: Option<SidebarHitTarget>)
    ensures
        r.deep_view() == form_hit_of(model@, *layout, x, y),
{
    if model.add_remote_form().is_none() {
        return None;
    }
    match &layout.form {
        Some(form) => {
            if rect_contains(form.submit, x, y) {
                Some(SidebarHitTarget::AddRemoteSubmit)
            } else if rect_contains(form.cancel, x, y) {
                Some(SidebarHitTarget::AddRemoteCancel)
            } else {
                None
            }
        },
        None => None,
    }
}

/// The last row of a popup.
pub open spec fn footer_of(inner: Rect) -> Rect {
    Rect {
        x: inner.x,
        y: smaller(inner.y + less(inner.height as int, 1), u16::MAX as int) as u16,
        width: inner.width,
        height: 1,
    }
}

/// The first remote that is listed: where the list was scrolled to, but with the selected one in
/// sight.
pub open spec fn first_listed(overlay: ManageOverlay, room: int) -> int {
    let selected = smaller(overlay.selected as int, less(overlay.remote_count as int, 1));
    greater(
        smaller(
            smaller(
                overlay.scroll as int,
                less(overlay.remote_count as int, greater(room, 1)),
            ),
            selected,
        ),
        overlay.visible_start as int,
    )
}

/// What a click meets while remotes are managed. While a deletion waits to be confirmed, only
/// its buttons.
pub open spec fn manage_hit(overlay: ManageOverlay, x: u16, y: u16) -> Option<HitView> {
    if overlay.confirming {
        match overlay.confirm {
            None => None,
            Some(popup) => if contains(popup.confirm, x, y) {
                Some(HitView::RemoteManageConfirmDelete)
            } else if contains(popup.cancel, x, y) {
                Some(HitView::RemoteManageCancelDelete)
            } else {
                None
            },
        }
    } else {
        match overlay.list {
            None => None,
            Some(list) => {
                let start = first_listed(overlay, room(list.inner));
                if contains(footer_of(list.inner), x, y) {
                    Some(HitView::RemoteManageAdd)
                } else {
                    match row_under(
                        list.rows@,
                        smaller(less(overlay.remote_count as int, start), room(list.inner)),
                        x,
                        y,
                    ) {
                        Some(i) => Some(HitView::RemoteManageRow { index: start + i }),
                        None => None,
                    }
                }
            },
        }
    }
}

/// What a click meets while remotes are managed.
pub fn hit_test_remote_manage(overlay: &ManageOverlay, x: u16, y: u16) -> (r: Option<
    SidebarHitTarget,
>)
    ensures
        r.deep_view() == manage_hit(*overlay, x, y),
{
    if overlay.confirming {
        return match &overlay.confirm {
            None => None,
            Some(popup) => {
                if rect_contains(popup.confirm, x, y) {
                    Some(SidebarHitTarget::RemoteManageConfirmDelete)
                } else if rect_contains(popup.cancel, x, y) {
                    Some(SidebarHitTarget::RemoteManageCancelDelete)
                } else {
                    None
                }
            },
        };
    }
    let list: &ManageList = match &overlay.list {
        Some(list) => list,
        None => {
            return None;
        },
    };
    let inner: Rect = list.inner;
    let footer: Rect = Rect::new(
        inner.x,
        inner.y.saturating_add(inner.height.saturating_sub(1)),
        inner.width,
        1,
    );
    if rect_contains(footer, x, y) {
        return Some(SidebarHitTarget::RemoteManageAdd);
    }
    let room: usize = inner.height.saturating_sub(3) as usize;
    let at_least_one: usize = if room > 1 {
        room
    } else {
        1
    };
    let last: usize = overlay.remote_count.saturating_sub(1);
    let selected: usize = if overlay.selected < last {
        overlay.selected
    } else {
        last
    };
    let furthest: usize = overlay.remote_count.saturating_sub(at_least_one);
    let mut start: usize = if overlay.scroll < furthest {
        overlay.scroll
    } else {
        furthest
    };
    if selected < start {
        start = selected;
    }
    if start < overlay.visible_start {
        start = overlay.visible_start;
    }
    let left: usize = overlay.remote_count.saturating_sub(start);
    let shown: usize = if left < room {
        left
    } else {
        room
    };
    match find_row(&list.rows, shown, x, y) {
        Some(i) => Some(SidebarHitTarget::RemoteManageRow { index: start + i }),
        None => None,
    }
}

/// The agent under a cell, counted from the first one: between two agents there is a gap.
pub open spec fn agent_under(panel: AgentPanel, x: u16, y: u16) -> Option<int> {
    let stride = smaller(panel.entry_rows + 1, u16::MAX as int);
    let row = y - panel.body.y;
    if !contains(panel.body, x, y) || panel.entry_rows == 0 || row % stride >= panel.entry_rows {
        None
    } else {
        Some(smaller(panel.scroll + row / stride, usize::MAX as int))
    }
}

/// The agent under a cell.
pub(crate) fn agent_index_at(panel: &AgentPanel, x: u16, y: u16) -> (r: Option<usize>)
    ensures
        match r {
            Some(i) => agent_under(*panel, x, y) == Some(i as int),
            None => agent_under(*panel, x, y) is None,
        },
{
    if !rect_contains(panel.body, x, y) || panel.entry_rows == 0 {
        return None;
    }
    let row: u16 = y - panel.body.y;
    let stride: u16 = panel.entry_rows.saturating_add(1);
    if row % stride >= panel.entry_rows {
        return None;
    }
    let index: usize = (row / stride) as usize;
    Some(panel.scroll.saturating_add(index))
}

/// The first card under a cell.
pub open spec fn card_under(cards: Seq<CardArea>, x: u16, y: u16) -> Option<int>
    decreases cards.len(),
{
    if cards.len() == 0 {
        None
    } else {
        match card_under(cards.drop_last(), x, y) {
            Some(i) => Some(i),
            None => if contains(cards.last().rect, x, y) {
                Some(cards.len() - 1)
            } else {
                None
            },
        }
    }
}

/// The first card under a cell.
pub(crate) fn card_at(cards: &Vec<CardArea>, x: u16, y: u16) -> (r: Option<usize>)
    ensures
        match r {
            Some(i) => card_under(cards@, x, y) == Some(i as int) && i < cards@.len(),
            None => card_under(cards@, x, y) is None,
        },
{
    let mut i: usize = 0;
    assert(cards@.take(0) =~= Seq::<CardArea>::empty());
    while i < cards.len()
        invariant
            i <= cards@.len(),
            card_under(cards@.take(i as int), x, y) is None,
        decreases cards@.len() - i,
    {
        assert(cards@.take(i + 1).drop_last() =~= cards@.take(i as int));
        assert(cards@.take(i + 1).last() == cards@[i as int]);
        if rect_contains(cards[i].rect, x, y) {
            proof {
                lemma_card_stays(cards@, i + 1, x, y);
            }
            return Some(i);
        }
        i = i + 1;
    }
    assert(cards@.take(i as int) =~= cards@);
    None
}

proof fn lemma_card_stays(cards: Seq<CardArea>, n: int, x: u16, y: u16)
    requires
        0 <= n <= cards.len(),
        card_under(cards.take(n), x, y) is Some,
    ensures
        card_under(cards, x, y) == card_under(cards.take(n), x, y),
    decreases cards.len() - n,
{
    if n < cards.len() {
        assert(cards.take(n + 1).drop_last() =~= cards.take(n));
        lemma_card_stays(cards, n + 1, x, y);
    } else {
        assert(cards.take(n) =~= cards);
    }
}

/// The first banner under a cell.
pub open spec fn banner_under(banners: Seq<BannerArea>, x: u16, y: u16) -> Option<int>
    decreases banners.len(),
{
    if banners.len() == 0 {
        None
    } else if contains(banners[0].rect, x, y) {
        Some(banners[0].banner_idx as int)
    } else {
        banner_under(banners.drop_first(), x, y)
    }
}

impl SidebarLayout {
    /// Whether the cards of the workspaces lie apart from the other parts of the sidebar, as a
    /// list does in which a banner, a divider and a card each have rows of their own, above the
    /// buttons.
    pub open spec fn cards_lie_apart(&self) -> bool {
        forall|x: u16, y: u16|
            #![trigger card_under(self.cards@, x, y)]
            card_under(self.cards@, x, y) is Some ==> {
                &&& banner_under(self.banners@, x, y) is None
                &&& !self.divider_rows@.contains(y)
                &&& !contains(self.new_button, x, y)
                &&& !contains(self.launcher, x, y)
            }
    }
}

/// The first banner under a cell.
pub(crate) fn banner_at(banners: &Vec<BannerArea>, x: u16, y: u16) -> (r: Option<usize>)
    ensures
        match r {
            Some(i) => banner_under(banners@, x, y) == Some(i as int),
            None => banner_under(banners@, x, y) is None,
        },
{
    let mut i: usize = 0;
    assert(banners@.skip(0) =~= banners@);
    while i < banners.len()
        invariant
            i <= banners@.len(),
            banner_under(banners@, x, y) == banner_under(banners@.skip(i as int), x, y),
        decreases banners@.len() - i,
    {
        assert(banners@.skip(i as int)[0] == banners@[i as int]);
        if rect_contains(banners[i].rect, x, y) {
            return Some(banners[i].banner_idx);
        }
        assert(banners@.skip(i as int).drop_first() =~= banners@.skip(i + 1));
        i = i + 1;
    }
    None
}

/// Whether a row is listed.
pub(crate) fn lists_row(rows: &Vec<u16>, y: u16) -> (r: bool)
    ensures
        r == rows@.contains(y),
{
    let mut i: usize = 0;
    while i < rows.len()
        invariant
            i <= rows@.len(),
            forall|k: int| 0 <= k < i ==> rows@[k] != y,
        decreases rows@.len() - i,
    {
        if rows[i] == y {
            return true;
        }
        i = i + 1;
    }
    false
}

} // verus!
