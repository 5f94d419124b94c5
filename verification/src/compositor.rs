//! The client's own part of the screen: the sidebar beside the content of the active server.

use unicode_width::UnicodeWidthStr;

use vstd::prelude::*;

use crate::api::UiSettingsInfo;
use crate::frame::{
    contains, content_copied, copy_active_content_excluding, cursor_beside, empty_rect, excluded,
    offset_cursor, rect_contains, smaller, CopyArea, FrameData, Rect,
};
use crate::input::{MouseButton, MouseEvent, MouseEventKind};
use crate::layout::{
    agent_index_at, agent_under, banner_at, banner_under, card_at, card_under, form_hit_of,
    global_menu_item_index_at, hit_test_add_remote, hit_test_new_workspace_picker,
    hit_test_remote_manage, hover_test_new_workspace_picker, lists_row, manage_hit,
    menu_item_under, picker_hit_of, picker_hover_of, HitView, ManageOverlay, ScrollInfo,
    SidebarHitTarget, SidebarHoverTarget, SidebarLayout,
};
use crate::seqs::{flat, lemma_flat_step, lemma_pick_source, lemma_pick_step, pick};
use crate::servers::ServerId;
use crate::sidebar_plan::{
    agent_routes_of, find_since, plan_is, planned_rows, sidebar_plan, since_of, AgentRoute,
    AgentRouteView, PlannedRow, PlannedRowView, SidebarPlan, SinceView, WorkingSince,
};
use crate::supervisor::overlay::{highlighted_of, menu_items};
use crate::supervisor::rows::{
    agent_groups_of, banner_moves, host_banners_of, workspace_rows_of, AgentRowView,
    AgentSidebarGroup, GroupView, HostBanner,
};
use crate::supervisor::{
    filter_label_of, AddRemoteForm, ClientSupervisorModel, FormView, ModelView, NewWorkspacePicker,
    OverlayView,
};
use crate::text;

verus! {

/// The width of the sidebar at first.
pub const DEFAULT_SIDEBAR_WIDTH: u16 = 26;

/// The client's own part of the screen.
pub struct ClientCompositor {
    sidebar_width: u16,
    workspace_scroll: usize,
    agent_panel_scroll: usize,
    resizing_sidebar: bool,
    animation_tick: u32,
    hover: Option<SidebarHoverTarget>,
    working_since: Vec<WorkingSince>,
}

/// The client's own part of the screen as a mathematical value.
#[verifier::ext_equal]
pub struct CompositorView {
    pub sidebar_width: u16,
    pub workspace_scroll: usize,
    pub agent_panel_scroll: usize,
    pub resizing: bool,
    pub animation_tick: u32,
    pub hover: Option<SidebarHoverTarget>,
    pub working_since: Seq<SinceView>,
}

impl View for ClientCompositor {
    type V = CompositorView;

    closed spec fn view(&self) -> CompositorView {
        CompositorView {
            sidebar_width: self.sidebar_width,
            workspace_scroll: self.workspace_scroll,
            agent_panel_scroll: self.agent_panel_scroll,
            resizing: self.resizing_sidebar,
            animation_tick: self.animation_tick,
            hover: self.hover,
            working_since: self.working_since.deep_view(),
        }
    }
}

/// A compositor with a sidebar of this width.
pub open spec fn new_compositor(sidebar_width: u16) -> CompositorView {
    CompositorView {
        sidebar_width,
        workspace_scroll: 0,
        agent_panel_scroll: 0,
        resizing: false,
        animation_tick: 0,
        hover: None,
        working_since: Seq::empty(),
    }
}

/// The width of the sidebar on a host of this width: at least one column is left for content.
pub open spec fn effective_width(sidebar_width: u16, host_width: u16) -> int {
    if host_width <= 1 {
        0
    } else {
        smaller(sidebar_width as int, host_width - 1)
    }
}

/// The size that is left for content: at least one column.
pub open spec fn content_size_of(sidebar_width: u16, host_width: u16, host_height: u16) -> (
    u16,
    u16,
) {
    let left = host_width - effective_width(sidebar_width, host_width);
    (
        if left < 1 {
            1
        } else {
            left as u16
        },
        host_height,
    )
}

/// The width of the sidebar when its border is dragged to a column.
pub open spec fn dragged_width(column: u16, host_width: u16, min_width: u16, max_width: u16) -> int {
    if host_width <= 1 {
        host_width as int
    } else {
        let largest = smaller(max_width as int, host_width - 1);
        let smallest = smaller(min_width as int, largest);
        let asked = smaller(column + 1, u16::MAX as int);
        if asked < smallest {
            smallest
        } else if asked > largest {
            largest
        } else {
            asked
        }
    }
}

/// The compositor after a mouse report that may drag the border of the sidebar; `None` where the
/// report is about something else.
pub open spec fn resized(
    c: CompositorView,
    mouse: MouseEvent,
    host_width: u16,
    settings: UiSettingsInfo,
) -> Option<CompositorView> {
    let width = effective_width(c.sidebar_width, host_width);
    if width == 0 {
        None
    } else {
        match mouse.kind {
            MouseEventKind::Down(MouseButton::Left) => if mouse.column == width - 1 {
                Some(CompositorView { resizing: true, ..c })
            } else {
                None
            },
            MouseEventKind::Drag(MouseButton::Left) => if c.resizing {
                Some(
                    CompositorView {
                        sidebar_width: dragged_width(
                            mouse.column,
                            host_width,
                            settings.sidebar_min_width,
                            settings.sidebar_max_width,
                        ) as u16,
                        ..c
                    },
                )
            } else {
                None
            },
            MouseEventKind::Up(MouseButton::Left) => if c.resizing {
                Some(CompositorView { resizing: false, ..c })
            } else {
                None
            },
            _ => None,
        }
    }
}

/// An offset moved by one step, between zero and its limit.
pub open spec fn scrolled(info: ScrollInfo, up: bool) -> int {
    if up {
        if info.offset == 0 {
            0
        } else {
            info.offset - 1
        }
    } else {
        smaller(
            smaller(info.offset + 1, usize::MAX as int),
            info.max_offset as int,
        )
    }
}

/// An offset moved by one step.
fn scrolled_offset(info: ScrollInfo, up: bool) -> (r: usize)
    ensures
        r == scrolled(info, up),
{
    if up {
        info.offset.saturating_sub(1)
    } else {
        let next: usize = info.offset.saturating_add(1);
        if next < info.max_offset {
            next
        } else {
            info.max_offset
        }
    }
}

/// Whether a row lies beside an area that is not empty.
pub open spec fn beside(area: Rect, y: u16) -> bool {
    area != empty_rect() && area.y <= y < smaller(area.y + area.height, u16::MAX as int)
}

/// The number of terminal columns that a text takes.
pub uninterp spec fn text_columns(s: Seq<char>) -> usize;

/// `unicode_width::UnicodeWidthStr::width`, the number of columns in which a terminal shows the
/// text. Its result is named `text_columns`.
#[verifier::external_body]
fn text_width(s: &str) -> (r: usize)
    ensures
        r == text_columns(s@),
{
    UnicodeWidthStr::width(s)
}

/// Where the label of the filter lies: at the right of the sidebar's first row. `columns` is how
/// many columns it takes.
pub open spec fn label_rect(sidebar: Rect, empty: bool, columns: usize) -> Rect {
    if sidebar.width <= 1 || sidebar.height == 0 || empty {
        empty_rect()
    } else {
        let room = sidebar.width - 1;
        let width = smaller(columns as int % 0x1_0000, room);
        Rect {
            x: (sidebar.x + (room - width)) as u16,
            y: sidebar.y,
            width: width as u16,
            height: 1,
        }
    }
}

/// Where a label that takes so many columns lies.
pub fn filter_label_rect_of_width(sidebar: Rect, empty: bool, columns: usize) -> (r: Rect)
    requires
        sidebar.width > 1 && sidebar.height > 0 && !empty ==> sidebar.x + (sidebar.width - 1
            - smaller(columns as int % 0x1_0000, sidebar.width - 1)) <= u16::MAX,
    ensures
        r == label_rect(sidebar, empty, columns),
{
    if sidebar.width <= 1 || sidebar.height == 0 || empty {
        return Rect::default();
    }
    let room: u16 = sidebar.width - 1;
    let low: u16 = (columns % 0x1_0000) as u16;
    let width: u16 = if low < room {
        low
    } else {
        room
    };
    Rect::new(sidebar.x + (room - width), sidebar.y, width, 1)
}

/// Where the label of the filter lies.
pub fn filter_label_rect(sidebar: Rect, label: &str) -> (r: Rect)
    requires
        sidebar.width > 1 && sidebar.height > 0 && label@.len() > 0 ==> sidebar.x + (sidebar.width
            - 1) <= u16::MAX,
    ensures
        r == label_rect(sidebar, label@.len() == 0, text_columns(label@)),
{
    filter_label_rect_of_width(sidebar, label.is_empty(), text_width(label))
}

/// Where the label of a model's filter lies.
pub open spec fn model_label_rect(m: ModelView, width: int, host_height: u16) -> Rect {
    label_rect(
        Rect { x: 0, y: 0, width: width as u16, height: host_height },
        filter_label_of(m).len() == 0,
        text_columns(filter_label_of(m)),
    )
}

/// The rows that the sidebar shows.
pub open spec fn rows_shown(c: CompositorView, m: ModelView) -> Seq<PlannedRowView> {
    planned_rows(workspace_rows_of(m), agent_groups_of(m), c.working_since, 0)
}

/// What a click on a workspace card meets: nothing where the row has no workspace or cannot be
/// used.
pub open spec fn card_hit(rows: Seq<PlannedRowView>, ws_idx: int) -> Option<HitView> {
    if ws_idx >= rows.len() || rows[ws_idx].disabled {
        None
    } else {
        match rows[ws_idx].workspace_id {
            Some(workspace_id) => Some(
                HitView::Workspace { server_id: rows[ws_idx].server_id, workspace_id },
            ),
            None => None,
        }
    }
}

/// What a click in the list of agents meets.
pub open spec fn agent_hit(
    routes: Seq<AgentRouteView>,
    layout: SidebarLayout,
    x: u16,
    y: u16,
) -> Option<HitView> {
    match agent_under(layout.agents, x, y) {
        Some(i) => if i < routes.len() {
            Some(HitView::Agent { server_id: routes[i].server_id, agent_id: routes[i].agent_id })
        } else {
            None
        },
        None => None,
    }
}

/// What a click in the sidebar itself meets.
pub open spec fn sidebar_hit(
    m: ModelView,
    rows: Seq<PlannedRowView>,
    routes: Seq<AgentRouteView>,
    layout: SidebarLayout,
    label: Rect,
    x: u16,
    y: u16,
) -> Option<HitView> {
    if contains(label, x, y) {
        Some(HitView::Filter)
    } else if contains(layout.new_button, x, y) {
        Some(HitView::New)
    } else if contains(layout.launcher, x, y) {
        Some(HitView::Menu)
    } else {
        match card_under(layout.cards@, x, y) {
            Some(i) => card_hit(rows, layout.cards@[i].ws_idx as int),
            None => agent_hit(routes, layout, x, y),
        }
    }
}

/// The item of the open menu under a cell.
pub open spec fn open_menu_item(m: ModelView, layout: SidebarLayout, x: u16, y: u16) -> Option<int> {
    if highlighted_of(m) is None {
        None
    } else {
        menu_item_under(layout.menu, layout.menu_items as int, x, y)
    }
}

/// What a click meets: first what lies over the sidebar, then the sidebar. While remotes are
/// managed nothing below can be met.
pub open spec fn hit_of(
    sidebar_width: u16,
    m: ModelView,
    rows: Seq<PlannedRowView>,
    routes: Seq<AgentRouteView>,
    layout: SidebarLayout,
    label: Rect,
    x: u16,
    y: u16,
    host_width: u16,
    host_height: u16,
) -> Option<HitView> {
    let width = effective_width(sidebar_width, host_width);
    if width == 0 || host_height == 0 || y >= host_height {
        None
    } else if open_menu_item(m, layout, x, y) is Some {
        Some(HitView::ClientGlobalMenuItem { index: open_menu_item(m, layout, x, y)->0 })
    } else if picker_hit_of(m, layout, x, y) is Some {
        picker_hit_of(m, layout, x, y)
    } else if form_hit_of(m, layout, x, y) is Some {
        form_hit_of(m, layout, x, y)
    } else if layout.manage is Some {
        manage_hit(layout.manage->0, x, y)
    } else if x >= width {
        None
    } else {
        sidebar_hit(m, rows, routes, layout, label, x, y)
    }
}

/// What the mouse is over in the sidebar itself.
pub open spec fn sidebar_hover(
    rows: Seq<PlannedRowView>,
    routes: Seq<AgentRouteView>,
    layout: SidebarLayout,
    label: Rect,
    x: u16,
    y: u16,
) -> Option<SidebarHoverTarget> {
    if contains(label, x, y) {
        Some(SidebarHoverTarget::Filter)
    } else if layout.mouse_capture && contains(layout.new_button, x, y) {
        Some(SidebarHoverTarget::New)
    } else if layout.mouse_capture && contains(layout.launcher, x, y) {
        Some(SidebarHoverTarget::Menu)
    } else if banner_under(layout.banners@, x, y) is Some {
        Some(
            SidebarHoverTarget::HostBanner {
                banner_idx: banner_under(layout.banners@, x, y)->0 as usize,
            },
        )
    } else if layout.divider_rows@.contains(y) {
        Some(SidebarHoverTarget::Divider)
    } else {
        match card_under(layout.cards@, x, y) {
            Some(i) => {
                let ws_idx = layout.cards@[i].ws_idx;
                if card_hit(rows, ws_idx as int) is Some {
                    Some(SidebarHoverTarget::Workspace { ws_idx })
                } else {
                    None
                }
            },
            None => match agent_under(layout.agents, x, y) {
                Some(i) => if i < routes.len() {
                    Some(SidebarHoverTarget::AgentRoute { route_idx: i as usize })
                } else {
                    None
                },
                None => None,
            },
        }
    }
}

/// What the mouse is over. What lies over the sidebar has its own highlight, but for the picker,
/// whose rows count.
pub open spec fn hover_of(
    sidebar_width: u16,
    m: ModelView,
    rows: Seq<PlannedRowView>,
    routes: Seq<AgentRouteView>,
    layout: SidebarLayout,
    label: Rect,
    x: u16,
    y: u16,
    host_width: u16,
    host_height: u16,
) -> Option<SidebarHoverTarget> {
    let width = effective_width(sidebar_width, host_width);
    if width == 0 || host_height == 0 || y >= host_height {
        None
    } else if highlighted_of(m) is Some || m.overlay is AddRemote || layout.manage is Some {
        None
    } else if m.picker is Some {
        picker_hover_of(m, layout, x, y)
    } else if x >= width {
        None
    } else {
        sidebar_hover(rows, routes, layout, label, x, y)
    }
}

/// The areas that content must leave free: that of the overlay that is open.
pub open spec fn protected_areas(m: ModelView, layout: SidebarLayout) -> Seq<Rect> {
    if m.overlay is AddRemote {
        match layout.form {
            Some(form) => seq![form.popup],
            None => Seq::empty(),
        }
    } else if m.picker is Some {
        match layout.picker {
            Some(popup) => seq![popup.popup],
            None => Seq::empty(),
        }
    } else if layout.manage is Some {
        manage_areas(layout.manage->0)
    } else if highlighted_of(m) is Some {
        seq![layout.menu]
    } else {
        Seq::empty()
    }
}

/// The areas of the overlay in which remotes are managed.
pub open spec fn manage_areas(overlay: ManageOverlay) -> Seq<Rect> {
    (match overlay.list {
        Some(list) => seq![list.popup],
        None => Seq::empty(),
    }) + (match overlay.confirm {
        Some(popup) => if overlay.confirming {
            seq![popup.popup]
        } else {
            Seq::empty()
        },
        None => Seq::empty(),
    })
}

/// Whether a frame is the shell with the content of the active server beside the sidebar: cells
/// and cursor beside it, where nothing lies over the content, and the links of the content.
pub open spec fn is_composed(
    c: CompositorView,
    m: ModelView,
    layout: SidebarLayout,
    shell: FrameData,
    active: FrameData,
    r: FrameData,
) -> bool {
    let width = effective_width(c.sidebar_width, shell.width);
    let left = (shell.width - width) as u16;
    let covered = m.overlay is AddRemote || m.picker is Some || layout.manage is Some;
    &&& r.width == shell.width
    &&& r.height == shell.height
    &&& content_copied(
        active.cells@,
        active.width,
        shell.cells@,
        r.cells@,
        shell.width,
        shell.height,
        (CopyArea {
            x: width,
            width: smaller(left as int, active.width as int),
            height: smaller(shell.height as int, active.height as int),
        }),
        protected_areas(m, layout),
    )
    &&& r.cursor == (if covered {
        None
    } else {
        cursor_beside(active.cursor, width as u16, left)
    })
    &&& r.hyperlinks@ == active.hyperlinks@
    &&& r.graphics@ == (if width == 0 {
        active.graphics@
    } else {
        shell.graphics@
    })
}

impl ClientCompositor {
    /// A compositor with a sidebar of this width.
    pub fn new(sidebar_width: u16) -> (r: Self)
        ensures
            r@ == new_compositor(sidebar_width),
    {
        let r: ClientCompositor = ClientCompositor {
            sidebar_width,
            workspace_scroll: 0,
            agent_panel_scroll: 0,
            resizing_sidebar: false,
            animation_tick: 0,
            hover: None,
            working_since: Vec::new(),
        };
        assert(r@ =~= new_compositor(sidebar_width));
        r
    }

    pub fn sidebar_width(&self) -> (r: u16)
        ensures
            r == self@.sidebar_width,
    {
        self.sidebar_width
    }

    /// Moves the clock of the animations on.
    pub fn advance_animation_tick(&mut self, step: u32)
        ensures
            final(self)@ == (CompositorView {
                animation_tick: ((old(self)@.animation_tick + step) % 0x1_0000_0000) as u32,
                ..old(self)@
            }),
    {
        self.animation_tick = self.animation_tick.wrapping_add(step);
    }

    pub fn animation_tick(&self) -> (r: u32)
        ensures
            r == self@.animation_tick,
    {
        self.animation_tick
    }

    /// Notes that an agent works, unless that is known already.
    pub fn seed_working_since(&mut self, server_id: ServerId, agent_id: String, now: u64)
        ensures
            final(self)@ == (if since_of(old(self)@.working_since, server_id@, agent_id@) is Some {
                old(self)@
            } else {
                CompositorView {
                    working_since: old(self)@.working_since.push(
                        SinceView { server_id: server_id@, agent_id: agent_id@, since: now },
                    ),
                    ..old(self)@
                }
            }),
    {
        if find_since(&self.working_since, &server_id, &agent_id).is_some() {
            return;
        }
        let ghost before = self.working_since.deep_view();
        let entry: WorkingSince = WorkingSince { server_id, agent_id, since: now };
        self.working_since.push(entry);
        assert(self.working_since.deep_view() =~= before.push(entry.deep_view()));
    }

    /// Forgets the agents that do not work any more. `working` lists those that do.
    pub fn retain_working_since(&mut self, working: &Vec<AgentRoute>)
        ensures
            final(self)@ == (CompositorView {
                working_since: pick(
                    old(self)@.working_since,
                    |e: SinceView| kept_entry(e, working.deep_view()),
                ),
                ..old(self)@
            }),
    {
        let ghost all = self.working_since.deep_view();
        let ghost f = |e: SinceView| kept_entry(e, working.deep_view());
        let mut kept: Vec<WorkingSince> = Vec::new();
        let mut i: usize = 0;
        assert(kept.deep_view() =~= pick(all.take(0), f));
        while i < self.working_since.len()
            invariant
                i <= self.working_since@.len(),
                all == self.working_since.deep_view(),
                f == (|e: SinceView| kept_entry(e, working.deep_view())),
                kept.deep_view() =~= pick(all.take(i as int), f),
            decreases self.working_since@.len() - i,
        {
            let ghost before = kept.deep_view();
            let entry: &WorkingSince = &self.working_since[i];
            assert(all[i as int] == entry.deep_view());
            proof {
                lemma_pick_step(all, i as int, f);
            }
            if lists_agent(working, &entry.server_id, &entry.agent_id) {
                let copy: WorkingSince = WorkingSince {
                    server_id: entry.server_id.clone(),
                    agent_id: entry.agent_id.clone(),
                    since: entry.since,
                };
                kept.push(copy);
                assert(kept.deep_view() =~= before.push(copy.deep_view()));
            }
            i = i + 1;
        }
        assert(all.take(i as int) =~= all);
        self.working_since = kept;
    }

    /// Has the list of the agents that work hold exactly those that do.
    pub fn keep_working_since(&mut self, model: &ClientSupervisorModel, now: u64)
        ensures
            final(self)@ == (CompositorView {
                working_since: working_kept(
                    old(self)@.working_since,
                    working_agents(model@),
                    now,
                ),
                ..old(self)@
            }),
    {
        let working: Vec<AgentRoute> = list_working_agents(model);
        let ghost all = working.deep_view();
        let ghost start = self@;
        let mut i: usize = 0;
        assert(all.take(0) =~= Seq::<AgentRouteView>::empty());
        while i < working.len()
            invariant
                i <= working@.len(),
                all == working.deep_view(),
                self@ == (CompositorView {
                    working_since: all_seeded(start.working_since, all.take(i as int), now),
                    ..start
                }),
            decreases working@.len() - i,
        {
            assert(all[i as int] == working@[i as int].deep_view());
            assert(all.take(i + 1).drop_last() =~= all.take(i as int));
            assert(all.take(i + 1).last() == all[i as int]);
            self.seed_working_since(
                working[i].server_id.clone(),
                working[i].agent_id.clone(),
                now,
            );
            i = i + 1;
        }
        assert(all.take(i as int) =~= all);
        self.retain_working_since(&working);
    }

    /// Notes what the mouse is over; whether that changed.
    pub fn set_hover(&mut self, next: Option<SidebarHoverTarget>) -> (r: bool)
        ensures
            r == (old(self)@.hover != next),
            final(self)@ == (CompositorView { hover: next, ..old(self)@ }),
    {
        let changed: bool = match (self.hover, next) {
            (Some(a), Some(b)) => a != b,
            (None, None) => false,
            _ => true,
        };
        self.hover = next;
        changed
    }

    pub fn hover(&self) -> (r: Option<SidebarHoverTarget>)
        ensures
            r == self@.hover,
    {
        self.hover
    }

    pub fn working_since_len(&self) -> (r: usize)
        ensures
            r == self@.working_since.len(),
    {
        self.working_since.len()
    }

    pub fn working_since_at(&self, server_id: &ServerId, agent_id: &String) -> (r: Option<u64>)
        ensures
            r == since_of(self@.working_since, server_id@, agent_id@),
    {
        find_since(&self.working_since, server_id, agent_id)
    }

    /// What the sidebar is to show at a time, in milliseconds.
    pub fn sidebar_plan(&self, model: &ClientSupervisorModel, now: u64) -> (r: SidebarPlan)
        ensures
            plan_is(r, model@, self@.working_since, now),
    {
        sidebar_plan(model, &self.working_since, now)
    }

    pub(crate) fn effective_sidebar_width(&self, host_width: u16) -> (r: u16)
        ensures
            r == effective_width(self@.sidebar_width, host_width),
            r <= host_width,
    {
        if host_width <= 1 {
            return 0;
        }
        if self.sidebar_width < host_width - 1 {
            self.sidebar_width
        } else {
            host_width - 1
        }
    }

    /// The size that is left for content.
    pub fn content_size(&self, host_width: u16, host_height: u16) -> (r: (u16, u16))
        ensures
            r == content_size_of(self@.sidebar_width, host_width, host_height),
    {
        let left: u16 = host_width - self.effective_sidebar_width(host_width);
        if left < 1 {
            (1, host_height)
        } else {
            (left, host_height)
        }
    }

    fn set_sidebar_width_from_column(
        &mut self,
        column: u16,
        host_width: u16,
        configured_min_width: u16,
        configured_max_width: u16,
    )
        ensures
            final(self)@ == (CompositorView {
                sidebar_width: dragged_width(
                    column,
                    host_width,
                    configured_min_width,
                    configured_max_width,
                ) as u16,
                ..old(self)@
            }),
    {
        if host_width <= 1 {
            self.sidebar_width = host_width;
            return;
        }
        let largest: u16 = if configured_max_width < host_width - 1 {
            configured_max_width
        } else {
            host_width - 1
        };
        let smallest: u16 = if configured_min_width < largest {
            configured_min_width
        } else {
            largest
        };
        let asked: u16 = column.saturating_add(1);
        self.sidebar_width = if asked < smallest {
            smallest
        } else if asked > largest {
            largest
        } else {
            asked
        };
    }

    /// Handles a mouse report that may drag the border of the sidebar: the size that is then left
    /// for content, `None` where the report is about something else.
    pub fn handle_sidebar_resize_mouse(
        &mut self,
        mouse: &MouseEvent,
        host_width: u16,
        host_height: u16,
        settings: &UiSettingsInfo,
    ) -> (r: Option<(u16, u16)>)
        ensures
            match resized(old(self)@, *mouse, host_width, *settings) {
                Some(next) => final(self)@ == next && r == Some(
                    content_size_of(next.sidebar_width, host_width, host_height),
                ),
                None => final(self)@ == old(self)@ && r is None,
            },
    {
        let width: u16 = self.effective_sidebar_width(host_width);
        if width == 0 {
            return None;
        }
        match mouse.kind {
            MouseEventKind::Down(MouseButton::Left) => {
                if mouse.column == width - 1 {
                    self.resizing_sidebar = true;
                    Some(self.content_size(host_width, host_height))
                } else {
                    None
                }
            },
            MouseEventKind::Drag(MouseButton::Left) => {
                if self.resizing_sidebar {
                    self.set_sidebar_width_from_column(
                        mouse.column,
                        host_width,
                        settings.sidebar_min_width,
                        settings.sidebar_max_width,
                    );
                    Some(self.content_size(host_width, host_height))
                } else {
                    None
                }
            },
            MouseEventKind::Up(MouseButton::Left) => {
                if self.resizing_sidebar {
                    self.resizing_sidebar = false;
                    Some(self.content_size(host_width, host_height))
                } else {
                    None
                }
            },
            _ => None,
        }
    }

    /// Handles a turn of the wheel over the sidebar: whether a list moved, `None` where the report
    /// is about something else.
    pub fn handle_sidebar_scroll_mouse(
        &mut self,
        layout: &SidebarLayout,
        mouse: &MouseEvent,
        host_width: u16,
        host_height: u16,
    ) -> (r: Option<bool>)
        ensures
            ({
                let width = effective_width(old(self)@.sidebar_width, host_width);
                let wheel = mouse.kind is ScrollUp || mouse.kind is ScrollDown;
                let up = mouse.kind is ScrollUp;
                if !wheel || width == 0 || host_height == 0 || mouse.column >= width || mouse.row
                    >= host_height {
                    r is None && final(self)@ == old(self)@
                } else if beside(layout.detail_area, mouse.row) {
                    if layout.agent_scroll.scrollable {
                        r == Some(scrolled(layout.agent_scroll, up) != layout.agent_scroll.offset)
                            && final(self)@ == (CompositorView {
                            agent_panel_scroll: scrolled(layout.agent_scroll, up) as usize,
                            ..old(self)@
                        })
                    } else {
                        r == Some(false) && final(self)@ == old(self)@
                    }
                } else if layout.workspace_scroll.scrollable {
                    r == Some(
                        scrolled(layout.workspace_scroll, up) != layout.workspace_scroll.offset,
                    ) && final(self)@ == (CompositorView {
                        workspace_scroll: scrolled(layout.workspace_scroll, up) as usize,
                        ..old(self)@
                    })
                } else {
                    r == Some(false) && final(self)@ == old(self)@
                }
            }),
    {
        let up: bool = match mouse.kind {
            MouseEventKind::ScrollUp => true,
            MouseEventKind::ScrollDown => false,
            _ => {
                return None;
            },
        };
        let width: u16 = self.effective_sidebar_width(host_width);
        if width == 0 || host_height == 0 || mouse.column >= width || mouse.row >= host_height {
            return None;
        }
        let area: Rect = layout.detail_area;
        let nothing: bool = area.x == 0 && area.y == 0 && area.width == 0 && area.height == 0;
        let over_agents: bool = !nothing && mouse.row >= area.y && mouse.row
            < area.y.saturating_add(area.height);
        if over_agents {
            if !layout.agent_scroll.scrollable {
                return Some(false);
            }
            let next: usize = scrolled_offset(layout.agent_scroll, up);
            self.agent_panel_scroll = next;
            return Some(next != layout.agent_scroll.offset);
        }
        if !layout.workspace_scroll.scrollable {
            return Some(false);
        }
        let next: usize = scrolled_offset(layout.workspace_scroll, up);
        self.workspace_scroll = next;
        Some(next != layout.workspace_scroll.offset)
    }

    /// What a click meets.
    pub fn hit_test(
        &self,
        model: &ClientSupervisorModel,
        layout: &SidebarLayout,
        x: u16,
        y: u16,
        host_width: u16,
        host_height: u16,
    ) -> (r: Option<SidebarHitTarget>)
        ensures
            r.deep_view() == hit_of(
                self@.sidebar_width,
                model@,
                rows_shown(self@, model@),
                agent_routes_of(rows_shown(self@, model@)),
                *layout,
                model_label_rect(
                    model@,
                    effective_width(self@.sidebar_width, host_width),
                    host_height,
                ),
                x,
                y,
                host_width,
                host_height,
            ),
    {
        let width: u16 = self.effective_sidebar_width(host_width);
        if width == 0 || host_height == 0 || y >= host_height {
            return None;
        }
        if let Some(index) = self.open_menu_item_at(model, layout, x, y) {
            return Some(SidebarHitTarget::ClientGlobalMenuItem { index });
        }
        let picker: Option<SidebarHitTarget> = hit_test_new_workspace_picker(model, layout, x, y);
        if picker.is_some() {
            return picker;
        }
        let form: Option<SidebarHitTarget> = hit_test_add_remote(model, layout, x, y);
        if form.is_some() {
            return form;
        }
        if let Some(overlay) = &layout.manage {
            return hit_test_remote_manage(overlay, x, y);
        }
        if x >= width {
            return None;
        }
        let label: String = model.filter_label();
        if rect_contains(
            filter_label_rect(Rect::new(0, 0, width, host_height), label.as_str()),
            x,
            y,
        ) {
            return Some(SidebarHitTarget::Filter);
        }
        if rect_contains(layout.new_button, x, y) {
            return Some(SidebarHitTarget::New);
        }
        if rect_contains(layout.launcher, x, y) {
            return Some(SidebarHitTarget::Menu);
        }
        let plan: SidebarPlan = self.sidebar_plan(model, 0);
        if let Some(i) = card_at(&layout.cards, x, y) {
            return click_on_row(&plan.rows, layout.cards[i].ws_idx);
        }
        assert(plan.agent_routes.deep_view().len() == plan.agent_routes@.len());
        match agent_index_at(&layout.agents, x, y) {
            Some(i) => {
                if i < plan.agent_routes.len() {
                    let route: &AgentRoute = &plan.agent_routes[i];
                    assert(plan.agent_routes.deep_view()[i as int] == route.deep_view());
                    Some(
                        SidebarHitTarget::Agent {
                            server_id: route.server_id.clone(),
                            agent_id: route.agent_id.clone(),
                        },
                    )
                } else {
                    None
                }
            },
            None => None,
        }
    }

    fn open_menu_item_at(
        &self,
        model: &ClientSupervisorModel,
        layout: &SidebarLayout,
        x: u16,
        y: u16,
    ) -> (r: Option<usize>)
        ensures
            match r {
                Some(i) => open_menu_item(model@, *layout, x, y) == Some(i as int),
                None => open_menu_item(model@, *layout, x, y) is None,
            },
    {
        if model.client_global_menu_highlighted().is_none() {
            return None;
        }
        global_menu_item_index_at(layout.menu, layout.menu_items, x, y)
    }

    /// The item of the open menu that the mouse is over.
    pub fn client_global_menu_item_at(
        &self,
        model: &ClientSupervisorModel,
        layout: &SidebarLayout,
        x: u16,
        y: u16,
        host_width: u16,
        host_height: u16,
    ) -> (r: Option<usize>)
        ensures
            match r {
                Some(i) => effective_width(self@.sidebar_width, host_width) > 0 && host_height > 0
                    && open_menu_item(model@, *layout, x, y) == Some(i as int),
                None => effective_width(self@.sidebar_width, host_width) == 0 || host_height == 0
                    || open_menu_item(model@, *layout, x, y) is None,
            },
    {
        if self.effective_sidebar_width(host_width) == 0 || host_height == 0 {
            return None;
        }
        self.open_menu_item_at(model, layout, x, y)
    }

    /// What the mouse is over.
    pub fn hover_test(
        &self,
        model: &ClientSupervisorModel,
        layout: &SidebarLayout,
        x: u16,
        y: u16,
        host_width: u16,
        host_height: u16,
    ) -> (r: Option<SidebarHoverTarget>)
        ensures
            r == hover_of(
                self@.sidebar_width,
                model@,
                rows_shown(self@, model@),
                agent_routes_of(rows_shown(self@, model@)),
                *layout,
                model_label_rect(
                    model@,
                    effective_width(self@.sidebar_width, host_width),
                    host_height,
                ),
                x,
                y,
                host_width,
                host_height,
            ),
    {
        let width: u16 = self.effective_sidebar_width(host_width);
        if width == 0 || host_height == 0 || y >= host_height {
            return None;
        }
        if model.client_global_menu_highlighted().is_some() || model.add_remote_form().is_some()
            || layout.manage.is_some() {
            return None;
        }
        if model.new_workspace_picker().is_some() {
            return hover_test_new_workspace_picker(model, layout, x, y);
        }
        if x >= width {
            return None;
        }
        let label: String = model.filter_label();
        if rect_contains(
            filter_label_rect(Rect::new(0, 0, width, host_height), label.as_str()),
            x,
            y,
        ) {
            return Some(SidebarHoverTarget::Filter);
        }
        if layout.mouse_capture {
            if rect_contains(layout.new_button, x, y) {
                return Some(SidebarHoverTarget::New);
            }
            if rect_contains(layout.launcher, x, y) {
                return Some(SidebarHoverTarget::Menu);
            }
        }
        if let Some(banner_idx) = banner_at(&layout.banners, x, y) {
            return Some(SidebarHoverTarget::HostBanner { banner_idx });
        }
        if lists_row(&layout.divider_rows, y) {
            return Some(SidebarHoverTarget::Divider);
        }
        let plan: SidebarPlan = self.sidebar_plan(model, 0);
        if let Some(i) = card_at(&layout.cards, x, y) {
            let ws_idx: usize = layout.cards[i].ws_idx;
            return if click_on_row(&plan.rows, ws_idx).is_some() {
                Some(SidebarHoverTarget::Workspace { ws_idx })
            } else {
                None
            };
        }
        assert(plan.agent_routes.deep_view().len() == plan.agent_routes@.len());
        match agent_index_at(&layout.agents, x, y) {
            Some(route_idx) => {
                if route_idx < plan.agent_routes.len() {
                    Some(SidebarHoverTarget::AgentRoute { route_idx })
                } else {
                    None
                }
            },
            None => None,
        }
    }

    /// Puts the content of the active server beside the sidebar. `shell` is the frame with the
    /// sidebar and what lies over it, of the size of the host.
    pub fn compose_frame(
        &self,
        model: &ClientSupervisorModel,
        layout: &SidebarLayout,
        shell: FrameData,
        active_frame: &FrameData,
    ) -> (r: FrameData)
        ensures
            is_composed(self@, model@, *layout, shell, *active_frame, r),
    {
        let width: u16 = self.effective_sidebar_width(shell.width);
        let left: u16 = shell.width - width;
        let areas: Vec<Rect> = self.protected(model, layout);
        let mut frame: FrameData = shell;
        copy_active_content_excluding(active_frame, &mut frame, width, left, &areas);
        let covered: bool = model.add_remote_form().is_some()
            || model.new_workspace_picker().is_some() || layout.manage.is_some();
        frame.cursor = if covered {
            None
        } else {
            offset_cursor(&active_frame.cursor, width, left)
        };
        frame.hyperlinks = text::clone_strings(&active_frame.hyperlinks);
        if width == 0 {
            frame.graphics = vstd::slice::slice_to_vec(active_frame.graphics.as_slice());
        }
        frame
    }

    fn protected(&self, model: &ClientSupervisorModel, layout: &SidebarLayout) -> (r: Vec<Rect>)
        ensures
            r@ == protected_areas(model@, *layout),
    {
        let mut areas: Vec<Rect> = Vec::new();
        if model.add_remote_form().is_some() {
            if let Some(form) = &layout.form {
                areas.push(form.popup);
            }
        } else if model.new_workspace_picker().is_some() {
            if let Some(popup) = &layout.picker {
                areas.push(popup.popup);
            }
        } else if let Some(overlay) = &layout.manage {
            if let Some(list) = &overlay.list {
                areas.push(list.popup);
            }
            if overlay.confirming {
                if let Some(popup) = &overlay.confirm {
                    areas.push(popup.popup);
                }
            }
        } else if model.client_global_menu_highlighted().is_some() {
            areas.push(layout.menu);
        }
        assert(areas@ =~= protected_areas(model@, *layout));
        areas
    }
}

impl Default for ClientCompositor {
    fn default() -> (r: Self)
        ensures
            r@ == new_compositor(DEFAULT_SIDEBAR_WIDTH),
    {
        ClientCompositor::new(DEFAULT_SIDEBAR_WIDTH)
    }
}

/// An entry that is kept: its agent is listed.
pub open spec fn kept_entry(entry: SinceView, working: Seq<AgentRouteView>) -> Option<SinceView> {
    if working.contains(
        AgentRouteView { server_id: entry.server_id, agent_id: entry.agent_id },
    ) {
        Some(entry)
    } else {
        None
    }
}

fn lists_agent(agents: &Vec<AgentRoute>, server_id: &ServerId, agent_id: &String) -> (r: bool)
    ensures
        r == agents.deep_view().contains(
            (AgentRouteView { server_id: server_id@, agent_id: agent_id@ }),
        ),
{
    let ghost all = agents.deep_view();
    let ghost wanted = AgentRouteView { server_id: server_id@, agent_id: agent_id@ };
    let mut i: usize = 0;
    while i < agents.len()
        invariant
            i <= agents@.len(),
            all == agents.deep_view(),
            wanted == (AgentRouteView { server_id: server_id@, agent_id: agent_id@ }),
            forall|k: int| 0 <= k < i ==> #[trigger] all[k] != wanted,
        decreases agents@.len() - i,
    {
        assert(all[i as int] == agents@[i as int].deep_view());
        if agents[i].server_id.is(server_id) && agents[i].agent_id == *agent_id {
            assert(all[i as int] == wanted);
            return true;
        }
        i = i + 1;
    }
    false
}

/// What a click on the card of a row meets.
fn click_on_row(rows: &Vec<PlannedRow>, ws_idx: usize) -> (r: Option<SidebarHitTarget>)
    ensures
        r.deep_view() == card_hit(rows.deep_view(), ws_idx as int),
{
    assert(rows.deep_view().len() == rows@.len());
    if ws_idx >= rows.len() {
        return None;
    }
    let row: &PlannedRow = &rows[ws_idx];
    assert(rows.deep_view()[ws_idx as int] == row.deep_view());
    if row.disabled {
        return None;
    }
    match &row.workspace_id {
        Some(workspace_id) => Some(
            SidebarHitTarget::Workspace {
                server_id: row.server_id.clone(),
                workspace_id: workspace_id.clone(),
            },
        ),
        None => None,
    }
}

/// An agent of a server, where it works.
pub open spec fn working_route(agent: AgentRowView, server_id: Seq<char>) -> Option<AgentRouteView> {
    if agent.status == "working"@ {
        Some(AgentRouteView { server_id, agent_id: agent.agent_id })
    } else {
        None
    }
}

/// The agents of a group that work.
pub open spec fn working_in(group: GroupView) -> Seq<AgentRouteView> {
    pick(group.agents, |a: AgentRowView| working_route(a, group.server_id))
}

/// The agents that work.
pub open spec fn working_agents(m: ModelView) -> Seq<AgentRouteView> {
    flat(agent_groups_of(m), |g: GroupView| working_in(g))
}

/// The list with an agent that is seen to work, unless that is known already.
pub open spec fn seeded(list: Seq<SinceView>, agent: AgentRouteView, now: u64) -> Seq<SinceView> {
    if since_of(list, agent.server_id, agent.agent_id) is Some {
        list
    } else {
        list.push(SinceView { server_id: agent.server_id, agent_id: agent.agent_id, since: now })
    }
}

/// The list with agents that are seen to work.
pub open spec fn all_seeded(
    list: Seq<SinceView>,
    agents: Seq<AgentRouteView>,
    now: u64,
) -> Seq<SinceView>
    decreases agents.len(),
{
    if agents.len() == 0 {
        list
    } else {
        seeded(all_seeded(list, agents.drop_last(), now), agents.last(), now)
    }
}

/// The list of the agents that work: those that begin to are noted, those that have ceased to go.
pub open spec fn working_kept(
    list: Seq<SinceView>,
    agents: Seq<AgentRouteView>,
    now: u64,
) -> Seq<SinceView> {
    pick(all_seeded(list, agents, now), |e: SinceView| kept_entry(e, agents))
}

/// The agents that work.
fn list_working_agents(model: &ClientSupervisorModel) -> (r: Vec<AgentRoute>)
    ensures
        r.deep_view() == working_agents(model@),
{
    let groups: Vec<AgentSidebarGroup> = model.agent_groups();
    let ghost all = groups.deep_view();
    let ghost f = |g: GroupView| working_in(g);
    let mut list: Vec<AgentRoute> = Vec::new();
    let mut i: usize = 0;
    assert(list.deep_view() =~= flat(all.take(0), f));
    while i < groups.len()
        invariant
            i <= groups@.len(),
            all == groups.deep_view(),
            f == (|g: GroupView| working_in(g)),
            list.deep_view() =~= flat(all.take(i as int), f),
        decreases groups@.len() - i,
    {
        let group: &AgentSidebarGroup = &groups[i];
        let ghost view = group.deep_view();
        let ghost g = |a: AgentRowView| working_route(a, view.server_id);
        let ghost before = list.deep_view();
        assert(all[i as int] == view);
        proof {
            lemma_flat_step(all, i as int, f);
        }
        let mut j: usize = 0;
        assert(list.deep_view() =~= before + pick(view.agents.take(0), g));
        while j < group.agents.len()
            invariant
                j <= group.agents@.len(),
                view == group.deep_view(),
                g == (|a: AgentRowView| working_route(a, view.server_id)),
                list.deep_view() =~= before + pick(view.agents.take(j as int), g),
            decreases group.agents@.len() - j,
        {
            assert(view.agents[j as int] == group.agents@[j as int].deep_view());
            let ghost so_far = list.deep_view();
            proof {
                lemma_pick_step(view.agents, j as int, g);
            }
            if text::same(group.agents[j].status.as_str(), "working") {
                let route: AgentRoute = AgentRoute {
                    server_id: group.server_id.clone(),
                    agent_id: group.agents[j].agent_id.clone(),
                };
                let ghost shown = route.deep_view();
                list.push(route);
                assert(list.deep_view() =~= so_far.push(shown));
            }
            j = j + 1;
        }
        assert(view.agents.take(j as int) =~= view.agents);
        i = i + 1;
    }
    assert(all.take(i as int) =~= all);
    list
}

proof fn lemma_pushed_since(
    list: Seq<SinceView>,
    last: SinceView,
    server_id: Seq<char>,
    agent_id: Seq<char>,
)
    ensures
        since_of(list.push(last), server_id, agent_id) == (match since_of(
            list,
            server_id,
            agent_id,
        ) {
            Some(since) => Some(since),
            None => if last.server_id == server_id && last.agent_id == agent_id {
                Some(last.since)
            } else {
                None
            },
        }),
    decreases list.len(),
{
    if list.len() > 0 {
        lemma_pushed_since(list.drop_first(), last, server_id, agent_id);
        assert(list.push(last).drop_first() =~= list.drop_first().push(last));
    } else {
        reveal_with_fuel(since_of, 2);
    }
}

proof fn lemma_all_seeded(
    list: Seq<SinceView>,
    agents: Seq<AgentRouteView>,
    now: u64,
    agent: AgentRouteView,
)
    ensures
        since_of(all_seeded(list, agents, now), agent.server_id, agent.agent_id) == (match since_of(
            list,
            agent.server_id,
            agent.agent_id,
        ) {
            Some(since) => Some(since),
            None => if agents.contains(agent) {
                Some(now)
            } else {
                None
            },
        }),
    decreases agents.len(),
{
    if agents.len() > 0 {
        let front = agents.drop_last();
        let last = agents.last();
        lemma_all_seeded(list, front, now, agent);
        let before = all_seeded(list, front, now);
        lemma_pushed_since(
            before,
            SinceView { server_id: last.server_id, agent_id: last.agent_id, since: now },
            agent.server_id,
            agent.agent_id,
        );
        if front.contains(agent) {
            let i = choose|i: int| 0 <= i < front.len() && front[i] == agent;
            assert(agents[i] == agent);
        }
        if last.server_id == agent.server_id && last.agent_id == agent.agent_id {
            assert(last =~= agent);
            assert(agents[agents.len() - 1] == agent);
        }
        if agents.contains(agent) {
            let i = choose|i: int| 0 <= i < agents.len() && agents[i] == agent;
            if i < front.len() {
                assert(front[i] == agent);
            }
        }
    }
}

proof fn lemma_kept_since(
    list: Seq<SinceView>,
    agents: Seq<AgentRouteView>,
    agent: AgentRouteView,
)
    ensures
        since_of(
            pick(list, |e: SinceView| kept_entry(e, agents)),
            agent.server_id,
            agent.agent_id,
        ) == (if agents.contains(agent) {
            since_of(list, agent.server_id, agent.agent_id)
        } else {
            None
        }),
    decreases list.len(),
{
    let f = |e: SinceView| kept_entry(e, agents);
    if list.len() > 0 {
        let front = list.drop_last();
        let last = list.last();
        lemma_kept_since(front, agents, agent);
        lemma_pushed_since(front, last, agent.server_id, agent.agent_id);
        lemma_pushed_since(pick(front, f), last, agent.server_id, agent.agent_id);
        assert(front.push(last) =~= list);
        if last.server_id == agent.server_id && last.agent_id == agent.agent_id {
            assert(agent =~= (AgentRouteView {
                server_id: last.server_id,
                agent_id: last.agent_id,
            }));
        }
    }
}

/// After the upkeep the list holds exactly the agents that work: one that worked before keeps the
/// time since when, one that begins to has it from now on, and every other one is gone.
pub proof fn law_list_holds_the_working_agents(
    list: Seq<SinceView>,
    agents: Seq<AgentRouteView>,
    now: u64,
    server_id: Seq<char>,
    agent_id: Seq<char>,
)
    ensures
        since_of(working_kept(list, agents, now), server_id, agent_id) == (if agents.contains(
            AgentRouteView { server_id, agent_id },
        ) {
            match since_of(list, server_id, agent_id) {
                Some(since) => Some(since),
                None => Some(now),
            }
        } else {
            None
        }),
{
    let agent = AgentRouteView { server_id, agent_id };
    lemma_all_seeded(list, agents, now, agent);
    lemma_kept_since(all_seeded(list, agents, now), agents, agent);
}

/// Whether no agent is listed twice.
pub open spec fn each_agent_once(list: Seq<SinceView>) -> bool {
    forall|i: int, j: int|
        0 <= i < j < list.len() ==> !((#[trigger] list[i]).server_id == (#[trigger] list[j]).server_id
            && list[i].agent_id == list[j].agent_id)
}

proof fn lemma_since_is_there(list: Seq<SinceView>, i: int)
    requires
        0 <= i < list.len(),
    ensures
        since_of(list, list[i].server_id, list[i].agent_id) is Some,
    decreases list.len(),
{
    if i > 0 {
        assert(list.drop_first()[i - 1] == list[i]);
        lemma_since_is_there(list.drop_first(), i - 1);
    }
}

proof fn lemma_seeded_once(list: Seq<SinceView>, agents: Seq<AgentRouteView>, now: u64)
    requires
        each_agent_once(list),
    ensures
        each_agent_once(all_seeded(list, agents, now)),
    decreases agents.len(),
{
    if agents.len() > 0 {
        lemma_seeded_once(list, agents.drop_last(), now);
        let before = all_seeded(list, agents.drop_last(), now);
        let after = all_seeded(list, agents, now);
        if after != before {
            assert forall|i: int, j: int| 0 <= i < j < after.len() implies !((#[trigger]
            after[i]).server_id == (#[trigger] after[j]).server_id && after[i].agent_id
                == after[j].agent_id) by {
                assert(after[i] == before[i]);
                if j < before.len() {
                    assert(after[j] == before[j]);
                } else {
                    lemma_since_is_there(before, i);
                }
            }
        }
    }
}

proof fn lemma_kept_once(list: Seq<SinceView>, agents: Seq<AgentRouteView>)
    requires
        each_agent_once(list),
    ensures
        each_agent_once(pick(list, |e: SinceView| kept_entry(e, agents))),
    decreases list.len(),
{
    let f = |e: SinceView| kept_entry(e, agents);
    if list.len() > 0 {
        let front = list.drop_last();
        assert forall|i: int, j: int| 0 <= i < j < front.len() implies !((#[trigger]
        front[i]).server_id == (#[trigger] front[j]).server_id && front[i].agent_id
            == front[j].agent_id) by {
            assert(front[i] == list[i] && front[j] == list[j]);
        }
        lemma_kept_once(front, agents);
        let left = pick(front, f);
        let all = pick(list, f);
        assert forall|i: int, j: int| 0 <= i < j < all.len() implies !((#[trigger]
        all[i]).server_id == (#[trigger] all[j]).server_id && all[i].agent_id
            == all[j].agent_id) by {
            assert(all[i] == left[i]);
            if j < left.len() {
                assert(all[j] == left[j]);
            } else {
                let k = lemma_pick_source(front, f, i);
                assert(front[k] == left[i]);
                assert(list[k] == front[k]);
                assert(list[list.len() - 1] == all[j]);
            }
        }
    }
}

/// The upkeep lists no agent twice.
pub proof fn law_working_agents_are_listed_once(
    list: Seq<SinceView>,
    agents: Seq<AgentRouteView>,
    now: u64,
)
    requires
        each_agent_once(list),
    ensures
        each_agent_once(working_kept(list, agents, now)),
{
    lemma_seeded_once(list, agents, now);
    lemma_kept_once(all_seeded(list, agents, now), agents);
}

/// Whether one of the groups has an agent that works.
pub open spec fn any_working(groups: Seq<GroupView>) -> bool {
    exists|i: int, j: int|
        0 <= i < groups.len() && 0 <= j < groups[i].agents.len() && #[trigger] groups[i].agents[j].status
            == "working"@
}

/// Whether anything in the sidebar moves: an agent that works, a banner, or a remote that is being
/// added.
pub open spec fn wants_animation(m: ModelView) -> bool {
    any_working(agent_groups_of(m)) || banner_moves(m) || m.adding
}

/// Whether anything in the sidebar moves.
pub fn sidebar_wants_animation(model: &ClientSupervisorModel) -> (r: bool)
    ensures
        r == wants_animation(model@),
{
    let groups: Vec<AgentSidebarGroup> = model.agent_groups();
    let ghost all = groups.deep_view();
    let mut i: usize = 0;
    while i < groups.len()
        invariant
            i <= groups@.len(),
            all == groups.deep_view(),
            all == agent_groups_of(model@),
            forall|k: int, j: int|
                0 <= k < i && 0 <= j < all[k].agents.len() ==> #[trigger] all[k].agents[j].status
                    != "working"@,
        decreases groups@.len() - i,
    {
        let group: &AgentSidebarGroup = &groups[i];
        assert(all[i as int] == group.deep_view());
        let mut j: usize = 0;
        while j < group.agents.len()
            invariant
                i < groups@.len(),
                j <= group.agents@.len(),
                all == groups.deep_view(),
                all == agent_groups_of(model@),
                all[i as int] == group.deep_view(),
                forall|k: int|
                    0 <= k < j ==> #[trigger] all[i as int].agents[k].status != "working"@,
            decreases group.agents@.len() - j,
        {
            assert(all[i as int].agents[j as int] == group.agents@[j as int].deep_view());
            if text::same(group.agents[j].status.as_str(), "working") {
                assert(all[i as int].agents[j as int].status == "working"@);
                assert(any_working(all));
                return true;
            }
            j = j + 1;
        }
        i = i + 1;
    }
    model.host_banner_animation_active() || model.add_remote_in_progress()
}

/// Sidebar and content share the width of the host, and content always has a column.
pub proof fn law_content_has_a_column(sidebar_width: u16, host_width: u16, host_height: u16)
    ensures
        content_size_of(sidebar_width, host_width, host_height).0 >= 1,
        host_width > 0 ==> effective_width(sidebar_width, host_width) + content_size_of(
            sidebar_width,
            host_width,
            host_height,
        ).0 == host_width,
{
}

/// A dragged border stays between the limits of the settings, as far as the host has room.
pub proof fn law_dragged_width_stays_in_limits(
    column: u16,
    host_width: u16,
    min_width: u16,
    max_width: u16,
)
    requires
        host_width > 1,
    ensures
        dragged_width(column, host_width, min_width, max_width) <= max_width,
        dragged_width(column, host_width, min_width, max_width) < host_width,
        min_width <= max_width && min_width < host_width ==> dragged_width(
            column,
            host_width,
            min_width,
            max_width,
        ) >= min_width,
{
}

/// What a click meets on what is under the mouse.
pub open spec fn hit_on(
    hover: Option<SidebarHoverTarget>,
    rows: Seq<PlannedRowView>,
    routes: Seq<AgentRouteView>,
) -> Option<HitView> {
    match hover {
        Some(SidebarHoverTarget::Filter) => Some(HitView::Filter),
        Some(SidebarHoverTarget::New) => Some(HitView::New),
        Some(SidebarHoverTarget::Menu) => Some(HitView::Menu),
        Some(SidebarHoverTarget::Workspace { ws_idx }) => card_hit(rows, ws_idx as int),
        Some(SidebarHoverTarget::AgentRoute { route_idx }) => Some(
            HitView::Agent {
                server_id: routes[route_idx as int].server_id,
                agent_id: routes[route_idx as int].agent_id,
            },
        ),
        _ => None,
    }
}

/// Whether nothing lies over the sidebar.
pub open spec fn sidebar_is_bare(m: ModelView, layout: SidebarLayout) -> bool {
    m.overlay is Closed && m.picker is None && layout.manage is None
}

/// Whether a cell of the sidebar is on a button that is not drawn.
pub open spec fn on_hidden_button(layout: SidebarLayout, x: u16, y: u16) -> bool {
    !layout.mouse_capture && (contains(layout.new_button, x, y) || contains(layout.launcher, x, y))
}

/// Where nothing lies over the sidebar, what is under the mouse is what a click there meets, and
/// what a click meets is what is under the mouse: the same workspace, which can be used, the same
/// agent, the same button, or on either side nothing. A banner and a divider are shown under the
/// mouse in place of what they lie on, and a button that is not drawn is not shown.
pub proof fn law_hover_shows_what_a_click_meets(
    sidebar_width: u16,
    m: ModelView,
    rows: Seq<PlannedRowView>,
    routes: Seq<AgentRouteView>,
    layout: SidebarLayout,
    label: Rect,
    x: u16,
    y: u16,
    host_width: u16,
    host_height: u16,
)
    requires
        sidebar_is_bare(m, layout),
        !on_hidden_button(layout, x, y),
    ensures
        ({
            let hover = hover_of(
                sidebar_width,
                m,
                rows,
                routes,
                layout,
                label,
                x,
                y,
                host_width,
                host_height,
            );
            let hit = hit_of(
                sidebar_width,
                m,
                rows,
                routes,
                layout,
                label,
                x,
                y,
                host_width,
                host_height,
            );
            &&& hover != Some(SidebarHoverTarget::Divider) && !(hover is Some
                && hover->0 is HostBanner) ==> hit == hit_on(hover, rows, routes)
            &&& hover is Some && hover->0 is Workspace ==> hit is Some && hit->0 is Workspace
            &&& hover is Some && hover->0 is AgentRoute ==> hover->0->route_idx < routes.len()
            &&& banner_under(layout.banners@, x, y) is None && !layout.divider_rows@.contains(y)
                ==> hover != Some(SidebarHoverTarget::Divider) && !(hover is Some
                && hover->0 is HostBanner)
        }),
{
}

/// Where nothing lies over the sidebar, a workspace is under the mouse at every cell at which a
/// click meets it, and at no other: it is the workspace of that row of the model, and the row can
/// be used.
pub proof fn law_hover_and_click_meet_the_same_workspace(
    c: CompositorView,
    m: ModelView,
    layout: SidebarLayout,
    x: u16,
    y: u16,
    host_width: u16,
    host_height: u16,
    ws_idx: usize,
)
    requires
        sidebar_is_bare(m, layout),
        layout.cards_lie_apart(),
    ensures
        ({
            let rows = rows_shown(c, m);
            let routes = agent_routes_of(rows);
            let width = effective_width(c.sidebar_width, host_width);
            let label = model_label_rect(m, width, host_height);
            let hover = hover_of(
                c.sidebar_width,
                m,
                rows,
                routes,
                layout,
                label,
                x,
                y,
                host_width,
                host_height,
            );
            let hit = hit_of(
                c.sidebar_width,
                m,
                rows,
                routes,
                layout,
                label,
                x,
                y,
                host_width,
                host_height,
            );
            let shown = workspace_rows_of(m);
            let card = card_under(layout.cards@, x, y);
            &&& hover == Some(SidebarHoverTarget::Workspace { ws_idx }) <==> {
                &&& card is Some
                &&& layout.cards@[card->0].ws_idx == ws_idx
                &&& ws_idx < shown.len()
                &&& !shown[ws_idx as int].disabled
                &&& shown[ws_idx as int].workspace_id is Some
                &&& hit == Some(
                    HitView::Workspace {
                        server_id: shown[ws_idx as int].server_id,
                        workspace_id: shown[ws_idx as int].workspace_id->0,
                    },
                )
            }
            &&& hit is Some && hit->0 is Workspace <==> hover is Some && hover->0 is Workspace
        }),
{
    assert(card_under(layout.cards@, x, y) is Some ==> banner_under(layout.banners@, x, y) is None);
}

/// Under the form, the menu and the list of remotes nothing is shown under the mouse, nor where
/// there is no sidebar: in a host of at most one column, and below the last row.
pub proof fn law_nothing_is_under_the_mouse_behind_an_overlay(
    sidebar_width: u16,
    m: ModelView,
    rows: Seq<PlannedRowView>,
    routes: Seq<AgentRouteView>,
    layout: SidebarLayout,
    label: Rect,
    x: u16,
    y: u16,
    host_width: u16,
    host_height: u16,
)
    requires
        !(m.overlay is Closed) || layout.manage is Some || host_width <= 1 || y >= host_height,
    ensures
        hover_of(
            sidebar_width,
            m,
            rows,
            routes,
            layout,
            label,
            x,
            y,
            host_width,
            host_height,
        ) is None,
{
}

/// A workspace that cannot be used is neither met by a click nor shown under the mouse.
pub proof fn law_disabled_rows_are_inert(rows: Seq<PlannedRowView>, ws_idx: int)
    requires
        0 <= ws_idx < rows.len(),
        rows[ws_idx].disabled || rows[ws_idx].workspace_id is None,
    ensures
        card_hit(rows, ws_idx) is None,
{
}

/// Content changes no cell of the sidebar and none of a protected area.
pub proof fn law_content_leaves_the_sidebar_alone(
    source: Seq<crate::frame::CellData>,
    source_width: u16,
    before: Seq<crate::frame::CellData>,
    after: Seq<crate::frame::CellData>,
    host_width: u16,
    host_height: u16,
    area: CopyArea,
    rects: Seq<Rect>,
    x: int,
    y: int,
)
    requires
        content_copied(
            source,
            source_width,
            before,
            after,
            host_width,
            host_height,
            area,
            rects,
        ),
        0 <= x < host_width,
        0 <= y < host_height,
        crate::frame::cell_index(host_width, x, y) < before.len(),
        x < area.x || excluded(rects, x as u16, y as u16),
    ensures
        after[crate::frame::cell_index(host_width, x, y)]
            == before[crate::frame::cell_index(host_width, x, y)],
{
}

/// What the sidebar and what lies over it are drawn from.
#[derive(Debug)]
pub struct ClientSidebarSnapshot {
    pub plan: SidebarPlan,
    pub settings: UiSettingsInfo,
    /// Where the sidebar lies.
    pub sidebar_rect: Rect,
    /// Where the content of the active server lies.
    pub terminal_area: Rect,
    /// The banners, each above the first row of its host.
    pub host_banners: Vec<HostBanner>,
    pub filter_label: String,
    /// The item of the open menu, `None` where the menu is closed.
    pub menu_highlighted: Option<usize>,
    pub spinner_tick: u32,
    pub hover: Option<SidebarHoverTarget>,
    /// How far the lists were scrolled, before they are fitted to what they show.
    pub workspace_scroll: usize,
    pub agent_panel_scroll: usize,
    pub add_remote_form: Option<AddRemoteForm>,
    /// The destinations in the open picker, and which is selected.
    pub new_workspace_picker: Option<NewWorkspacePicker>,
}

/// The form of a model, where it is open.
pub open spec fn open_form(m: ModelView) -> Option<FormView> {
    match m.overlay {
        OverlayView::AddRemote { form } => Some(form),
        _ => None,
    }
}

/// Where the sidebar lies on a host: at its left, from top to bottom.
pub open spec fn sidebar_rect_of(sidebar_width: u16, host_height: u16) -> Rect {
    Rect { x: 0, y: 0, width: sidebar_width, height: host_height }
}

/// Where the content lies on a host: beside the sidebar, in the columns that it leaves.
pub open spec fn terminal_area_of(sidebar_width: u16, host_width: u16, host_height: u16) -> Rect {
    Rect {
        x: sidebar_width,
        y: 0,
        width: if sidebar_width < host_width {
            (host_width - sidebar_width) as u16
        } else {
            0
        },
        height: host_height,
    }
}

/// Sidebar and content cover a host between them and share no cell.
pub proof fn law_sidebar_and_content_share_the_host(
    sidebar_width: u16,
    host_width: u16,
    host_height: u16,
    x: u16,
    y: u16,
)
    requires
        sidebar_width <= host_width,
        x < host_width,
        y < host_height,
    ensures
        contains(sidebar_rect_of(sidebar_width, host_height), x, y) <==> !contains(
            terminal_area_of(sidebar_width, host_width, host_height),
            x,
            y,
        ),
{
}

/// Whether this is what is drawn of a model at a time, in milliseconds, on a host of this size with
/// a sidebar of this width.
pub open spec fn snapshot_is(
    r: ClientSidebarSnapshot,
    c: CompositorView,
    m: ModelView,
    sidebar_width: u16,
    host_size: (u16, u16),
    now: u64,
) -> bool {
    &&& plan_is(r.plan, m, c.working_since, now)
    &&& r.settings == m.ui_settings
    &&& r.sidebar_rect == sidebar_rect_of(sidebar_width, host_size.1)
    &&& r.terminal_area == terminal_area_of(sidebar_width, host_size.0, host_size.1)
    &&& r.host_banners.deep_view() == host_banners_of(m)
    &&& r.filter_label@ == filter_label_of(m)
    &&& match r.menu_highlighted {
        Some(i) => highlighted_of(m) is Some && i == smaller(
            highlighted_of(m)->0 as int,
            menu_items().len() - 1,
        ),
        None => highlighted_of(m) is None,
    }
    &&& r.spinner_tick == c.animation_tick
    &&& r.hover == c.hover
    &&& r.workspace_scroll == c.workspace_scroll
    &&& r.agent_panel_scroll == c.agent_panel_scroll
    &&& r.add_remote_form.deep_view() == open_form(m)
    &&& r.new_workspace_picker.deep_view() == m.picker
}

impl ClientSidebarSnapshot {
    /// What is drawn of a model at a time, in milliseconds, on a host of this size with a sidebar
    /// of this width.
    pub fn from_model(
        model: &ClientSupervisorModel,
        compositor: &ClientCompositor,
        sidebar_width: u16,
        host_width: u16,
        host_height: u16,
        now: u64,
    ) -> (r: Self)
        ensures
            snapshot_is(
                r,
                compositor@,
                model@,
                sidebar_width,
                (host_width, host_height),
                now,
            ),
    {
        let last: usize = 4;
        assert(menu_items().len() == 5);
        ClientSidebarSnapshot {
            plan: compositor.sidebar_plan(model, now),
            settings: *model.ui_settings(),
            sidebar_rect: Rect::new(0, 0, sidebar_width, host_height),
            terminal_area: Rect::new(
                sidebar_width,
                0,
                host_width.saturating_sub(sidebar_width),
                host_height,
            ),
            host_banners: model.host_banner_specs(),
            filter_label: model.filter_label(),
            menu_highlighted: match model.client_global_menu_highlighted() {
                Some(highlighted) => Some(
                    if highlighted < last {
                        highlighted
                    } else {
                        last
                    },
                ),
                None => None,
            },
            spinner_tick: compositor.animation_tick,
            hover: compositor.hover,
            workspace_scroll: compositor.workspace_scroll,
            agent_panel_scroll: compositor.agent_panel_scroll,
            add_remote_form: match model.add_remote_form() {
                Some(form) => Some(form.clone()),
                None => None,
            },
            new_workspace_picker: match model.new_workspace_picker() {
                Some(picker) => Some(picker.clone()),
                None => None,
            },
        }
    }
}

} // verus!
