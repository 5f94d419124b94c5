//! What lies under the mouse: a click meets what is drawn where it falls, and an open popup before
//! the sidebar.

use vstd::prelude::*;

use crate::api::{AgentTarget, EmptyParams, Method, WorkspaceCreateParams, WorkspaceTarget};
use crate::compositor::{hit_of, hover_of, label_rect};
use crate::dispatch::{message_ask, method_ask, AskView};
use crate::frame::{contains, Rect};
use crate::laws::compose::inside;
use crate::layout::{
    agent_under, card_under, manage_hit, row_under, CardArea, AgentPanel, HitView, ManageOverlay,
    SidebarHoverTarget, SidebarLayout,
};
use crate::messages::ClientMessage;
use crate::sidebar_plan::{AgentRouteView, PlannedRowView};
use crate::supervisor::ModelView;

verus! {

/// Whether a cell lies on the host, away from the last column and row that a number can tell.
pub open spec fn on_host(x: u16, y: u16, host_width: u16, host_height: u16) -> bool {
    x + 1 < host_width && y + 1 < host_height
}

proof fn lemma_inside(rect: Rect, x: u16, y: u16)
    requires
        x < u16::MAX,
        y < u16::MAX,
    ensures
        contains(rect, x, y) <==> inside(rect, x, y),
{
}

proof fn lemma_row_under(rows: Seq<Rect>, shown: int, x: u16, y: u16, i: int)
    requires
        x < u16::MAX,
        y < u16::MAX,
        0 <= i < shown,
        i < rows.len(),
        inside(rows[i], x, y),
        forall|j: int| 0 <= j < i ==> !inside(#[trigger] rows[j], x, y),
    ensures
        row_under(rows, shown, x, y) == Some(i),
    decreases shown,
{
    lemma_no_row_under(rows, i, x, y);
    if shown > i + 1 {
        lemma_row_under(rows, shown - 1, x, y, i);
    }
}

proof fn lemma_no_row_under(rows: Seq<Rect>, shown: int, x: u16, y: u16)
    requires
        x < u16::MAX,
        y < u16::MAX,
        forall|j: int| 0 <= j < shown && j < rows.len() ==> !inside(#[trigger] rows[j], x, y),
    ensures
        row_under(rows, shown, x, y) is None,
    decreases shown,
{
    if shown > 0 {
        lemma_no_row_under(rows, shown - 1, x, y);
        if shown <= rows.len() {
            lemma_inside(rows[shown - 1], x, y);
            assert(!inside(rows[shown - 1], x, y));
        }
    }
}

proof fn lemma_card_under(cards: Seq<CardArea>, x: u16, y: u16, i: int)
    requires
        x < u16::MAX,
        y < u16::MAX,
        0 <= i < cards.len(),
        inside(cards[i].rect, x, y),
        forall|j: int| 0 <= j < i ==> !inside((#[trigger] cards[j]).rect, x, y),
    ensures
        card_under(cards, x, y) == Some(i),
    decreases cards.len(),
{
    let front = cards.drop_last();
    if i < cards.len() - 1 {
        assert(front[i] == cards[i]);
        assert forall|j: int| 0 <= j < i implies !inside((#[trigger] front[j]).rect, x, y) by {
            assert(front[j] == cards[j]);
        }
        lemma_card_under(front, x, y, i);
    } else {
        assert forall|j: int| 0 <= j < front.len() implies !inside(
            (#[trigger] front[j]).rect,
            x,
            y,
        ) by {
            assert(front[j] == cards[j]);
        }
        lemma_no_card_under(front, x, y);
    }
}

proof fn lemma_no_card_under(cards: Seq<CardArea>, x: u16, y: u16)
    requires
        x < u16::MAX,
        y < u16::MAX,
        forall|j: int| 0 <= j < cards.len() ==> !inside((#[trigger] cards[j]).rect, x, y),
    ensures
        card_under(cards, x, y) is None,
    decreases cards.len(),
{
    if cards.len() > 0 {
        let front = cards.drop_last();
        assert forall|j: int| 0 <= j < front.len() implies !inside(
            (#[trigger] front[j]).rect,
            x,
            y,
        ) by {
            assert(front[j] == cards[j]);
        }
        lemma_no_card_under(front, x, y);
        assert(!inside(cards[cards.len() - 1].rect, x, y));
        lemma_inside(cards.last().rect, x, y);
    }
}

/// A click on the open menu meets the item in that row, the first below the upper border, and
/// nothing else meets it there.
pub proof fn law_click_on_the_menu(
    sidebar_width: u16,
    m: ModelView,
    rows: Seq<PlannedRowView>,
    routes: Seq<AgentRouteView>,
    layout: SidebarLayout,
    label: Rect,
    x: u16,
    y: u16,
    host_width: u16,
    host_height: u16,
    i: int,
)
    requires
        sidebar_width > 0,
        on_host(x, y, host_width, host_height),
        m.overlay is GlobalMenu,
        0 <= i < layout.menu_items,
        layout.menu.x < x,
        x + 1 < layout.menu.x + layout.menu.width,
        y == layout.menu.y + 1 + i,
        y + 1 < layout.menu.y + layout.menu.height,
    ensures
        hit_of(
            sidebar_width,
            m,
            rows,
            routes,
            layout,
            label,
            x,
            y,
            host_width,
            host_height,
        ) == Some(HitView::ClientGlobalMenuItem { index: i }),
{
}

/// A click on the list of destinations meets its buttons, and in a row the destination of that
/// row.
pub proof fn law_click_on_the_destinations(
    sidebar_width: u16,
    m: ModelView,
    rows: Seq<PlannedRowView>,
    routes: Seq<AgentRouteView>,
    layout: SidebarLayout,
    label: Rect,
    x: u16,
    y: u16,
    host_width: u16,
    host_height: u16,
    i: int,
)
    requires
        sidebar_width > 0,
        on_host(x, y, host_width, host_height),
        m.overlay is Closed,
        m.picker is Some,
        layout.picker is Some,
    ensures
        ({
            let popup = layout.picker->0;
            let destinations = m.picker->0.destinations;
            let hit = hit_of(
                sidebar_width,
                m,
                rows,
                routes,
                layout,
                label,
                x,
                y,
                host_width,
                host_height,
            );
            &&& inside(popup.confirm, x, y) ==> hit == Some(HitView::NewWorkspacePickerConfirm)
            &&& !inside(popup.confirm, x, y) && inside(popup.cancel, x, y) ==> hit == Some(
                HitView::NewWorkspacePickerCancel,
            )
            &&& !inside(popup.confirm, x, y) && !inside(popup.cancel, x, y) && 0 <= i
                < destinations.len() && i < popup.rows@.len() && i + 3 < popup.inner.height
                && inside(popup.rows@[i], x, y) && (forall|j: int|
                0 <= j < i ==> !inside(#[trigger] popup.rows@[j], x, y)) ==> hit == Some(
                HitView::NewWorkspaceDestination { server_id: destinations[i].server_id },
            )
        }),
{
    let popup = layout.picker->0;
    let destinations = m.picker->0.destinations;
    lemma_inside(popup.confirm, x, y);
    lemma_inside(popup.cancel, x, y);
    if !inside(popup.confirm, x, y) && !inside(popup.cancel, x, y) && 0 <= i < destinations.len()
        && i < popup.rows@.len() && i + 3 < popup.inner.height && inside(popup.rows@[i], x, y) && (
    forall|j: int| 0 <= j < i ==> !inside(#[trigger] popup.rows@[j], x, y)) {
        lemma_row_under(
            popup.rows@,
            crate::frame::smaller(
                destinations.len() as int,
                crate::layout::room(popup.inner),
            ),
            x,
            y,
            i,
        );
    }
}

/// A click on the open form meets its two buttons.
pub proof fn law_click_on_the_form(
    sidebar_width: u16,
    m: ModelView,
    rows: Seq<PlannedRowView>,
    routes: Seq<AgentRouteView>,
    layout: SidebarLayout,
    label: Rect,
    x: u16,
    y: u16,
    host_width: u16,
    host_height: u16,
)
    requires
        sidebar_width > 0,
        on_host(x, y, host_width, host_height),
        m.overlay is AddRemote,
        m.picker is None,
        layout.form is Some,
    ensures
        ({
            let hit = hit_of(
                sidebar_width,
                m,
                rows,
                routes,
                layout,
                label,
                x,
                y,
                host_width,
                host_height,
            );
            &&& inside(layout.form->0.submit, x, y) ==> hit == Some(HitView::AddRemoteSubmit)
            &&& !inside(layout.form->0.submit, x, y) && inside(layout.form->0.cancel, x, y)
                ==> hit == Some(HitView::AddRemoteCancel)
        }),
{
    lemma_inside(layout.form->0.submit, x, y);
    lemma_inside(layout.form->0.cancel, x, y);
}

/// A click on the list of remotes meets the remote in that row, counted from the first that is in
/// sight, and on the last row below the list the entry for a new one; while a deletion waits, only
/// its two buttons are met.
pub proof fn law_click_on_the_remotes(overlay: ManageOverlay, x: u16, y: u16, i: int)
    requires
        x < u16::MAX,
        y < u16::MAX,
    ensures
        overlay.confirming && overlay.confirm is Some ==> {
            let popup = overlay.confirm->0;
            &&& inside(popup.confirm, x, y) ==> manage_hit(overlay, x, y) == Some(
                HitView::RemoteManageConfirmDelete,
            )
            &&& !inside(popup.confirm, x, y) && inside(popup.cancel, x, y) ==> manage_hit(
                overlay,
                x,
                y,
            ) == Some(HitView::RemoteManageCancelDelete)
            &&& !inside(popup.confirm, x, y) && !inside(popup.cancel, x, y) ==> manage_hit(
                overlay,
                x,
                y,
            ) is None
        },
        !overlay.confirming && overlay.list is Some && overlay.list->0.inner.height > 0
            && overlay.list->0.inner.x <= x < overlay.list->0.inner.x + overlay.list->0.inner.width
            && y == overlay.list->0.inner.y + overlay.list->0.inner.height - 1 ==> manage_hit(
            overlay,
            x,
            y,
        ) == Some(HitView::RemoteManageAdd),
        !overlay.confirming && overlay.list is Some && overlay.scroll == 0
            && overlay.visible_start == 0 && 0 <= i < overlay.remote_count && i
            < overlay.list->0.rows@.len() && i + 3 < overlay.list->0.inner.height && inside(
            overlay.list->0.rows@[i],
            x,
            y,
        ) && (forall|j: int| 0 <= j < i ==> !inside(#[trigger] overlay.list->0.rows@[j], x, y))
            && y + 1 < overlay.list->0.inner.y + overlay.list->0.inner.height ==> manage_hit(
            overlay,
            x,
            y,
        ) == Some(HitView::RemoteManageRow { index: i }),
{
    if overlay.confirming && overlay.confirm is Some {
        lemma_inside(overlay.confirm->0.confirm, x, y);
        lemma_inside(overlay.confirm->0.cancel, x, y);
    }
    if !overlay.confirming && overlay.list is Some {
        let list = overlay.list->0;
        lemma_inside(crate::layout::footer_of(list.inner), x, y);
        if overlay.scroll == 0 && overlay.visible_start == 0 && 0 <= i < overlay.remote_count && i
            < list.rows@.len() && i + 3 < list.inner.height && inside(list.rows@[i], x, y) && (
        forall|j: int| 0 <= j < i ==> !inside(#[trigger] list.rows@[j], x, y)) {
            lemma_row_under(
                list.rows@,
                crate::frame::smaller(
                    overlay.remote_count as int,
                    crate::layout::room(list.inner),
                ),
                x,
                y,
                i,
            );
        }
    }
}

/// On the bare sidebar a click meets the filter's label first, then the two buttons, then the
/// cards: a card that can be chosen is met as its own workspace. Beside the sidebar it meets
/// nothing.
pub proof fn law_click_on_the_sidebar(
    sidebar_width: u16,
    m: ModelView,
    rows: Seq<PlannedRowView>,
    routes: Seq<AgentRouteView>,
    layout: SidebarLayout,
    label: Rect,
    x: u16,
    y: u16,
    host_width: u16,
    host_height: u16,
    i: int,
)
    requires
        0 < sidebar_width < host_width,
        on_host(x, y, host_width, host_height),
        m.overlay is Closed,
        m.picker is None,
        layout.manage is None,
    ensures
        ({
            let hit = hit_of(
                sidebar_width,
                m,
                rows,
                routes,
                layout,
                label,
                x,
                y,
                host_width,
                host_height,
            );
            &&& x >= sidebar_width ==> hit is None
            &&& x < sidebar_width && inside(label, x, y) ==> hit == Some(HitView::Filter)
            &&& x < sidebar_width && !inside(label, x, y) && inside(layout.new_button, x, y)
                ==> hit == Some(HitView::New)
            &&& x < sidebar_width && !inside(label, x, y) && !inside(layout.new_button, x, y)
                && inside(layout.launcher, x, y) ==> hit == Some(HitView::Menu)
            &&& x < sidebar_width && !inside(label, x, y) && !inside(layout.new_button, x, y)
                && !inside(layout.launcher, x, y) && 0 <= i < layout.cards@.len() && inside(
                layout.cards@[i].rect,
                x,
                y,
            ) && (forall|j: int|
                0 <= j < i ==> !inside((#[trigger] layout.cards@[j]).rect, x, y)) ==> {
                let at = layout.cards@[i].ws_idx as int;
                &&& at < rows.len() && !rows[at].disabled && rows[at].workspace_id is Some
                    ==> hit == Some(
                    HitView::Workspace {
                        server_id: rows[at].server_id,
                        workspace_id: rows[at].workspace_id->0,
                    },
                )
                &&& at >= rows.len() || rows[at].disabled || rows[at].workspace_id is None
                    ==> hit is None
            }
        }),
{
    lemma_inside(label, x, y);
    lemma_inside(layout.new_button, x, y);
    lemma_inside(layout.launcher, x, y);
    if 0 <= i < layout.cards@.len() && inside(layout.cards@[i].rect, x, y) && (forall|j: int|
        0 <= j < i ==> !inside((#[trigger] layout.cards@[j]).rect, x, y)) {
        lemma_card_under(layout.cards@, x, y, i);
    }
}

/// What lies under the mouse is shown as a click would meet it: on the bare sidebar the filter's
/// label, the buttons where they are drawn, a host's banner, a divider, and a card that can be
/// chosen; in the list of destinations the row; and nothing beside the sidebar.
pub proof fn law_hover_on_the_sidebar(
    sidebar_width: u16,
    m: ModelView,
    rows: Seq<PlannedRowView>,
    routes: Seq<AgentRouteView>,
    layout: SidebarLayout,
    label: Rect,
    x: u16,
    y: u16,
    host_width: u16,
    host_height: u16,
    i: int,
)
    requires
        0 < sidebar_width < host_width,
        on_host(x, y, host_width, host_height),
        m.overlay is Closed,
        layout.manage is None,
    ensures
        ({
            let hover = hover_of(
                sidebar_width,
                m,
                rows,
                routes,
                layout,
                label,
                x,
                y,
                host_width,
                host_height,
            );
            let bare = m.picker is None && x < sidebar_width;
            let off_buttons = !inside(label, x, y) && !inside(layout.new_button, x, y) && !inside(
                layout.launcher,
                x,
                y,
            );
            &&& m.picker is None && x >= sidebar_width ==> hover is None
            &&& bare && inside(label, x, y) ==> hover == Some(SidebarHoverTarget::Filter)
            &&& bare && !inside(label, x, y) && layout.mouse_capture && inside(
                layout.new_button,
                x,
                y,
            ) ==> hover == Some(SidebarHoverTarget::New)
            &&& bare && !inside(label, x, y) && !inside(layout.new_button, x, y)
                && layout.mouse_capture && inside(layout.launcher, x, y) ==> hover == Some(
                SidebarHoverTarget::Menu,
            )
            &&& bare && off_buttons && layout.banners@.len() > 0 && inside(
                layout.banners@[0].rect,
                x,
                y,
            ) ==> hover == Some(
                SidebarHoverTarget::HostBanner { banner_idx: layout.banners@[0].banner_idx },
            )
            &&& bare && off_buttons && layout.banners@.len() == 0 && layout.divider_rows@.contains(
                y,
            ) ==> hover == Some(SidebarHoverTarget::Divider)
            &&& bare && off_buttons && layout.banners@.len() == 0 && !layout.divider_rows@.contains(
                y,
            ) && 0 <= i < layout.cards@.len() && inside(layout.cards@[i].rect, x, y) && (
            forall|j: int| 0 <= j < i ==> !inside((#[trigger] layout.cards@[j]).rect, x, y)) ==> {
                let at = layout.cards@[i].ws_idx;
                &&& at < rows.len() && !rows[at as int].disabled && rows[at as int].workspace_id
                    is Some ==> hover == Some(SidebarHoverTarget::Workspace { ws_idx: at })
                &&& at >= rows.len() || rows[at as int].disabled ==> hover is None
            }
            &&& m.picker is Some && layout.picker is None ==> hover is None
            &&& m.picker is Some && layout.picker is Some && 0 <= i
                < m.picker->0.destinations.len() && i < layout.picker->0.rows@.len() && i + 3
                < layout.picker->0.inner.height && inside(layout.picker->0.rows@[i], x, y) && (
            forall|j: int| 0 <= j < i ==> !inside(#[trigger] layout.picker->0.rows@[j], x, y))
                ==> hover == Some(
                SidebarHoverTarget::NewWorkspaceDestination { row: i as u16 },
            )
        }),
{
    lemma_inside(label, x, y);
    lemma_inside(layout.new_button, x, y);
    lemma_inside(layout.launcher, x, y);
    if layout.banners@.len() > 0 {
        lemma_inside(layout.banners@[0].rect, x, y);
    }
    if 0 <= i < layout.cards@.len() && inside(layout.cards@[i].rect, x, y) && (forall|j: int|
        0 <= j < i ==> !inside((#[trigger] layout.cards@[j]).rect, x, y)) {
        lemma_card_under(layout.cards@, x, y, i);
    }
    if m.picker is Some && layout.picker is Some {
        let popup = layout.picker->0;
        let count = m.picker->0.destinations.len() as int;
        if 0 <= i < count && i < popup.rows@.len() && i + 3 < popup.inner.height && inside(
            popup.rows@[i],
            x,
            y,
        ) && (forall|j: int| 0 <= j < i ==> !inside(#[trigger] popup.rows@[j], x, y)) {
            lemma_row_under(
                popup.rows@,
                crate::frame::smaller(count, crate::layout::room(popup.inner)),
                x,
                y,
                i,
            );
        }
    }
}

/// The agents lie one below the other, with a gap of one row between: each row of an agent meets
/// it, counted from the first in sight, and the gap meets none.
pub proof fn law_agents_under_the_mouse(panel: AgentPanel, x: u16, y: u16, k: nat, d: nat)
    requires
        x < u16::MAX,
        y < u16::MAX,
        0 < panel.entry_rows < u16::MAX,
        inside(panel.body, x, y),
        d <= panel.entry_rows,
        y == panel.body.y + k * (panel.entry_rows + 1) + d,
        panel.scroll + k <= usize::MAX,
    ensures
        d < panel.entry_rows ==> agent_under(panel, x, y) == Some(panel.scroll + k),
        d == panel.entry_rows ==> agent_under(panel, x, y) is None,
{
    lemma_inside(panel.body, x, y);
    let stride = panel.entry_rows + 1;
    let row = y - panel.body.y;
    vstd::arithmetic::div_mod::lemma_fundamental_div_mod_converse(
        row,
        stride as int,
        k as int,
        d as int,
    );
}

/// A click on an agent meets that agent on its own server, below the cards and the buttons; past
/// the last agent it meets none.
pub proof fn law_click_on_an_agent(
    sidebar_width: u16,
    m: ModelView,
    rows: Seq<PlannedRowView>,
    routes: Seq<AgentRouteView>,
    layout: SidebarLayout,
    label: Rect,
    x: u16,
    y: u16,
    host_width: u16,
    host_height: u16,
    k: nat,
    d: nat,
)
    requires
        0 < sidebar_width < host_width,
        x < sidebar_width,
        on_host(x, y, host_width, host_height),
        m.overlay is Closed,
        m.picker is None,
        layout.manage is None,
        !inside(label, x, y),
        !inside(layout.new_button, x, y),
        !inside(layout.launcher, x, y),
        forall|j: int|
            0 <= j < layout.cards@.len() ==> !inside((#[trigger] layout.cards@[j]).rect, x, y),
        0 < layout.agents.entry_rows < u16::MAX,
        inside(layout.agents.body, x, y),
        d < layout.agents.entry_rows,
        y == layout.agents.body.y + k * (layout.agents.entry_rows + 1) + d,
        layout.agents.scroll + k <= usize::MAX,
    ensures
        ({
            let at = layout.agents.scroll + k;
            let hit = hit_of(
                sidebar_width,
                m,
                rows,
                routes,
                layout,
                label,
                x,
                y,
                host_width,
                host_height,
            );
            &&& at < routes.len() ==> hit == Some(
                HitView::Agent {
                    server_id: routes[at as int].server_id,
                    agent_id: routes[at as int].agent_id,
                },
            )
            &&& at >= routes.len() ==> hit is None
        }),
{
    lemma_inside(label, x, y);
    lemma_inside(layout.new_button, x, y);
    lemma_inside(layout.launcher, x, y);
    lemma_no_card_under(layout.cards@, x, y);
    law_agents_under_the_mouse(layout.agents, x, y, k, d);
}

/// Whether the list of remotes begins with this one: where it had to move to for the selected
/// remote, or else where it was scrolled to.
pub open spec fn listed_from(overlay: ManageOverlay, start: int) -> bool {
    ||| start == overlay.visible_start && overlay.scroll <= overlay.visible_start
    ||| start == overlay.scroll && overlay.visible_start <= overlay.scroll <= overlay.selected
        < overlay.remote_count && overlay.scroll + (overlay.list->0.inner.height - 3)
        <= overlay.remote_count
}

/// A list of remotes that was scrolled shows the remotes from there on, and one that had to move
/// to keep the selected remote in sight shows them from where it moved to.
pub proof fn law_scrolled_remotes(overlay: ManageOverlay, x: u16, y: u16, i: int, start: int)
    requires
        x < u16::MAX,
        y < u16::MAX,
        !overlay.confirming,
        overlay.list is Some,
        0 <= i < overlay.list->0.rows@.len(),
        i + 3 < overlay.list->0.inner.height,
        inside(overlay.list->0.rows@[i], x, y),
        forall|j: int| 0 <= j < i ==> !inside(#[trigger] overlay.list->0.rows@[j], x, y),
        y + 1 < overlay.list->0.inner.y + overlay.list->0.inner.height,
        0 <= start,
        start + i < overlay.remote_count,
        listed_from(overlay, start),
    ensures
        manage_hit(overlay, x, y) == Some(HitView::RemoteManageRow { index: start + i }),
{
    let list = overlay.list->0;
    lemma_inside(crate::layout::footer_of(list.inner), x, y);
    lemma_row_under(
        list.rows@,
        crate::frame::smaller(
            crate::layout::less(overlay.remote_count as int, start),
            crate::layout::room(list.inner),
        ),
        x,
        y,
        i,
    );
}

/// Nothing is met outside the list of agents.
pub proof fn law_no_agent_outside_the_list(panel: AgentPanel, x: u16, y: u16)
    requires
        x < u16::MAX,
        y < u16::MAX,
        !inside(panel.body, x, y),
    ensures
        agent_under(panel, x, y) is None,
{
    lemma_inside(panel.body, x, y);
}

/// The filter's label stands at the right of the sidebar's first row, short of the edge, and is no
/// wider than the row.
pub proof fn law_label_stands_at_the_right(width: u16, height: u16, columns: usize)
    requires
        width > 1,
        height > 0,
        columns <= u16::MAX,
    ensures
        ({
            let label = label_rect(Rect { x: 0, y: 0, width, height }, false, columns);
            &&& label.y == 0
            &&& label.height == 1
            &&& label.x + label.width == width - 1
            &&& columns <= width - 1 ==> label.width == columns
            &&& columns > width - 1 ==> label.x == 0
        }),
        label_rect(Rect { x: 0, y: 0, width, height }, true, columns) == (Rect {
            x: 0,
            y: 0,
            width: 0,
            height: 0,
        }),
        label_rect(Rect { x: 0, y: 0, width: 1, height }, false, columns).width == 0,
        label_rect(Rect { x: 0, y: 0, width, height: 0 }, false, columns).width == 0,
{
}

/// What a request asks for is told by its method: a focus by what is focused, a new workspace only
/// where it is a plain one that takes the focus.
pub proof fn law_requests_tell_what_they_ask(
    workspace: WorkspaceTarget,
    agent: AgentTarget,
    params: WorkspaceCreateParams,
    none: EmptyParams,
)
    ensures
        method_ask(Method::WorkspaceFocus(workspace)) == (AskView::FocusWorkspace {
            workspace_id: workspace.workspace_id@,
        }),
        method_ask(Method::AgentFocus(agent)) == (AskView::FocusAgent { target: agent.target@ }),
        method_ask(Method::ServerReloadConfig(none)) == AskView::ReloadConfig,
        params.cwd is None && params.focus && params.label is None ==> method_ask(
            Method::WorkspaceCreate(params),
        ) == AskView::CreateWorkspace,
        method_ask(Method::WorkspaceCreate(params)) == AskView::CreateWorkspace ==> params.cwd is None
            && params.focus && params.label is None,
        method_ask(Method::ServerStop(none)) == AskView::Other,
        message_ask(ClientMessage::OpenSettings) == AskView::OpenSettings,
        message_ask(ClientMessage::OpenKeybindHelp) == AskView::OpenKeybindHelp,
{
}

} // verus!
