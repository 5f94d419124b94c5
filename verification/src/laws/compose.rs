//! What a composed frame shows: the sidebar and any open popup above, the active server's content
//! beside it.

use vstd::prelude::*;

use crate::compositor::{content_size_of, is_composed, CompositorView};
use crate::frame::{cell_index, FrameData, Rect};
use crate::layout::SidebarLayout;
use crate::supervisor::ModelView;

verus! {

/// Whether a cell lies in a rectangle.
pub open spec fn inside(rect: Rect, x: u16, y: u16) -> bool {
    rect.x <= x < rect.x + rect.width && rect.y <= y < rect.y + rect.height
}

/// Whether a cell of a frame exists: within its size, and among its cells.
pub open spec fn has_cell(frame: FrameData, x: int, y: int) -> bool {
    0 <= x < frame.width && 0 <= y < frame.height && y * frame.width + x < frame.cells@.len()
}

/// The cell of a frame in a column and a row.
pub open spec fn cell_at(frame: FrameData, x: int, y: int) -> crate::frame::CellData {
    frame.cells@[y * frame.width + x]
}

proof fn lemma_cell_at(frame: FrameData, x: int, y: int)
    ensures
        cell_index(frame.width, x, y) == y * frame.width + x,
{
}

/// The popup of whatever is open stays in sight: each cell of the form for a new remote, of the
/// list of destinations, of the list of remotes, of the question whether to delete one and of the
/// menu is the shell's own cell, whatever the active server shows there.
pub proof fn law_open_popup_stays_in_sight(
    c: CompositorView,
    m: ModelView,
    layout: SidebarLayout,
    shell: FrameData,
    active: FrameData,
    r: FrameData,
    x: u16,
    y: u16,
)
    requires
        is_composed(c, m, layout, shell, active, r),
        has_cell(shell, x as int, y as int),
    ensures
        m.overlay is AddRemote && layout.form is Some && inside(layout.form->0.popup, x, y)
            ==> cell_at(r, x as int, y as int) == cell_at(shell, x as int, y as int),
        !(m.overlay is AddRemote) && m.picker is Some && layout.picker is Some && inside(
            layout.picker->0.popup,
            x,
            y,
        ) ==> cell_at(r, x as int, y as int) == cell_at(shell, x as int, y as int),
        !(m.overlay is AddRemote) && m.picker is None && layout.manage is Some
            && layout.manage->0.list is Some && inside(layout.manage->0.list->0.popup, x, y)
            ==> cell_at(r, x as int, y as int) == cell_at(shell, x as int, y as int),
        !(m.overlay is AddRemote) && m.picker is None && layout.manage is Some
            && layout.manage->0.confirming && layout.manage->0.confirm is Some && inside(
            layout.manage->0.confirm->0.popup,
            x,
            y,
        ) ==> cell_at(r, x as int, y as int) == cell_at(shell, x as int, y as int),
        m.overlay is GlobalMenu && m.picker is None && layout.manage is None && inside(
            layout.menu,
            x,
            y,
        ) ==> cell_at(r, x as int, y as int) == cell_at(shell, x as int, y as int),
{
    lemma_cell_at(shell, x as int, y as int);
    let rects = crate::compositor::protected_areas(m, layout);
    if m.overlay is AddRemote && layout.form is Some && inside(layout.form->0.popup, x, y) {
        assert(rects[0] == layout.form->0.popup);
    } else if !(m.overlay is AddRemote) && m.picker is Some && layout.picker is Some && inside(
        layout.picker->0.popup,
        x,
        y,
    ) {
        assert(rects[0] == layout.picker->0.popup);
    } else if !(m.overlay is AddRemote) && m.picker is None && layout.manage is Some
        && layout.manage->0.list is Some && inside(layout.manage->0.list->0.popup, x, y) {
        assert(rects[0] == layout.manage->0.list->0.popup);
    } else if !(m.overlay is AddRemote) && m.picker is None && layout.manage is Some
        && layout.manage->0.confirming && layout.manage->0.confirm is Some && inside(
        layout.manage->0.confirm->0.popup,
        x,
        y,
    ) {
        assert(rects[rects.len() - 1] == layout.manage->0.confirm->0.popup);
    } else if m.overlay is GlobalMenu && m.picker is None && layout.manage is None && inside(
        layout.menu,
        x,
        y,
    ) {
        assert(rects[0] == layout.menu);
    }
    assert(r.cells@[cell_index(shell.width, x as int, y as int)] == cell_at(
        r,
        x as int,
        y as int,
    ));
}

/// The sidebar is the shell's: each cell left of the content is the shell's own, whatever the
/// active server shows. The content begins at the sidebar's width, or at the last column where
/// the sidebar is as wide as the host.
pub proof fn law_sidebar_is_the_shells(
    c: CompositorView,
    m: ModelView,
    layout: SidebarLayout,
    shell: FrameData,
    active: FrameData,
    r: FrameData,
    x: int,
    y: int,
)
    requires
        is_composed(c, m, layout, shell, active, r),
        has_cell(shell, x, y),
        x < c.sidebar_width,
        x + 1 < shell.width,
    ensures
        cell_at(r, x, y) == cell_at(shell, x, y),
{
    assert(r.cells@[cell_index(shell.width, x, y)] == cell_at(r, x, y));
}

/// Beside the sidebar the active server's content is shown, shifted by the sidebar's width: with
/// nothing open, each such cell is the active frame's where that frame has one, and the shell's
/// where it has none.
pub proof fn law_content_is_the_active_servers(
    c: CompositorView,
    m: ModelView,
    layout: SidebarLayout,
    shell: FrameData,
    active: FrameData,
    r: FrameData,
    x: int,
    y: int,
)
    requires
        is_composed(c, m, layout, shell, active, r),
        has_cell(shell, x, y),
        c.sidebar_width < shell.width,
        x >= c.sidebar_width,
        m.overlay is Closed,
        m.picker is None,
        layout.manage is None,
    ensures
        has_cell(active, x - c.sidebar_width, y) ==> cell_at(r, x, y) == cell_at(
            active,
            x - c.sidebar_width,
            y,
        ),
        !has_cell(active, x - c.sidebar_width, y) ==> cell_at(r, x, y) == cell_at(shell, x, y),
{
    assert(r.cells@[cell_index(shell.width, x, y)] == cell_at(r, x, y));
}

/// An open popup hides the content under itself and nothing else of it: a content cell outside
/// every popup of the layout is the active frame's.
pub proof fn law_popup_hides_only_what_it_covers(
    c: CompositorView,
    m: ModelView,
    layout: SidebarLayout,
    shell: FrameData,
    active: FrameData,
    r: FrameData,
    x: u16,
    y: u16,
)
    requires
        is_composed(c, m, layout, shell, active, r),
        has_cell(shell, x as int, y as int),
        c.sidebar_width < shell.width,
        x >= c.sidebar_width,
        has_cell(active, x - c.sidebar_width, y as int),
        layout.form is Some ==> !inside(layout.form->0.popup, x, y),
        layout.picker is Some ==> !inside(layout.picker->0.popup, x, y),
        layout.manage is Some && layout.manage->0.list is Some ==> !inside(
            layout.manage->0.list->0.popup,
            x,
            y,
        ),
        layout.manage is Some && layout.manage->0.confirm is Some ==> !inside(
            layout.manage->0.confirm->0.popup,
            x,
            y,
        ),
        !inside(layout.menu, x, y),
    ensures
        cell_at(r, x as int, y as int) == cell_at(active, x - c.sidebar_width, y as int),
{
    assert(r.cells@[cell_index(shell.width, x as int, y as int)] == cell_at(
        r,
        x as int,
        y as int,
    ));
}

/// The frame has the host's size; its cursor is the active server's, shifted by the sidebar's
/// width, and hidden where that falls off the host or a form, a list of destinations or the list
/// of remotes is open; its links are the active server's.
pub proof fn law_composed_frame_around_the_cells(
    c: CompositorView,
    m: ModelView,
    layout: SidebarLayout,
    shell: FrameData,
    active: FrameData,
    r: FrameData,
)
    requires
        is_composed(c, m, layout, shell, active, r),
        c.sidebar_width < shell.width,
    ensures
        r.width == shell.width,
        r.height == shell.height,
        r.cells@.len() == shell.cells@.len(),
        r.hyperlinks@ == active.hyperlinks@,
        c.sidebar_width == 0 ==> r.graphics@ == active.graphics@,
        c.sidebar_width > 0 ==> r.graphics@ == shell.graphics@,
        m.overlay is AddRemote ==> r.cursor is None,
        m.picker is Some ==> r.cursor is None,
        layout.manage is Some ==> r.cursor is None,
        active.cursor is None ==> r.cursor is None,
        active.cursor is Some && c.sidebar_width + active.cursor->0.x >= shell.width
            ==> r.cursor is None,
        !(m.overlay is AddRemote) && m.picker is None && layout.manage is None
            && active.cursor is Some && c.sidebar_width + active.cursor->0.x < shell.width ==> {
            &&& r.cursor is Some
            &&& r.cursor->0.x == c.sidebar_width + active.cursor->0.x
            &&& r.cursor->0.y == active.cursor->0.y
            &&& r.cursor->0.visible == active.cursor->0.visible
            &&& r.cursor->0.shape == active.cursor->0.shape
        },
{
}

/// The active server is told the room that its content is shown in: what the sidebar leaves of
/// the host's columns, never none, and all of its rows.
pub proof fn law_content_gets_what_the_sidebar_leaves(
    sidebar_width: u16,
    host_width: u16,
    host_height: u16,
)
    ensures
        sidebar_width < host_width ==> content_size_of(
            sidebar_width,
            host_width,
            host_height,
        ).0 == host_width - sidebar_width,
        sidebar_width >= host_width ==> content_size_of(
            sidebar_width,
            host_width,
            host_height,
        ).0 == 1,
        content_size_of(sidebar_width, host_width, host_height).1 == host_height,
{
}

} // verus!
