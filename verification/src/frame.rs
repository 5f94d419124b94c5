//! Frames of cells, and putting the content of a server beside the sidebar.

use vstd::prelude::*;

verus! {

/// An area of the screen.
#[derive(Debug, Clone, Copy, PartialEq, Eq, Structural)]
pub struct Rect {
    pub x: u16,
    pub y: u16,
    pub width: u16,
    pub height: u16,
}

impl Rect {
    pub fn new(x: u16, y: u16, width: u16, height: u16) -> (r: Self)
        ensures
            r == (Rect { x, y, width, height }),
    {
        Rect { x, y, width, height }
    }
}

/// The area without cells.
pub open spec fn empty_rect() -> Rect {
    Rect { x: 0, y: 0, width: 0, height: 0 }
}

impl Default for Rect {
    fn default() -> (r: Self)
        ensures
            r == empty_rect(),
    {
        Rect { x: 0, y: 0, width: 0, height: 0 }
    }
}

/// The end of an extent, which does not go beyond the largest coordinate.
pub open spec fn extent_end(start: u16, len: u16) -> int {
    if start + len > u16::MAX {
        u16::MAX as int
    } else {
        start + len
    }
}

/// Whether a cell lies in an area.
pub open spec fn contains(rect: Rect, x: u16, y: u16) -> bool {
    &&& rect.x <= x < extent_end(rect.x, rect.width)
    &&& rect.y <= y < extent_end(rect.y, rect.height)
}

/// Whether a cell lies in an area.
pub fn rect_contains(rect: Rect, x: u16, y: u16) -> (r: bool)
    ensures
        r == contains(rect, x, y),
{
    rect.width > 0 && rect.height > 0 && x >= rect.x && x < rect.x.saturating_add(rect.width) && y
        >= rect.y && y < rect.y.saturating_add(rect.height)
}

/// A cell of the screen.
#[derive(Debug, PartialEq, Eq)]
pub struct CellData {
    pub symbol: String,
    pub fg: u32,
    pub bg: u32,
    pub modifier: u16,
    pub skip: bool,
    pub hyperlink: Option<u32>,
}

impl Clone for CellData {
    fn clone(&self) -> (r: Self)
        ensures
            r == *self,
    {
        CellData {
            symbol: self.symbol.clone(),
            fg: self.fg,
            bg: self.bg,
            modifier: self.modifier,
            skip: self.skip,
            hyperlink: self.hyperlink,
        }
    }
}

/// Where the cursor is and how it looks.
#[derive(Debug, Clone, Copy, PartialEq, Eq, Structural)]
pub struct CursorState {
    pub x: u16,
    pub y: u16,
    pub visible: bool,
    pub shape: u8,
}

/// What a server shows.
#[derive(Debug, PartialEq, Eq)]
pub struct FrameData {
    pub cells: Vec<CellData>,
    pub width: u16,
    pub height: u16,
    pub cursor: Option<CursorState>,
    pub hyperlinks: Vec<String>,
    pub graphics: Vec<u8>,
}

/// Whether a cell is blank.
pub open spec fn is_blank(cell: CellData) -> bool {
    &&& cell.symbol@ == " "@
    &&& cell.fg == 0
    &&& cell.bg == 0
    &&& cell.modifier == 0
    &&& !cell.skip
    &&& cell.hyperlink is None
}

/// A blank cell.
pub fn blank_cell() -> (r: CellData)
    ensures
        is_blank(r),
{
    CellData {
        symbol: " ".to_owned(),
        fg: 0,
        bg: 0,
        modifier: 0,
        skip: false,
        hyperlink: None,
    }
}

/// A frame of blank cells.
pub fn blank_frame(width: u16, height: u16) -> (r: FrameData)
    ensures
        r.width == width,
        r.height == height,
        r.cells@.len() == width * height,
        forall|i: int| 0 <= i < r.cells@.len() ==> is_blank(#[trigger] r.cells@[i]),
        r.cursor is None,
        r.hyperlinks@.len() == 0,
        r.graphics@.len() == 0,
{
    let total: u32 = {
        assert(width * height <= 0xffff * 0xffff) by (nonlinear_arith)
            requires
                width <= 0xffff,
                height <= 0xffff,
        ;
        width as u32 * height as u32
    };
    let mut cells: Vec<CellData> = Vec::new();
    let mut i: u32 = 0;
    while i < total
        invariant
            i <= total,
            cells@.len() == i,
            forall|k: int| 0 <= k < i ==> is_blank(#[trigger] cells@[k]),
        decreases total - i,
    {
        cells.push(blank_cell());
        i = i + 1;
    }
    FrameData { cells, width, height, cursor: None, hyperlinks: Vec::new(), graphics: Vec::new() }
}

/// The place of a cell in a frame of this width.
pub open spec fn cell_index(width: u16, x: int, y: int) -> int {
    y * width + x
}

/// The smaller of two numbers.
pub open spec fn smaller(a: int, b: int) -> int {
    if a < b {
        a
    } else {
        b
    }
}

/// Whether a cell lies in one of the areas.
pub open spec fn excluded(rects: Seq<Rect>, x: u16, y: u16) -> bool {
    exists|i: int| 0 <= i < rects.len() && contains(#[trigger] rects[i], x, y)
}

/// The part of the target that the content covers.
#[verifier::ext_equal]
pub struct CopyArea {
    pub x: int,
    pub width: int,
    pub height: int,
}

/// Whether the content is copied to the cell in column `x` and row `y` of the target.
pub open spec fn is_copied(area: CopyArea, rects: Seq<Rect>, x: int, y: int) -> bool {
    &&& area.x <= x < area.x + area.width
    &&& 0 <= y < area.height
    &&& !excluded(rects, x as u16, y as u16)
}

fn in_any(rects: &Vec<Rect>, x: u16, y: u16) -> (r: bool)
    ensures
        r == excluded(rects@, x, y),
{
    let mut i: usize = 0;
    while i < rects.len()
        invariant
            i <= rects@.len(),
            forall|k: int| 0 <= k < i ==> !contains(#[trigger] rects@[k], x, y),
        decreases rects@.len() - i,
    {
        if rect_contains(rects[i], x, y) {
            return true;
        }
        i = i + 1;
    }
    false
}

/// The cell at a place after copying: that of the content where it is copied there and has one,
/// else what was there before.
pub open spec fn copied_cell(
    source: Seq<CellData>,
    source_width: u16,
    before: CellData,
    area: CopyArea,
    rects: Seq<Rect>,
    x: int,
    y: int,
) -> CellData {
    let i = cell_index(source_width, x - area.x, y);
    if is_copied(area, rects, x, y) && i < source.len() {
        source[i]
    } else {
        before
    }
}

/// What the target holds after the content was copied into it: in the area, outside the excluded
/// rectangles, the cells of the content; everywhere else what it held before.
pub open spec fn content_copied(
    source: Seq<CellData>,
    source_width: u16,
    before: Seq<CellData>,
    after: Seq<CellData>,
    target_width: u16,
    target_height: u16,
    area: CopyArea,
    rects: Seq<Rect>,
) -> bool {
    &&& after.len() == before.len()
    &&& forall|x: int, y: int|
        0 <= x < target_width && 0 <= y < target_height && cell_index(target_width, x, y)
            < before.len() ==> #[trigger] after[cell_index(target_width, x, y)] == copied_cell(
            source,
            source_width,
            before[cell_index(target_width, x, y)],
            area,
            rects,
            x,
            y,
        )
    &&& forall|i: int|
        target_width * target_height <= i < before.len() ==> #[trigger] after[i] == before[i]
}

proof fn lemma_cell_index(width: u16, height: u16, x: int, y: int)
    requires
        0 <= x < width,
        0 <= y < height,
    ensures
        0 <= cell_index(width, x, y) < width * height,
        width * height <= 0xfffe_0001,
{
    assert(0 <= y * width) by (nonlinear_arith)
        requires
            0 <= y,
            width >= 0,
    ;
    assert(y * width + width <= width * height) by (nonlinear_arith)
        requires
            y + 1 <= height,
            width >= 0,
    ;
    assert(width * height <= 0xffff * 0xffff) by (nonlinear_arith)
        requires
            0 <= width <= 0xffff,
            0 <= height <= 0xffff,
    ;
}

proof fn lemma_cell_index_unique(width: u16, x: int, y: int, a: int, b: int)
    requires
        0 <= x < width,
        0 <= a < width,
        cell_index(width, x, y) == cell_index(width, a, b),
    ensures
        x == a,
        y == b,
{
    assert(y == b) by (nonlinear_arith)
        requires
            0 <= x < width,
            0 <= a < width,
            y * width + x == b * width + a,
    ;
}

/// Copies the content of a server into the target, from column `target_x` on, and leaves the
/// excluded rectangles as they are.
pub(crate) fn copy_active_content_excluding(
    active_frame: &FrameData,
    target: &mut FrameData,
    target_x: u16,
    target_width: u16,
    excluded_rects: &Vec<Rect>,
)
    requires
        target_x + target_width <= old(target).width,
    ensures
        final(target).width == old(target).width,
        final(target).height == old(target).height,
        final(target).cursor == old(target).cursor,
        final(target).hyperlinks == old(target).hyperlinks,
        final(target).graphics == old(target).graphics,
        content_copied(
            active_frame.cells@,
            active_frame.width,
            old(target).cells@,
            final(target).cells@,
            old(target).width,
            old(target).height,
            (CopyArea {
                x: target_x as int,
                width: smaller(target_width as int, active_frame.width as int),
                height: smaller(old(target).height as int, active_frame.height as int),
            }),
            excluded_rects@,
        ),
{
    let copy_width: u16 = if target_width < active_frame.width {
        target_width
    } else {
        active_frame.width
    };
    let copy_height: u16 = if target.height < active_frame.height {
        target.height
    } else {
        active_frame.height
    };
    let ghost before = target.cells@;
    let ghost source = active_frame.cells@;
    let ghost tw = target.width;
    let ghost th = target.height;
    let ghost sw = active_frame.width;
    let ghost rects = excluded_rects@;
    let mut row: u16 = 0;
    proof {
        let area = CopyArea { x: target_x as int, width: copy_width as int, height: 0 };
        assert(content_copied(source, sw, before, target.cells@, tw, th, area, rects));
    }
    while row < copy_height
        invariant
            row <= copy_height,
            copy_width <= target_width,
            copy_width <= active_frame.width,
            copy_height <= th,
            copy_height <= active_frame.height,
            target_x + target_width <= tw,
            source == active_frame.cells@,
            sw == active_frame.width,
            rects == excluded_rects@,
            target.width == tw,
            target.height == th,
            target.cursor == old(target).cursor,
            target.hyperlinks == old(target).hyperlinks,
            target.graphics == old(target).graphics,
            content_copied(
                source,
                sw,
                before,
                target.cells@,
                tw,
                th,
                (CopyArea { x: target_x as int, width: copy_width as int, height: row as int }),
                rects,
            ),
        decreases copy_height - row,
    {
        let ghost at_row = target.cells@;
        let ghost done = CopyArea {
            x: target_x as int,
            width: copy_width as int,
            height: row as int,
        };
        let mut col: u16 = 0;
        while col < copy_width
            invariant
                row < copy_height,
                col <= copy_width,
                copy_width <= target_width,
                copy_width <= active_frame.width,
                copy_height <= th,
                copy_height <= active_frame.height,
                target_x + target_width <= tw,
                source == active_frame.cells@,
                sw == active_frame.width,
                rects == excluded_rects@,
                target.width == tw,
                target.height == th,
                target.cursor == old(target).cursor,
                target.hyperlinks == old(target).hyperlinks,
                target.graphics == old(target).graphics,
                target.cells@.len() == at_row.len(),
                row_copied(source, sw, at_row, target.cells@, tw, th, target_x, row, col, rects),
            decreases copy_width - col,
        {
            let target_col: u16 = target_x + col;
            let ghost now = target.cells@;
            proof {
                lemma_cell_index(sw, active_frame.height, col as int, row as int);
                lemma_cell_index(tw, th, target_col as int, row as int);
                assert(row * sw <= 0xfffe_0001) by (nonlinear_arith)
                    requires
                        0 <= row <= 0xffff,
                        0 <= sw <= 0xffff,
                ;
                assert(row * tw <= 0xfffe_0001) by (nonlinear_arith)
                    requires
                        0 <= row <= 0xffff,
                        0 <= tw <= 0xffff,
                ;
            }
            let source_idx: usize = (row as usize) * (active_frame.width as usize) + (
            col as usize);
            let target_idx: usize = (row as usize) * (target.width as usize) + (
            target_col as usize);
            if !in_any(excluded_rects, target_col, row) && source_idx < active_frame.cells.len()
                && target_idx < target.cells.len() {
                let cell: CellData = active_frame.cells[source_idx].clone();
                target.cells.set(target_idx, cell);
            }
            proof {
                let after = target.cells@;
                assert forall|x: int, y: int|
                    0 <= x < tw && 0 <= y < th && cell_index(tw, x, y)
                        < at_row.len() implies #[trigger] after[cell_index(tw, x, y)]
                    == row_copied_cell(
                    source,
                    sw,
                    at_row[cell_index(tw, x, y)],
                    target_x,
                    row,
                    (col + 1) as u16,
                    rects,
                    x,
                    y,
                ) by {
                    lemma_cell_index(tw, th, x, y);
                    assert(now[cell_index(tw, x, y)] == row_copied_cell(
                        source,
                        sw,
                        at_row[cell_index(tw, x, y)],
                        target_x,
                        row,
                        col,
                        rects,
                        x,
                        y,
                    ));
                    if cell_index(tw, x, y) == target_idx {
                        lemma_cell_index_unique(tw, x, y, target_col as int, row as int);
                    }
                }
            }
            col = col + 1;
        }
        proof {
            let next = CopyArea {
                x: target_x as int,
                width: copy_width as int,
                height: row + 1,
            };
            let after = target.cells@;
            assert forall|x: int, y: int|
                0 <= x < tw && 0 <= y < th && cell_index(tw, x, y) < before.len() implies #[trigger]
            after[cell_index(tw, x, y)] == copied_cell(
                source,
                sw,
                before[cell_index(tw, x, y)],
                next,
                rects,
                x,
                y,
            ) by {
                assert(at_row[cell_index(tw, x, y)] == copied_cell(
                    source,
                    sw,
                    before[cell_index(tw, x, y)],
                    done,
                    rects,
                    x,
                    y,
                ));
            }
        }
        row = row + 1;
    }
}

/// The cell at a place after the first `cols` cells of a row were copied.
spec fn row_copied_cell(
    source: Seq<CellData>,
    source_width: u16,
    before: CellData,
    target_x: u16,
    row: u16,
    cols: u16,
    rects: Seq<Rect>,
    x: int,
    y: int,
) -> CellData {
    let i = cell_index(source_width, x - target_x, y);
    if y == row && target_x <= x < target_x + cols && !excluded(rects, x as u16, y as u16) && i
        < source.len() {
        source[i]
    } else {
        before
    }
}

/// What the target holds after the first `cols` cells of a row were copied.
spec fn row_copied(
    source: Seq<CellData>,
    source_width: u16,
    before: Seq<CellData>,
    after: Seq<CellData>,
    target_width: u16,
    target_height: u16,
    target_x: u16,
    row: u16,
    cols: u16,
    rects: Seq<Rect>,
) -> bool {
    &&& forall|x: int, y: int|
        0 <= x < target_width && 0 <= y < target_height && cell_index(target_width, x, y)
            < before.len() ==> #[trigger] after[cell_index(target_width, x, y)] == row_copied_cell(
            source,
            source_width,
            before[cell_index(target_width, x, y)],
            target_x,
            row,
            cols,
            rects,
            x,
            y,
        )
    &&& forall|i: int|
        target_width * target_height <= i < before.len() ==> #[trigger] after[i] == before[i]
}

/// The cursor of the content, beside the sidebar; none where it is outside the content.
pub open spec fn cursor_beside(
    cursor: Option<CursorState>,
    sidebar_width: u16,
    content_width: u16,
) -> Option<CursorState> {
    match cursor {
        Some(c) => if c.x >= content_width {
            None
        } else {
            Some(CursorState { x: (sidebar_width + c.x) as u16, ..c })
        },
        None => None,
    }
}

/// The cursor of the content, beside the sidebar.
pub fn offset_cursor(
    cursor: &Option<CursorState>,
    sidebar_width: u16,
    content_width: u16,
) -> (r: Option<CursorState>)
    requires
        *cursor is Some && (*cursor)->0.x < content_width ==> sidebar_width + (*cursor)->0.x
            <= u16::MAX,
    ensures
        r == cursor_beside(*cursor, sidebar_width, content_width),
{
    match cursor {
        Some(c) => {
            if c.x >= content_width {
                return None;
            }
            Some(CursorState { x: sidebar_width + c.x, y: c.y, visible: c.visible, shape: c.shape })
        },
        None => None,
    }
}

} // verus!
