//! What a mouse report carries, and what becomes of the mouse beside the sidebar and on its edge.

use vstd::prelude::*;

use crate::compositor::{scrolled, CompositorView};
use crate::dispatch::{content_mouse_dispatch, mouse_dispatched, DispatchView};
use crate::input::{sgr_report, KeyModifiers, MouseButton, MouseEvent, MouseEventKind};
use crate::layout::{ScrollInfo, SidebarLayout};
use crate::supervisor::ModelView;
use crate::text::{
    decimal, is_digit, lemma_decimal_injective, lemma_decimal_value, lemma_first_split_unique,
};

verus! {

/// Whether a code tells a kind of mouse event and the modifiers held with it, by its bits: the
/// two lowest for the button or the wheel's direction, then shift, alt and control, then one for
/// a button held in motion and one for the wheel.
pub open spec fn code_tells(code: nat, kind: MouseEventKind, modifiers: KeyModifiers) -> bool {
    &&& (code / 4) % 2 == 1 <==> modifiers.shift
    &&& (code / 8) % 2 == 1 <==> modifiers.alt
    &&& (code / 16) % 2 == 1 <==> modifiers.control
    &&& match kind {
        MouseEventKind::Down(MouseButton::Left) => code / 32 == 0 && code % 4 == 0,
        MouseEventKind::Down(MouseButton::Middle) => code / 32 == 0 && code % 4 == 1,
        MouseEventKind::Down(MouseButton::Right) => code / 32 == 0 && code % 4 == 2,
        MouseEventKind::Up(MouseButton::Left) => code / 32 == 0 && code % 4 == 0,
        MouseEventKind::Up(MouseButton::Middle) => code / 32 == 0 && code % 4 == 1,
        MouseEventKind::Up(MouseButton::Right) => code / 32 == 0 && code % 4 == 2,
        MouseEventKind::Drag(MouseButton::Left) => code / 32 == 1 && code % 4 == 0,
        MouseEventKind::Drag(MouseButton::Middle) => code / 32 == 1 && code % 4 == 1,
        MouseEventKind::Drag(MouseButton::Right) => code / 32 == 1 && code % 4 == 2,
        MouseEventKind::ScrollUp => code / 32 == 2 && code % 4 == 0,
        MouseEventKind::ScrollDown => code / 32 == 2 && code % 4 == 1,
        MouseEventKind::ScrollLeft => code / 32 == 2 && code % 4 == 2,
        MouseEventKind::ScrollRight => code / 32 == 2 && code % 4 == 3,
        MouseEventKind::Moved => false,
    }
}

/// The text of an SGR report: a code, a column and a row counted from one, and a last letter that
/// is small where a button was let go.
pub open spec fn report_text(code: nat, column: nat, row: nat, released: bool) -> Seq<char> {
    seq!['\u{1b}', '[', '<'] + (decimal(code) + seq![';'] + (decimal(column) + seq![';'] + (
    decimal(row) + seq![if released {
        'm'
    } else {
        'M'
    }])))
}

/// Whether a text, read as an SGR report, tells this event.
pub open spec fn reads_as_event(
    text: Seq<char>,
    kind: MouseEventKind,
    column: u16,
    row: u16,
    modifiers: KeyModifiers,
) -> bool {
    exists|code: nat| #[trigger]
        code_tells(code, kind, modifiers) && text == report_text(
            code,
            (column + 1) as nat,
            (row + 1) as nat,
            kind is Up,
        )
}

proof fn lemma_no_semicolon(n: nat)
    ensures
        !decimal(n).contains(';'),
{
    lemma_decimal_value(n);
    if decimal(n).contains(';') {
        let i = choose|i: int| 0 <= i < decimal(n).len() && decimal(n)[i] == ';';
        assert(is_digit(decimal(n)[i]));
    }
}

/// A report tells the event that it was made for: its kind, its place and the shift, alt and
/// control keys held. Only a plain motion has none.
pub proof fn law_report_tells_the_event(
    kind: MouseEventKind,
    column: u16,
    row: u16,
    modifiers: KeyModifiers,
)
    ensures
        kind is Moved ==> sgr_report(kind, column, row, modifiers) is None,
        !(kind is Moved) ==> {
            &&& sgr_report(kind, column, row, modifiers) is Some
            &&& reads_as_event(
                sgr_report(kind, column, row, modifiers)->0,
                kind,
                column,
                row,
                modifiers,
            )
        },
{
    if !(kind is Moved) {
        reveal_strlit("\u{1b}[<");
        reveal_strlit(";");
        reveal_strlit("m");
        reveal_strlit("M");
        let code = (crate::input::mouse_code(kind)->0 + crate::input::mouse_modifier_code(
            modifiers,
        )) as nat;
        assert(code_tells(code, kind, modifiers));
        let text = sgr_report(kind, column, row, modifiers)->0;
        assert(text =~= report_text(code, (column + 1) as nat, (row + 1) as nat, kind is Up));
    }
}

/// A text is the report of one event: two events with the same report are of the same kind, at
/// the same place, with the same of shift, alt and control held.
pub proof fn law_reports_tell_events_apart(
    text: Seq<char>,
    kind: MouseEventKind,
    column: u16,
    row: u16,
    modifiers: KeyModifiers,
    other_kind: MouseEventKind,
    other_column: u16,
    other_row: u16,
    other_modifiers: KeyModifiers,
)
    requires
        reads_as_event(text, kind, column, row, modifiers),
        reads_as_event(text, other_kind, other_column, other_row, other_modifiers),
    ensures
        kind == other_kind,
        column == other_column,
        row == other_row,
        modifiers.shift == other_modifiers.shift,
        modifiers.alt == other_modifiers.alt,
        modifiers.control == other_modifiers.control,
{
    let a = choose|code: nat| #[trigger]
        code_tells(code, kind, modifiers) && text == report_text(
            code,
            (column + 1) as nat,
            (row + 1) as nat,
            kind is Up,
        );
    let b = choose|code: nat| #[trigger]
        code_tells(code, other_kind, other_modifiers) && text == report_text(
            code,
            (other_column + 1) as nat,
            (other_row + 1) as nat,
            other_kind is Up,
        );
    let end_a = seq![if kind is Up {
        'm'
    } else {
        'M'
    }];
    let end_b = seq![if other_kind is Up {
        'm'
    } else {
        'M'
    }];
    let row_a = decimal((row + 1) as nat) + end_a;
    let row_b = decimal((other_row + 1) as nat) + end_b;
    let place_a = decimal((column + 1) as nat) + seq![';'] + row_a;
    let place_b = decimal((other_column + 1) as nat) + seq![';'] + row_b;
    let tail_a = decimal(a) + seq![';'] + place_a;
    let tail_b = decimal(b) + seq![';'] + place_b;
    assert(text.skip(3) =~= tail_a);
    assert(text.skip(3) =~= tail_b);
    lemma_no_semicolon(a);
    lemma_no_semicolon(b);
    lemma_first_split_unique(decimal(a), place_a, decimal(b), place_b, ';');
    lemma_no_semicolon((column + 1) as nat);
    lemma_no_semicolon((other_column + 1) as nat);
    lemma_first_split_unique(
        decimal((column + 1) as nat),
        row_a,
        decimal((other_column + 1) as nat),
        row_b,
        ';',
    );
    assert(row_a.drop_last() =~= decimal((row + 1) as nat));
    assert(row_b.drop_last() =~= decimal((other_row + 1) as nat));
    assert(row_a.last() == end_a[0] && row_b.last() == end_b[0]);
    lemma_decimal_injective(a, b);
    lemma_decimal_injective((column + 1) as nat, (other_column + 1) as nat);
    lemma_decimal_injective((row + 1) as nat, (other_row + 1) as nat);
}

/// Events that differ in kind, place or in shift, alt or control have different reports; a held
/// button in motion is never reported as the button pressed.
pub proof fn law_different_events_have_different_reports(
    kind: MouseEventKind,
    column: u16,
    row: u16,
    modifiers: KeyModifiers,
    other: MouseEventKind,
    other_column: u16,
    other_row: u16,
    other_modifiers: KeyModifiers,
)
    requires
        !(kind is Moved),
        sgr_report(kind, column, row, modifiers) == sgr_report(
            other,
            other_column,
            other_row,
            other_modifiers,
        ),
    ensures
        kind == other,
        column == other_column,
        row == other_row,
        modifiers.shift == other_modifiers.shift,
        modifiers.alt == other_modifiers.alt,
        modifiers.control == other_modifiers.control,
{
    law_report_tells_the_event(kind, column, row, modifiers);
    law_report_tells_the_event(other, other_column, other_row, other_modifiers);
    law_reports_tell_events_apart(
        sgr_report(kind, column, row, modifiers)->0,
        kind,
        column,
        row,
        modifiers,
        other,
        other_column,
        other_row,
        other_modifiers,
    );
}

/// Forwarding to the active server changes nothing of an event but its column, which loses the
/// sidebar's width. The mouse on the sidebar is not forwarded; a plain motion beside it is
/// forwarded as it came.
pub proof fn law_forwarding_changes_only_the_column(
    original: Seq<u8>,
    mouse: MouseEvent,
    sidebar_width: u16,
)
    ensures
        mouse.column < sidebar_width ==> content_mouse_dispatch(original, mouse, sidebar_width)
            == DispatchView::Consumed,
        mouse.column >= sidebar_width && mouse.kind is Moved ==> content_mouse_dispatch(
            original,
            mouse,
            sidebar_width,
        ) == (DispatchView::Forward { data: original }),
        mouse.column >= sidebar_width && !(mouse.kind is Moved) ==> exists|text: Seq<char>|
            #[trigger] reads_as_event(
                text,
                mouse.kind,
                (mouse.column - sidebar_width) as u16,
                mouse.row,
                mouse.modifiers,
            ) && content_mouse_dispatch(original, mouse, sidebar_width) == (DispatchView::Forward {
                data: vstd::utf8::encode_utf8(text),
            }),
{
    if mouse.column >= sidebar_width && !(mouse.kind is Moved) {
        let column = (mouse.column - sidebar_width) as u16;
        law_report_tells_the_event(mouse.kind, column, mouse.row, mouse.modifiers);
        let text = sgr_report(mouse.kind, column, mouse.row, mouse.modifiers)->0;
        assert(reads_as_event(text, mouse.kind, column, mouse.row, mouse.modifiers));
    }
}

/// The sidebar's edge follows the mouse: pressing on its last column takes hold of it, moving the
/// held mouse puts the edge under it within the limits that the settings give and tells the
/// active server the room that is left, and letting go ends it.
pub proof fn law_sidebar_edge_follows_the_mouse(
    c: CompositorView,
    m: ModelView,
    data: Seq<u8>,
    layout: SidebarLayout,
    mouse: MouseEvent,
    host_size: (u16, u16),
)
    requires
        0 < c.sidebar_width < host_size.0,
    ensures
        ({
            let after = mouse_dispatched(c, m, data, layout, mouse, host_size);
            let min = m.ui_settings.sidebar_min_width;
            let max = m.ui_settings.sidebar_max_width;
            &&& mouse.kind == MouseEventKind::Down(MouseButton::Left) && mouse.column + 1
                == c.sidebar_width ==> {
                &&& after.compositor == (CompositorView { resizing: true, ..c })
                &&& after.model == m
                &&& after.dispatch == DispatchView::Redraw
            }
            &&& mouse.kind == MouseEventKind::Drag(MouseButton::Left) && c.resizing && min
                <= mouse.column + 1 <= max && mouse.column + 1 < host_size.0 ==> {
                &&& after.compositor == (CompositorView {
                    sidebar_width: (mouse.column + 1) as u16,
                    ..c
                })
                &&& after.model == m
                &&& after.dispatch == (DispatchView::Resize {
                    cols: (host_size.0 - (mouse.column + 1)) as u16,
                    rows: host_size.1,
                })
            }
            &&& mouse.kind == MouseEventKind::Drag(MouseButton::Left) && c.resizing && mouse.column
                + 1 < min <= max < host_size.0 ==> after.compositor.sidebar_width == min
            &&& mouse.kind == MouseEventKind::Drag(MouseButton::Left) && c.resizing && min <= max
                < mouse.column + 1 && max < host_size.0 ==> after.compositor.sidebar_width == max
            &&& mouse.kind == MouseEventKind::Up(MouseButton::Left) && c.resizing ==> {
                &&& after.compositor == (CompositorView { resizing: false, ..c })
                &&& after.model == m
                &&& after.dispatch == DispatchView::Redraw
            }
            &&& !c.resizing && !(mouse.kind == MouseEventKind::Down(MouseButton::Left)
                && mouse.column + 1 == c.sidebar_width) ==> after.compositor.sidebar_width
                == c.sidebar_width && !after.compositor.resizing
        }),
{
}

/// The wheel moves a list by one row and stops at its ends: up never below the first row, down
/// never past the last offset.
pub proof fn law_wheel_moves_by_one_row(info: ScrollInfo)
    ensures
        info.offset > 0 ==> scrolled(info, true) == info.offset - 1,
        info.offset == 0 ==> scrolled(info, true) == 0,
        info.offset < info.max_offset ==> scrolled(info, false) == info.offset + 1,
        info.offset >= info.max_offset ==> scrolled(info, false) == info.max_offset,
{
}

/// Each modifier has a bit of its own in the number that a scroll request carries: shift the
/// lowest, then control, alt, super, hyper and meta.
pub proof fn law_each_modifier_has_its_bit(modifiers: KeyModifiers)
    ensures
        0 <= modifiers.bits_spec() < 64,
        modifiers.bits_spec() % 2 == 1 <==> modifiers.shift,
        (modifiers.bits_spec() / 2) % 2 == 1 <==> modifiers.control,
        (modifiers.bits_spec() / 4) % 2 == 1 <==> modifiers.alt,
        (modifiers.bits_spec() / 8) % 2 == 1 <==> modifiers.super_key,
        (modifiers.bits_spec() / 16) % 2 == 1 <==> modifiers.hyper,
        (modifiers.bits_spec() / 32) % 2 == 1 <==> modifiers.meta,
{
}

} // verus!
