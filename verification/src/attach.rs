//! Direct attachment to a terminal: what is typed goes to the terminal, but for a prefix key that
//! detaches and for what scrolls the view.

use vstd::prelude::*;

use crate::input::{no_modifiers, KeyCode, MouseEventKind, RawInputEvent};

verus! {

/// The prefix key, control-B.
pub const PREFIX: u8 = 0x02;

/// Behind the prefix, `q` detaches.
pub const DETACH_KEY: u8 = 0x71;

#[derive(Debug, Clone, Copy, PartialEq, Eq, Structural)]
pub enum AttachScrollDirection {
    Up,
    Down,
}

/// What asked for the view to scroll.
#[derive(Debug, PartialEq, Eq)]
pub enum AttachScrollSource {
    Wheel,
    /// A page key, with the bytes it sent.
    PageKey { input: Vec<u8> },
}

/// A request to scroll the view.
#[derive(Debug, PartialEq, Eq)]
pub struct AttachScroll {
    pub source: AttachScrollSource,
    pub direction: AttachScrollDirection,
    pub lines: u16,
    pub column: Option<u16>,
    pub row: Option<u16>,
    pub modifiers: u8,
}

/// What becomes of typed bytes.
#[derive(Debug, PartialEq, Eq)]
pub enum AttachInputAction {
    Forward(Vec<u8>),
    Scroll(AttachScroll),
    Detach,
    /// Nothing is sent.
    Swallow,
}

/// Whether a prefix has been typed whose meaning the next byte decides.
#[derive(Debug)]
pub struct AttachEscapeState {
    pub pending_prefix: bool,
}

/// What the prefix key makes of typed bytes.
#[verifier::ext_equal]
pub struct Filtered {
    pub output: Seq<u8>,
    /// Whether a prefix is left whose meaning the next byte decides.
    pub pending: bool,
    pub detach: bool,
}

/// Bytes before what is left.
pub open spec fn prefixed(bytes: Seq<u8>, rest: Filtered) -> Filtered {
    Filtered { output: bytes + rest.output, ..rest }
}

/// What the prefix key makes of typed bytes: the prefix twice is the prefix, the prefix and `q`
/// detach, and before another byte the prefix stands for itself.
pub open spec fn filtered(data: Seq<u8>, pending: bool) -> Filtered
    decreases data.len(),
{
    if data.len() == 0 {
        Filtered { output: Seq::empty(), pending, detach: false }
    } else {
        let byte = data[0];
        let rest = data.skip(1);
        if pending {
            if byte == DETACH_KEY {
                Filtered { output: Seq::empty(), pending: false, detach: true }
            } else if byte == PREFIX {
                prefixed(seq![PREFIX], filtered(rest, false))
            } else {
                prefixed(seq![PREFIX, byte], filtered(rest, false))
            }
        } else if byte == PREFIX {
            filtered(rest, true)
        } else {
            prefixed(seq![byte], filtered(rest, false))
        }
    }
}

/// How many lines a wheel notch scrolls: at least one.
pub open spec fn wheel_lines(lines: usize) -> int {
    if lines == 0 {
        1
    } else if lines > u16::MAX {
        u16::MAX as int
    } else {
        lines as int
    }
}

/// How many lines a page key scrolls: one less than the view has, at least one.
pub open spec fn page_lines(rows: u16) -> int {
    if rows <= 2 {
        1
    } else {
        rows - 1
    }
}

/// What a single event comes to, where it does not go to the terminal.
pub open spec fn scroll_event_is(
    action: AttachInputAction,
    data: Seq<u8>,
    event: RawInputEvent,
    viewport_rows: u16,
    mouse_scroll_lines: usize,
) -> bool {
    match event {
        RawInputEvent::Mouse(mouse) => if mouse.kind is ScrollUp || mouse.kind is ScrollDown {
            action is Scroll && {
                let scroll = action->Scroll_0;
                &&& scroll.source is Wheel
                &&& scroll.direction == (if mouse.kind is ScrollUp {
                    AttachScrollDirection::Up
                } else {
                    AttachScrollDirection::Down
                })
                &&& scroll.lines == wheel_lines(mouse_scroll_lines)
                &&& scroll.column == Some(mouse.column)
                &&& scroll.row == Some(mouse.row)
                &&& scroll.modifiers == mouse.modifiers.bits_spec()
            }
        } else {
            action is Swallow
        },
        RawInputEvent::Key(key) => if key.is_press() {
            action is Scroll && {
                let scroll = action->Scroll_0;
                &&& scroll.source is PageKey
                &&& scroll.source->input@ == data
                &&& scroll.direction == (if key.code is PageUp {
                    AttachScrollDirection::Up
                } else {
                    AttachScrollDirection::Down
                })
                &&& scroll.lines == page_lines(viewport_rows)
                &&& scroll.column is None
                &&& scroll.row is None
                &&& scroll.modifiers == 0
            }
        } else {
            action is Swallow
        },
        _ => false,
    }
}

/// Whether an event is kept from the terminal: a mouse report, or a page key without modifiers.
pub open spec fn is_scroll_event(event: RawInputEvent) -> bool {
    match event {
        RawInputEvent::Mouse(_) => true,
        RawInputEvent::Key(key) => key.modifiers == no_modifiers() && (key.code is PageUp
            || key.code is PageDown),
        _ => false,
    }
}

/// Whether the events are one that is kept from the terminal.
pub open spec fn is_scroll_input(events: Seq<RawInputEvent>) -> bool {
    events.len() == 1 && is_scroll_event(events[0])
}

/// What typed bytes, read as these events, do instead of going to the terminal.
pub fn attach_scroll_action(
    data: &Vec<u8>,
    events: &Vec<RawInputEvent>,
    viewport_rows: u16,
    mouse_scroll_lines: usize,
) -> (r: Option<AttachInputAction>)
    ensures
        r is Some <==> is_scroll_input(events@),
        r is Some ==> scroll_event_is(
            r->0,
            data@,
            events@[0],
            viewport_rows,
            mouse_scroll_lines,
        ),
{
    if events.len() != 1 {
        return None;
    }
    match &events[0] {
        RawInputEvent::Mouse(mouse) => {
            let direction: AttachScrollDirection = match mouse.kind {
                MouseEventKind::ScrollUp => AttachScrollDirection::Up,
                MouseEventKind::ScrollDown => AttachScrollDirection::Down,
                _ => {
                    return Some(AttachInputAction::Swallow);
                },
            };
            let lines: u16 = if mouse_scroll_lines == 0 {
                1
            } else if mouse_scroll_lines > 0xffff {
                0xffff
            } else {
                mouse_scroll_lines as u16
            };
            Some(
                AttachInputAction::Scroll(
                    AttachScroll {
                        source: AttachScrollSource::Wheel,
                        direction,
                        lines,
                        column: Some(mouse.column),
                        row: Some(mouse.row),
                        modifiers: mouse.modifiers.bits(),
                    },
                ),
            )
        },
        RawInputEvent::Key(key) => {
            if !key.modifiers.is_empty() {
                return None;
            }
            let direction: AttachScrollDirection = match key.code {
                KeyCode::PageUp => AttachScrollDirection::Up,
                KeyCode::PageDown => AttachScrollDirection::Down,
                _ => {
                    return None;
                },
            };
            if !key.pressed() {
                return Some(AttachInputAction::Swallow);
            }
            let lines: u16 = if viewport_rows <= 2 {
                1
            } else {
                viewport_rows - 1
            };
            Some(
                AttachInputAction::Scroll(
                    AttachScroll {
                        source: AttachScrollSource::PageKey {
                            input: vstd::slice::slice_to_vec(data.as_slice()),
                        },
                        direction,
                        lines,
                        column: None,
                        row: None,
                        modifiers: 0,
                    },
                ),
            )
        },
        _ => None,
    }
}

/// Whether an action is what typed bytes come to, behind the prefix key and read as these events.
pub open spec fn attach_action_is(
    action: AttachInputAction,
    output: Seq<u8>,
    events: Seq<RawInputEvent>,
    viewport_rows: u16,
    mouse_scroll_lines: usize,
) -> bool {
    if output.len() == 0 {
        action is Swallow
    } else if is_scroll_input(events) {
        scroll_event_is(action, output, events[0], viewport_rows, mouse_scroll_lines)
    } else {
        action is Forward && action->Forward_0@ == output
    }
}

/// What typed bytes come to, behind the prefix key and read as these events.
pub fn attach_input_action(
    output: Vec<u8>,
    events: &Vec<RawInputEvent>,
    viewport_rows: u16,
    mouse_scroll_lines: usize,
) -> (r: AttachInputAction)
    ensures
        attach_action_is(r, output@, events@, viewport_rows, mouse_scroll_lines),
{
    if output.len() == 0 {
        return AttachInputAction::Swallow;
    }
    match attach_scroll_action(&output, events, viewport_rows, mouse_scroll_lines) {
        Some(action) => action,
        None => AttachInputAction::Forward(output),
    }
}

impl Default for AttachEscapeState {
    fn default() -> (r: Self)
        ensures
            !r.pending_prefix,
    {
        AttachEscapeState { pending_prefix: false }
    }
}

impl AttachEscapeState {
    /// Applies the prefix key to typed bytes: what is left of them, `None` where they detach.
    pub fn strip_prefix_keys(&mut self, data: &Vec<u8>) -> (r: Option<Vec<u8>>)
        ensures
            ({
                let f = filtered(data@, old(self).pending_prefix);
                &&& final(self).pending_prefix == f.pending
                &&& match r {
                    Some(output) => !f.detach && output@ == f.output,
                    None => f.detach,
                }
            }),
    {
        let ghost whole = filtered(data@, self.pending_prefix);
        let mut output: Vec<u8> = Vec::new();
        let mut i: usize = 0;
        assert(data@.skip(0) =~= data@);
        assert(prefixed(output@, whole) =~= whole);
        while i < data.len()
            invariant
                i <= data@.len(),
                whole == filtered(data@, old(self).pending_prefix),
                whole =~= prefixed(
                    output@,
                    filtered(data@.skip(i as int), self.pending_prefix),
                ),
            decreases data@.len() - i,
        {
            let ghost rest = data@.skip(i as int);
            let ghost before = output@;
            let byte: u8 = data[i];
            assert(rest[0] == byte);
            assert(rest.skip(1) =~= data@.skip(i + 1));
            if self.pending_prefix {
                self.pending_prefix = false;
                if byte == DETACH_KEY {
                    return None;
                }
                output.push(PREFIX);
                if byte != PREFIX {
                    output.push(byte);
                    assert(output@ =~= before + seq![PREFIX, byte]);
                } else {
                    assert(output@ =~= before + seq![PREFIX]);
                }
            } else if byte == PREFIX {
                self.pending_prefix = true;
            } else {
                output.push(byte);
                assert(output@ =~= before + seq![byte]);
            }
            i = i + 1;
        }
        assert(data@.skip(i as int) =~= Seq::<u8>::empty());
        Some(output)
    }

    /// What typed bytes come to. `parse` reads bytes as events.
    pub fn filter_input<F>(
        &mut self,
        data: Vec<u8>,
        viewport_rows: u16,
        mouse_scroll_lines: usize,
        parse: F,
    ) -> (r: AttachInputAction) where F: Fn(&Vec<u8>) -> Vec<RawInputEvent>
        requires
            forall|bytes: &Vec<u8>| #[trigger] call_requires(parse, (bytes,)),
        ensures
            final(self).pending_prefix == filtered(data@, old(self).pending_prefix).pending,
            ({
                let f = filtered(data@, old(self).pending_prefix);
                if f.detach {
                    r is Detach
                } else if f.output.len() == 0 {
                    r is Swallow
                } else {
                    exists|bytes: &Vec<u8>, events: Vec<RawInputEvent>|
                        bytes@ == f.output && #[trigger] call_ensures(parse, (bytes,), events)
                            && attach_action_is(
                            r,
                            f.output,
                            events@,
                            viewport_rows,
                            mouse_scroll_lines,
                        )
                }
            }),
    {
        match self.strip_prefix_keys(&data) {
            None => AttachInputAction::Detach,
            Some(output) => {
                if output.len() == 0 {
                    return AttachInputAction::Swallow;
                }
                let events: Vec<RawInputEvent> = parse(&output);
                let ghost bytes = &output;
                assert(call_ensures(parse, (bytes,), events));
                attach_input_action(output, &events, viewport_rows, mouse_scroll_lines)
            },
        }
    }
}

/// Bytes without the prefix key go through as they are.
pub proof fn law_plain_bytes_pass(data: Seq<u8>)
    requires
        forall|i: int| 0 <= i < data.len() ==> data[i] != PREFIX,
    ensures
        filtered(data, false) == (Filtered { output: data, pending: false, detach: false }),
    decreases data.len(),
{
    if data.len() > 0 {
        let rest = data.skip(1);
        assert forall|i: int| 0 <= i < rest.len() implies rest[i] != PREFIX by {
            assert(rest[i] == data[i + 1]);
        }
        law_plain_bytes_pass(rest);
        assert(seq![data[0]] + rest =~= data);
    } else {
        assert(data =~= Seq::<u8>::empty());
    }
}

/// Typing bytes in two parts is the same as typing them at once, as long as the first part does
/// not detach.
pub proof fn law_split_input(a: Seq<u8>, b: Seq<u8>, pending: bool)
    requires
        !filtered(a, pending).detach,
    ensures
        filtered(a + b, pending) == prefixed(
            filtered(a, pending).output,
            filtered(b, filtered(a, pending).pending),
        ),
    decreases a.len(),
{
    let both = a + b;
    if a.len() == 0 {
        assert(both =~= b);
        assert(prefixed(Seq::empty(), filtered(b, pending)) =~= filtered(b, pending));
    } else {
        let rest = a.skip(1);
        assert(both[0] == a[0]);
        assert(both.skip(1) =~= rest + b);
        let byte = a[0];
        if pending {
            law_split_input(rest, b, false);
        } else if byte == PREFIX {
            law_split_input(rest, b, true);
        } else {
            law_split_input(rest, b, false);
        }
        assert(filtered(both, pending) =~= prefixed(
            filtered(a, pending).output,
            filtered(b, filtered(a, pending).pending),
        ));
    }
}

} // verus!
