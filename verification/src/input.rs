//! Keys and mouse reports, as a terminal sends them.

use vstd::prelude::*;

verus! {

/// A key.
#[derive(Debug, Clone, Copy, PartialEq, Eq)]
pub enum KeyCode {
    Esc,
    Tab,
    Enter,
    Backspace,
    Up,
    Down,
    PageUp,
    PageDown,
    Char(char),
    /// Any key that the client does not tell apart.
    Other,
}

#[derive(Debug, Clone, Copy, PartialEq, Eq, Structural)]
pub enum KeyEventKind {
    Press,
    Repeat,
    Release,
}

/// The modifiers held with a key.
#[derive(Debug, Clone, Copy, PartialEq, Eq, Structural)]
pub struct KeyModifiers {
    pub shift: bool,
    pub control: bool,
    pub alt: bool,
    pub super_key: bool,
    pub hyper: bool,
    pub meta: bool,
}

/// No modifier.
pub open spec fn no_modifiers() -> KeyModifiers {
    KeyModifiers {
        shift: false,
        control: false,
        alt: false,
        super_key: false,
        hyper: false,
        meta: false,
    }
}

impl KeyModifiers {
    /// No modifier.
    pub fn none() -> (r: Self)
        ensures
            r == no_modifiers(),
    {
        KeyModifiers {
            shift: false,
            control: false,
            alt: false,
            super_key: false,
            hyper: false,
            meta: false,
        }
    }

    /// Whether no modifier is held.
    pub fn is_empty(&self) -> (r: bool)
        ensures
            r == (*self == no_modifiers()),
    {
        !self.shift && !self.control && !self.alt && !self.super_key && !self.hyper && !self.meta
    }

    /// Whether no modifier but shift is held.
    pub open spec fn at_most_shift_spec(self) -> bool {
        !self.control && !self.alt && !self.super_key && !self.hyper && !self.meta
    }

    pub fn at_most_shift(&self) -> (r: bool)
        ensures
            r == self.at_most_shift_spec(),
    {
        !self.control && !self.alt && !self.super_key && !self.hyper && !self.meta
    }

    /// Whether control, and nothing else, is held.
    pub fn is_control(&self) -> (r: bool)
        ensures
            r == (*self == KeyModifiers { control: true, ..no_modifiers() }),
    {
        self.control && !self.shift && !self.alt && !self.super_key && !self.hyper && !self.meta
    }

    /// The modifiers as a bit set: shift 1, control 2, alt 4, super 8, hyper 16, meta 32.
    pub open spec fn bits_spec(self) -> int {
        flag(self.shift, 1) + flag(self.control, 2) + flag(self.alt, 4) + flag(self.super_key, 8)
            + flag(self.hyper, 16) + flag(self.meta, 32)
    }

    pub fn bits(&self) -> (r: u8)
        ensures
            r == self.bits_spec(),
    {
        bit(self.shift, 1) + bit(self.control, 2) + bit(self.alt, 4) + bit(self.super_key, 8) + bit(
            self.hyper,
            16,
        ) + bit(self.meta, 32)
    }
}

/// `value` where a flag is set.
pub open spec fn flag(set: bool, value: int) -> int {
    if set {
        value
    } else {
        0
    }
}

fn bit(set: bool, value: u8) -> (r: u8)
    ensures
        r == flag(set, value as int),
{
    if set {
        value
    } else {
        0
    }
}

/// A key event.
#[derive(Debug, Clone, Copy, PartialEq, Eq)]
pub struct TerminalKey {
    pub code: KeyCode,
    pub modifiers: KeyModifiers,
    pub kind: KeyEventKind,
}

impl TerminalKey {
    /// A press of a key.
    pub fn new(code: KeyCode, modifiers: KeyModifiers) -> (r: Self)
        ensures
            r.code == code,
            r.modifiers == modifiers,
            r.kind == KeyEventKind::Press,
    {
        TerminalKey { code, modifiers, kind: KeyEventKind::Press }
    }

    /// Whether the event is a press or a repetition of one.
    pub open spec fn is_press(self) -> bool {
        self.kind == KeyEventKind::Press || self.kind == KeyEventKind::Repeat
    }

    pub fn pressed(&self) -> (r: bool)
        ensures
            r == self.is_press(),
    {
        self.kind == KeyEventKind::Press || self.kind == KeyEventKind::Repeat
    }
}

#[derive(Debug, Clone, Copy, PartialEq, Eq, Structural)]
pub enum MouseButton {
    Left,
    Right,
    Middle,
}

#[derive(Debug, Clone, Copy, PartialEq, Eq, Structural)]
pub enum MouseEventKind {
    Down(MouseButton),
    Up(MouseButton),
    Drag(MouseButton),
    Moved,
    ScrollUp,
    ScrollDown,
    ScrollLeft,
    ScrollRight,
}

/// A mouse report.
#[derive(Debug, Clone, Copy, PartialEq, Eq, Structural)]
pub struct MouseEvent {
    pub kind: MouseEventKind,
    pub column: u16,
    pub row: u16,
    pub modifiers: KeyModifiers,
}

/// What a terminal sent.
#[derive(Debug, PartialEq, Eq)]
pub enum RawInputEvent {
    Key(TerminalKey),
    Mouse(MouseEvent),
    Paste(String),
    /// Anything that the client passes on as it is.
    Unknown,
}

/// The number of a button in a mouse report.
pub open spec fn button_number(button: MouseButton) -> int {
    match button {
        MouseButton::Left => 0,
        MouseButton::Middle => 1,
        MouseButton::Right => 2,
    }
}

/// The code of a mouse report: the button, with 32 for a drag and 64 for a wheel. A plain motion
/// has none.
pub open spec fn mouse_code(kind: MouseEventKind) -> Option<int> {
    match kind {
        MouseEventKind::Down(b) => Some(button_number(b)),
        MouseEventKind::Up(b) => Some(button_number(b)),
        MouseEventKind::Drag(b) => Some(32 + button_number(b)),
        MouseEventKind::ScrollUp => Some(64),
        MouseEventKind::ScrollDown => Some(65),
        MouseEventKind::ScrollLeft => Some(66),
        MouseEventKind::ScrollRight => Some(67),
        MouseEventKind::Moved => None,
    }
}

/// What the modifiers add to the code: shift 4, alt 8, control 16.
pub open spec fn mouse_modifier_code(modifiers: KeyModifiers) -> int {
    flag(modifiers.shift, 4) + flag(modifiers.alt, 8) + flag(modifiers.control, 16)
}

/// A mouse report in the SGR encoding. Columns and rows count from one.
pub open spec fn sgr_report(
    kind: MouseEventKind,
    column: u16,
    row: u16,
    modifiers: KeyModifiers,
) -> Option<Seq<char>> {
    match mouse_code(kind) {
        None => None,
        Some(code) => Some(
            "\u{1b}[<"@ + crate::text::decimal((code + mouse_modifier_code(modifiers)) as nat)
                + ";"@ + crate::text::decimal((column + 1) as nat) + ";"@ + crate::text::decimal(
                (row + 1) as nat,
            ) + (if kind is Up {
                "m"@
            } else {
                "M"@
            }),
        ),
    }
}

fn button_code(button: MouseButton) -> (r: u8)
    ensures
        r == button_number(button),
        r <= 2,
{
    match button {
        MouseButton::Left => 0,
        MouseButton::Middle => 1,
        MouseButton::Right => 2,
    }
}

/// A mouse report in the SGR encoding, `None` for a plain motion.
pub fn encode_mouse(
    kind: MouseEventKind,
    column: u16,
    row: u16,
    modifiers: KeyModifiers,
) -> (r: Option<String>)
    ensures
        r.deep_view() == sgr_report(kind, column, row, modifiers),
{
    let code: u8 = match kind {
        MouseEventKind::Down(b) => button_code(b),
        MouseEventKind::Up(b) => button_code(b),
        MouseEventKind::Drag(b) => 32 + button_code(b),
        MouseEventKind::ScrollUp => 64,
        MouseEventKind::ScrollDown => 65,
        MouseEventKind::ScrollLeft => 66,
        MouseEventKind::ScrollRight => 67,
        MouseEventKind::Moved => {
            return None;
        },
    };
    let full: u8 = code + bit(modifiers.shift, 4) + bit(modifiers.alt, 8) + bit(
        modifiers.control,
        16,
    );
    let mut report: String = "\u{1b}[<".to_owned();
    report.append(crate::text::decimal_of(full as u128).as_str());
    report.append(";");
    report.append(crate::text::decimal_of(column as u128 + 1).as_str());
    report.append(";");
    report.append(crate::text::decimal_of(row as u128 + 1).as_str());
    let release: bool = match kind {
        MouseEventKind::Up(_) => true,
        _ => false,
    };
    if release {
        report.append("m");
    } else {
        report.append("M");
    }
    Some(report)
}

} // verus!
