//! What client and server tell each other.

use vstd::prelude::*;

use crate::attach::AttachScroll;
use crate::frame::FrameData;
use crate::protocol::PROTOCOL_VERSION;

verus! {

/// How a server sends what it shows.
#[derive(Debug, Clone, Copy, PartialEq, Eq, Structural)]
pub enum RenderEncoding {
    SemanticFrame,
    TerminalAnsi,
}

/// What part of the screen a server draws.
#[derive(Debug, Clone, Copy, PartialEq, Eq, Structural)]
pub enum ClientSurfaceMode {
    FullApp,
    EmbeddedContent,
}

/// Whose key bindings are in force.
#[derive(Debug, PartialEq, Eq)]
pub enum ClientKeybindings {
    Server,
    Local { keys_toml: String },
}

/// What a client tells a server.
#[derive(Debug, PartialEq, Eq)]
pub enum ClientMessage {
    Hello {
        version: u32,
        cols: u16,
        rows: u16,
        cell_width_px: u32,
        cell_height_px: u32,
        requested_encoding: RenderEncoding,
        surface_mode: ClientSurfaceMode,
        keybindings: ClientKeybindings,
    },
    Input { data: Vec<u8> },
    Resize { cols: u16, rows: u16, cell_width_px: u32, cell_height_px: u32 },
    AttachTerminal { terminal_id: String, takeover: bool },
    AttachScroll(AttachScroll),
    ClipboardImage { extension: String, data: Vec<u8> },
    OpenSettings,
    OpenKeybindHelp,
    Detach,
}

#[derive(Debug, Clone, Copy, PartialEq, Eq, Structural)]
pub enum NotifyKind {
    Sound,
    Toast,
    SystemToast,
}

/// What a server tells a client.
#[derive(Debug)]
pub enum ServerMessage {
    Welcome { version: u32, encoding: RenderEncoding, error: Option<String> },
    Frame(FrameData),
    Terminal { bytes: Vec<u8> },
    Graphics { bytes: Vec<u8> },
    ServerShutdown { reason: Option<String> },
    Notify { kind: NotifyKind, message: String },
    Clipboard { data: String },
    ReloadSoundConfig,
    MouseCapture { enabled: bool },
}

/// The first message of a client.
pub fn build_hello_message(
    cols: u16,
    rows: u16,
    cell_width_px: u32,
    cell_height_px: u32,
    requested_encoding: RenderEncoding,
    surface_mode: ClientSurfaceMode,
    keybindings: ClientKeybindings,
) -> (r: ClientMessage)
    ensures
        r == (ClientMessage::Hello {
            version: PROTOCOL_VERSION,
            cols,
            rows,
            cell_width_px,
            cell_height_px,
            requested_encoding,
            surface_mode,
            keybindings,
        }),
{
    ClientMessage::Hello {
        version: PROTOCOL_VERSION,
        cols,
        rows,
        cell_width_px,
        cell_height_px,
        requested_encoding,
        surface_mode,
        keybindings,
    }
}

} // verus!
