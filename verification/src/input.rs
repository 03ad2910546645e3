//! Keyboard and mouse input, mapped to application actions.
//!
//! The terminal's events are described here by the library's own types; the
//! program converts the terminal library's events into them.

use vstd::prelude::*;

verus! {

/// A mouse button.
#[derive(PartialEq, Eq, Structural, Clone, Copy, Debug)]
pub enum MouseButton {
    Left,
    Right,
    Middle,
}

/// Something the user asked for. Times are nanoseconds.
#[derive(Debug, PartialEq)]
pub enum AppAction {
    Quit,
    SeekForward(i64),
    SeekBackward(i64),
    SeekToStart,
    SeekToEnd,
    ZoomIn,
    ZoomOut,
    PanLeft,
    PanRight,
    SetInPoint,
    SetOutPoint,
    ConfirmSegment,
    DeleteSegment,
    SelectPrevSegment,
    SelectNextSegment,
    SnapToKeyframe,
    SeekToSegmentStart,
    SeekToSegmentEnd,
    TogglePlay,
    Export,
    ExportMerged,
    ExportSelected,
    ToggleHelp,
    OpenFile(String),
    Undo,
    Redo,
    EditLabel,
    Cancel,
    SwitchPlayer,
    MousePress { button: MouseButton, row: u16, col: u16 },
    MouseDrag { row: u16, col: u16 },
    MouseRelease { row: u16, col: u16 },
    MouseScroll { up: bool, row: u16, col: u16 },
    RestoreSession,
    DiscardSession,
    /// A typed character, used while a label is being edited.
    Char(char),
    /// Deleting the last typed character of a label.
    Backspace,
    NoAction,
}

impl Clone for AppAction {
    fn clone(&self) -> (r: Self)
        ensures
            r == *self,
    {
        match self {
            AppAction::Quit => AppAction::Quit,
            AppAction::SeekForward(n) => AppAction::SeekForward(*n),
            AppAction::SeekBackward(n) => AppAction::SeekBackward(*n),
            AppAction::SeekToStart => AppAction::SeekToStart,
            AppAction::SeekToEnd => AppAction::SeekToEnd,
            AppAction::ZoomIn => AppAction::ZoomIn,
            AppAction::ZoomOut => AppAction::ZoomOut,
            AppAction::PanLeft => AppAction::PanLeft,
            AppAction::PanRight => AppAction::PanRight,
            AppAction::SetInPoint => AppAction::SetInPoint,
            AppAction::SetOutPoint => AppAction::SetOutPoint,
            AppAction::ConfirmSegment => AppAction::ConfirmSegment,
            AppAction::DeleteSegment => AppAction::DeleteSegment,
            AppAction::SelectPrevSegment => AppAction::SelectPrevSegment,
            AppAction::SelectNextSegment => AppAction::SelectNextSegment,
            AppAction::SnapToKeyframe => AppAction::SnapToKeyframe,
            AppAction::SeekToSegmentStart => AppAction::SeekToSegmentStart,
            AppAction::SeekToSegmentEnd => AppAction::SeekToSegmentEnd,
            AppAction::TogglePlay => AppAction::TogglePlay,
            AppAction::Export => AppAction::Export,
            AppAction::ExportMerged => AppAction::ExportMerged,
            AppAction::ExportSelected => AppAction::ExportSelected,
            AppAction::ToggleHelp => AppAction::ToggleHelp,
            AppAction::OpenFile(p) => AppAction::OpenFile(p.clone()),
            AppAction::Undo => AppAction::Undo,
            AppAction::Redo => AppAction::Redo,
            AppAction::EditLabel => AppAction::EditLabel,
            AppAction::Cancel => AppAction::Cancel,
            AppAction::SwitchPlayer => AppAction::SwitchPlayer,
            AppAction::MousePress { button, row, col } => AppAction::MousePress {
                button: *button,
                row: *row,
                col: *col,
            },
            AppAction::MouseDrag { row, col } => AppAction::MouseDrag { row: *row, col: *col },
            AppAction::MouseRelease { row, col } => AppAction::MouseRelease { row: *row, col: *col },
            AppAction::MouseScroll { up, row, col } => AppAction::MouseScroll {
                up: *up,
                row: *row,
                col: *col,
            },
            AppAction::RestoreSession => AppAction::RestoreSession,
            AppAction::DiscardSession => AppAction::DiscardSession,
            AppAction::Char(c) => AppAction::Char(*c),
            AppAction::Backspace => AppAction::Backspace,
            AppAction::NoAction => AppAction::NoAction,
        }
    }
}

/// A key, as far as the controller tells keys apart.
#[derive(PartialEq, Eq, Structural, Clone, Copy, Debug)]
pub enum KeyCode {
    Char(char),
    Left,
    Right,
    Up,
    Down,
    Home,
    End,
    Enter,
    Delete,
    Esc,
    Tab,
    Backspace,
    Other,
}

/// Modifier bits: shift 1, control 2, alt 4, super 8, hyper 16, meta 32.
pub const MOD_NONE: u8 = 0;

pub const MOD_SHIFT: u8 = 1;

pub const MOD_CONTROL: u8 = 2;

pub const MOD_ALT: u8 = 4;

/// A key press with the modifiers held.
#[derive(PartialEq, Eq, Structural, Clone, Copy, Debug)]
pub struct KeyEvent {
    pub code: KeyCode,
    pub modifiers: u8,
}

/// What the mouse did.
#[derive(PartialEq, Eq, Structural, Clone, Copy, Debug)]
pub enum MouseEventKind {
    Down(MouseButton),
    Up(MouseButton),
    Drag(MouseButton),
    Moved,
    ScrollDown,
    ScrollUp,
    ScrollLeft,
    ScrollRight,
}

/// A mouse event at a terminal cell.
#[derive(PartialEq, Eq, Structural, Clone, Copy, Debug)]
pub struct MouseEvent {
    pub kind: MouseEventKind,
    pub column: u16,
    pub row: u16,
}

/// A terminal event.
#[derive(PartialEq, Eq, Structural, Clone, Copy, Debug)]
pub enum Event {
    Key(KeyEvent),
    Mouse(MouseEvent),
    /// Focus changes, pastes, resizes and the like.
    Other,
}

/// The key bindings.
pub open spec fn key_action(code: KeyCode, m: u8) -> AppAction {
    match code {
        KeyCode::Char(c) => {
            if c == 'q' && m == MOD_NONE {
                AppAction::Quit
            } else if c == 'h' && m == MOD_NONE {
                AppAction::SeekBackward(1_000_000_000)
            } else if c == 'l' && m == MOD_NONE {
                AppAction::SeekForward(1_000_000_000)
            } else if c == ' ' && m == MOD_NONE {
                AppAction::TogglePlay
            } else if c == 'a' && m == MOD_NONE {
                AppAction::SetInPoint
            } else if c == 'd' && m == MOD_NONE {
                AppAction::SetOutPoint
            } else if (c == 'x' || c == 's') && m == MOD_NONE {
                AppAction::DeleteSegment
            } else if c == 'k' && m == MOD_NONE {
                AppAction::SelectPrevSegment
            } else if c == 'j' && m == MOD_NONE {
                AppAction::SelectNextSegment
            } else if c == 'H' || (c == 'h' && m == MOD_SHIFT) {
                AppAction::SeekToSegmentStart
            } else if c == 'L' || (c == 'l' && m == MOD_SHIFT) {
                AppAction::SeekToSegmentEnd
            } else if c == 'e' && m == MOD_NONE {
                AppAction::Export
            } else if c == 'E' || (c == 'e' && m == MOD_SHIFT) {
                AppAction::ExportMerged
            } else if c == 'e' && m == MOD_CONTROL {
                AppAction::ExportSelected
            } else if c == 'K' || (c == 'k' && m == MOD_SHIFT) {
                AppAction::SnapToKeyframe
            } else if c == '+' || c == '=' {
                AppAction::ZoomIn
            } else if c == '-' && m == MOD_NONE {
                AppAction::ZoomOut
            } else if c == 'h' && m == MOD_ALT {
                AppAction::PanLeft
            } else if c == 'l' && m == MOD_ALT {
                AppAction::PanRight
            } else if c == 'u' && m == MOD_NONE {
                AppAction::Undo
            } else if c == 'r' && m == MOD_CONTROL {
                AppAction::Redo
            } else if c == 'r' && m == MOD_NONE {
                AppAction::EditLabel
            } else if c == '?' || (c == '/' && m == MOD_SHIFT) {
                AppAction::ToggleHelp
            } else if (c == 'y' || c == 'Y') && m == MOD_NONE {
                AppAction::RestoreSession
            } else if (c == 'n' || c == 'N') && m == MOD_NONE {
                AppAction::DiscardSession
            } else {
                AppAction::NoAction
            }
        },
        KeyCode::Left => if m == MOD_NONE {
            AppAction::SeekBackward(1_000_000_000)
        } else if m == MOD_SHIFT {
            AppAction::SeekBackward(5_000_000_000)
        } else if m == MOD_ALT {
            AppAction::SeekBackward(10_000_000_000)
        } else {
            AppAction::NoAction
        },
        KeyCode::Right => if m == MOD_NONE {
            AppAction::SeekForward(1_000_000_000)
        } else if m == MOD_SHIFT {
            AppAction::SeekForward(5_000_000_000)
        } else if m == MOD_ALT {
            AppAction::SeekForward(10_000_000_000)
        } else {
            AppAction::NoAction
        },
        KeyCode::Home => if m == MOD_NONE {
            AppAction::SeekToStart
        } else {
            AppAction::NoAction
        },
        KeyCode::End => if m == MOD_NONE {
            AppAction::SeekToEnd
        } else {
            AppAction::NoAction
        },
        KeyCode::Enter => if m == MOD_NONE {
            AppAction::ConfirmSegment
        } else {
            AppAction::NoAction
        },
        KeyCode::Delete => if m == MOD_NONE {
            AppAction::DeleteSegment
        } else {
            AppAction::NoAction
        },
        KeyCode::Up => if m == MOD_NONE {
            AppAction::SelectPrevSegment
        } else {
            AppAction::NoAction
        },
        KeyCode::Down => if m == MOD_NONE {
            AppAction::SelectNextSegment
        } else {
            AppAction::NoAction
        },
        KeyCode::Esc => if m == MOD_NONE {
            AppAction::Cancel
        } else {
            AppAction::NoAction
        },
        KeyCode::Tab => if m == MOD_NONE {
            AppAction::SwitchPlayer
        } else {
            AppAction::NoAction
        },
        _ => AppAction::NoAction,
    }
}

/// The action bound to a key.
pub fn handle_key_event(key: KeyEvent) -> (a: AppAction)
    ensures
        a == key_action(key.code, key.modifiers),
{
    let m = key.modifiers;
    match key.code {
        KeyCode::Char(c) => {
            if c == 'q' && m == MOD_NONE {
                AppAction::Quit
            } else if c == 'h' && m == MOD_NONE {
                AppAction::SeekBackward(1_000_000_000)
            } else if c == 'l' && m == MOD_NONE {
                AppAction::SeekForward(1_000_000_000)
            } else if c == ' ' && m == MOD_NONE {
                AppAction::TogglePlay
            } else if c == 'a' && m == MOD_NONE {
                AppAction::SetInPoint
            } else if c == 'd' && m == MOD_NONE {
                AppAction::SetOutPoint
            } else if (c == 'x' || c == 's') && m == MOD_NONE {
                AppAction::DeleteSegment
            } else if c == 'k' && m == MOD_NONE {
                AppAction::SelectPrevSegment
            } else if c == 'j' && m == MOD_NONE {
                AppAction::SelectNextSegment
            } else if c == 'H' || (c == 'h' && m == MOD_SHIFT) {
                AppAction::SeekToSegmentStart
            } else if c == 'L' || (c == 'l' && m == MOD_SHIFT) {
                AppAction::SeekToSegmentEnd
            } else if c == 'e' && m == MOD_NONE {
                AppAction::Export
            } else if c == 'E' || (c == 'e' && m == MOD_SHIFT) {
                AppAction::ExportMerged
            } else if c == 'e' && m == MOD_CONTROL {
                AppAction::ExportSelected
            } else if c == 'K' || (c == 'k' && m == MOD_SHIFT) {
                AppAction::SnapToKeyframe
            } else if c == '+' || c == '=' {
                AppAction::ZoomIn
            } else if c == '-' && m == MOD_NONE {
                AppAction::ZoomOut
            } else if c == 'h' && m == MOD_ALT {
                AppAction::PanLeft
            } else if c == 'l' && m == MOD_ALT {
                AppAction::PanRight
            } else if c == 'u' && m == MOD_NONE {
                AppAction::Undo
            } else if c == 'r' && m == MOD_CONTROL {
                AppAction::Redo
            } else if c == 'r' && m == MOD_NONE {
                AppAction::EditLabel
            } else if c == '?' || (c == '/' && m == MOD_SHIFT) {
                AppAction::ToggleHelp
            } else if (c == 'y' || c == 'Y') && m == MOD_NONE {
                AppAction::RestoreSession
            } else if (c == 'n' || c == 'N') && m == MOD_NONE {
                AppAction::DiscardSession
            } else {
                AppAction::NoAction
            }
        },
        KeyCode::Left => if m == MOD_NONE {
            AppAction::SeekBackward(1_000_000_000)
        } else if m == MOD_SHIFT {
            AppAction::SeekBackward(5_000_000_000)
        } else if m == MOD_ALT {
            AppAction::SeekBackward(10_000_000_000)
        } else {
            AppAction::NoAction
        },
        KeyCode::Right => if m == MOD_NONE {
            AppAction::SeekForward(1_000_000_000)
        } else if m == MOD_SHIFT {
            AppAction::SeekForward(5_000_000_000)
        } else if m == MOD_ALT {
            AppAction::SeekForward(10_000_000_000)
        } else {
            AppAction::NoAction
        },
        KeyCode::Home => if m == MOD_NONE {
            AppAction::SeekToStart
        } else {
            AppAction::NoAction
        },
        KeyCode::End => if m == MOD_NONE {
            AppAction::SeekToEnd
        } else {
            AppAction::NoAction
        },
        KeyCode::Enter => if m == MOD_NONE {
            AppAction::ConfirmSegment
        } else {
            AppAction::NoAction
        },
        KeyCode::Delete => if m == MOD_NONE {
            AppAction::DeleteSegment
        } else {
            AppAction::NoAction
        },
        KeyCode::Up => if m == MOD_NONE {
            AppAction::SelectPrevSegment
        } else {
            AppAction::NoAction
        },
        KeyCode::Down => if m == MOD_NONE {
            AppAction::SelectNextSegment
        } else {
            AppAction::NoAction
        },
        KeyCode::Esc => if m == MOD_NONE {
            AppAction::Cancel
        } else {
            AppAction::NoAction
        },
        KeyCode::Tab => if m == MOD_NONE {
            AppAction::SwitchPlayer
        } else {
            AppAction::NoAction
        },
        _ => AppAction::NoAction,
    }
}

/// The action a key asks for while a label is typed: characters (alone or
/// shifted) are typed, Backspace erases, Enter confirms and Esc cancels.
pub open spec fn label_key_action(code: KeyCode, m: u8) -> AppAction {
    match code {
        KeyCode::Char(c) => if m == MOD_NONE || m == MOD_SHIFT {
            AppAction::Char(c)
        } else {
            AppAction::NoAction
        },
        KeyCode::Backspace => AppAction::Backspace,
        KeyCode::Enter => AppAction::ConfirmSegment,
        KeyCode::Esc => AppAction::Cancel,
        _ => AppAction::NoAction,
    }
}

/// The action bound to a key while a segment label is edited.
pub fn handle_label_key_event(key: KeyEvent) -> (a: AppAction)
    ensures
        a == label_key_action(key.code, key.modifiers),
{
    let m = key.modifiers;
    match key.code {
        KeyCode::Char(c) => if m == MOD_NONE || m == MOD_SHIFT {
            AppAction::Char(c)
        } else {
            AppAction::NoAction
        },
        KeyCode::Backspace => AppAction::Backspace,
        KeyCode::Enter => AppAction::ConfirmSegment,
        KeyCode::Esc => AppAction::Cancel,
        _ => AppAction::NoAction,
    }
}

/// The action a mouse event asks for: presses, drags, releases and vertical
/// scrolling at a cell.
pub open spec fn mouse_action(e: MouseEvent) -> AppAction {
    match e.kind {
        MouseEventKind::Down(b) => AppAction::MousePress { button: b, row: e.row, col: e.column },
        MouseEventKind::Drag(_) => AppAction::MouseDrag { row: e.row, col: e.column },
        MouseEventKind::Up(_) => AppAction::MouseRelease { row: e.row, col: e.column },
        MouseEventKind::ScrollUp => AppAction::MouseScroll { up: true, row: e.row, col: e.column },
        MouseEventKind::ScrollDown => AppAction::MouseScroll {
            up: false,
            row: e.row,
            col: e.column,
        },
        _ => AppAction::NoAction,
    }
}

pub fn handle_mouse_event(mouse: MouseEvent) -> (a: AppAction)
    ensures
        a == mouse_action(mouse),
{
    match mouse.kind {
        MouseEventKind::Down(button) => AppAction::MousePress {
            button,
            row: mouse.row,
            col: mouse.column,
        },
        MouseEventKind::Drag(_) => AppAction::MouseDrag { row: mouse.row, col: mouse.column },
        MouseEventKind::Up(_) => AppAction::MouseRelease { row: mouse.row, col: mouse.column },
        MouseEventKind::ScrollUp => AppAction::MouseScroll {
            up: true,
            row: mouse.row,
            col: mouse.column,
        },
        MouseEventKind::ScrollDown => AppAction::MouseScroll {
            up: false,
            row: mouse.row,
            col: mouse.column,
        },
        _ => AppAction::NoAction,
    }
}

/// The action for a terminal event: key bindings for keys, mouse actions for
/// the mouse, nothing for the rest.
pub fn handle_event(event: Event) -> (a: AppAction)
    ensures
        event matches Event::Key(k) ==> a == key_action(k.code, k.modifiers),
        event matches Event::Mouse(m) ==> a == mouse_action(m),
        event is Other ==> a == AppAction::NoAction,
{
    match event {
        Event::Key(key) => handle_key_event(key),
        Event::Mouse(mouse) => handle_mouse_event(mouse),
        Event::Other => AppAction::NoAction,
    }
}

} // verus!
