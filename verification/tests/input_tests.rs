use safclip_controller::input::{
    handle_event, handle_label_key_event, handle_key_event, handle_mouse_event, AppAction, Event, KeyCode, KeyEvent,
    MouseButton, MouseEvent, MouseEventKind, MOD_ALT, MOD_CONTROL, MOD_NONE, MOD_SHIFT,
};

fn key(c: char, modifiers: u8) -> AppAction {
    handle_key_event(KeyEvent { code: KeyCode::Char(c), modifiers })
}

fn code(code: KeyCode, modifiers: u8) -> AppAction {
    handle_key_event(KeyEvent { code, modifiers })
}

#[test]
fn letter_keys_map_to_actions() {
    assert_eq!(key('q', MOD_NONE), AppAction::Quit);
    assert_eq!(key('h', MOD_NONE), AppAction::SeekBackward(1_000_000_000));
    assert_eq!(key('l', MOD_NONE), AppAction::SeekForward(1_000_000_000));
    assert_eq!(key(' ', MOD_NONE), AppAction::TogglePlay);
    assert_eq!(key('a', MOD_NONE), AppAction::SetInPoint);
    assert_eq!(key('d', MOD_NONE), AppAction::SetOutPoint);
    assert_eq!(key('x', MOD_NONE), AppAction::DeleteSegment);
    assert_eq!(key('s', MOD_NONE), AppAction::DeleteSegment);
    assert_eq!(key('k', MOD_NONE), AppAction::SelectPrevSegment);
    assert_eq!(key('j', MOD_NONE), AppAction::SelectNextSegment);
    assert_eq!(key('e', MOD_NONE), AppAction::Export);
    assert_eq!(key('u', MOD_NONE), AppAction::Undo);
    assert_eq!(key('y', MOD_NONE), AppAction::RestoreSession);
    assert_eq!(key('N', MOD_NONE), AppAction::DiscardSession);
    assert_eq!(key('z', MOD_NONE), AppAction::NoAction);
}

#[test]
fn shifted_and_modified_keys() {
    assert_eq!(key('H', MOD_SHIFT), AppAction::SeekToSegmentStart);
    assert_eq!(key('h', MOD_SHIFT), AppAction::SeekToSegmentStart);
    assert_eq!(key('L', MOD_NONE), AppAction::SeekToSegmentEnd);
    assert_eq!(key('E', MOD_SHIFT), AppAction::ExportMerged);
    assert_eq!(key('e', MOD_CONTROL), AppAction::ExportSelected);
    assert_eq!(key('K', MOD_SHIFT), AppAction::SnapToKeyframe);
    assert_eq!(key('+', MOD_SHIFT), AppAction::ZoomIn);
    assert_eq!(key('=', MOD_NONE), AppAction::ZoomIn);
    assert_eq!(key('-', MOD_NONE), AppAction::ZoomOut);
    assert_eq!(key('h', MOD_ALT), AppAction::PanLeft);
    assert_eq!(key('l', MOD_ALT), AppAction::PanRight);
    assert_eq!(key('r', MOD_CONTROL), AppAction::Redo);
    assert_eq!(key('r', MOD_NONE), AppAction::EditLabel);
    assert_eq!(key('?', MOD_SHIFT), AppAction::ToggleHelp);
    assert_eq!(key('/', MOD_SHIFT), AppAction::ToggleHelp);
    assert_eq!(key('q', MOD_CONTROL), AppAction::NoAction);
}

#[test]
fn special_keys() {
    assert_eq!(code(KeyCode::Left, MOD_NONE), AppAction::SeekBackward(1_000_000_000));
    assert_eq!(code(KeyCode::Left, MOD_SHIFT), AppAction::SeekBackward(5_000_000_000));
    assert_eq!(code(KeyCode::Left, MOD_ALT), AppAction::SeekBackward(10_000_000_000));
    assert_eq!(code(KeyCode::Right, MOD_NONE), AppAction::SeekForward(1_000_000_000));
    assert_eq!(code(KeyCode::Right, MOD_SHIFT), AppAction::SeekForward(5_000_000_000));
    assert_eq!(code(KeyCode::Right, MOD_ALT), AppAction::SeekForward(10_000_000_000));
    assert_eq!(code(KeyCode::Home, MOD_NONE), AppAction::SeekToStart);
    assert_eq!(code(KeyCode::End, MOD_NONE), AppAction::SeekToEnd);
    assert_eq!(code(KeyCode::Enter, MOD_NONE), AppAction::ConfirmSegment);
    assert_eq!(code(KeyCode::Delete, MOD_NONE), AppAction::DeleteSegment);
    assert_eq!(code(KeyCode::Up, MOD_NONE), AppAction::SelectPrevSegment);
    assert_eq!(code(KeyCode::Down, MOD_NONE), AppAction::SelectNextSegment);
    assert_eq!(code(KeyCode::Esc, MOD_NONE), AppAction::Cancel);
    assert_eq!(code(KeyCode::Tab, MOD_NONE), AppAction::SwitchPlayer);
    assert_eq!(code(KeyCode::Backspace, MOD_NONE), AppAction::NoAction);
    assert_eq!(code(KeyCode::Other, MOD_NONE), AppAction::NoAction);
    assert_eq!(code(KeyCode::Left, MOD_CONTROL), AppAction::NoAction);
}

#[test]
fn mouse_events_map_to_actions() {
    let press = MouseEvent { kind: MouseEventKind::Down(MouseButton::Left), column: 7, row: 3 };
    assert_eq!(
        handle_mouse_event(press),
        AppAction::MousePress { button: MouseButton::Left, row: 3, col: 7 }
    );
    let drag = MouseEvent { kind: MouseEventKind::Drag(MouseButton::Left), column: 9, row: 3 };
    assert_eq!(handle_mouse_event(drag), AppAction::MouseDrag { row: 3, col: 9 });
    let release = MouseEvent { kind: MouseEventKind::Up(MouseButton::Left), column: 9, row: 4 };
    assert_eq!(handle_mouse_event(release), AppAction::MouseRelease { row: 4, col: 9 });
    let up = MouseEvent { kind: MouseEventKind::ScrollUp, column: 1, row: 2 };
    assert_eq!(handle_mouse_event(up), AppAction::MouseScroll { up: true, row: 2, col: 1 });
    let down = MouseEvent { kind: MouseEventKind::ScrollDown, column: 1, row: 2 };
    assert_eq!(handle_mouse_event(down), AppAction::MouseScroll { up: false, row: 2, col: 1 });
    let moved = MouseEvent { kind: MouseEventKind::Moved, column: 1, row: 2 };
    assert_eq!(handle_mouse_event(moved), AppAction::NoAction);
}

#[test]
fn events_dispatch() {
    assert_eq!(
        handle_event(Event::Key(KeyEvent { code: KeyCode::Char('q'), modifiers: MOD_NONE })),
        AppAction::Quit
    );
    assert_eq!(handle_event(Event::Other), AppAction::NoAction);
}

#[test]
fn label_editing_keys() {
    let k = |code, modifiers| handle_label_key_event(KeyEvent { code, modifiers });
    assert_eq!(k(KeyCode::Char('q'), MOD_NONE), AppAction::Char('q'));
    assert_eq!(k(KeyCode::Char('Q'), MOD_SHIFT), AppAction::Char('Q'));
    assert_eq!(k(KeyCode::Char('q'), MOD_CONTROL), AppAction::NoAction);
    assert_eq!(k(KeyCode::Backspace, MOD_NONE), AppAction::Backspace);
    assert_eq!(k(KeyCode::Enter, MOD_NONE), AppAction::ConfirmSegment);
    assert_eq!(k(KeyCode::Esc, MOD_NONE), AppAction::Cancel);
    assert_eq!(k(KeyCode::Left, MOD_NONE), AppAction::NoAction);
}
