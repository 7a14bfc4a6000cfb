use holo::app::Action;
use holo::command_palette::{CommandPaletteState, PALETTE_SIZE};
use holo::keys::KeyCode;

#[test]
fn new_state_is_closed() {
    let state = CommandPaletteState::new();
    assert!(!state.open);
    assert!(state.filter.is_empty());
    assert_eq!(state.cursor, 0);
}

#[test]
fn open_resets_state() {
    let mut state = CommandPaletteState::new();
    state.filter = "test".to_string();
    state.cursor = 3;
    state.open();
    assert!(state.open);
    assert!(state.filter.is_empty());
    assert_eq!(state.cursor, 0);
}

#[test]
fn esc_closes() {
    let mut state = CommandPaletteState::new();
    state.open();
    let result = state.handle_key(KeyCode::Esc);
    assert!(!state.open);
    assert!(result.is_none());
}

#[test]
fn command_palette_typing_builds_filter() {
    let mut state = CommandPaletteState::new();
    state.open();
    state.handle_key(KeyCode::Char('k'));
    state.handle_key(KeyCode::Char('i'));
    assert_eq!(state.filter, "ki");
    assert_eq!(state.cursor, 0);
}

#[test]
fn command_palette_backspace_removes_char() {
    let mut state = CommandPaletteState::new();
    state.open();
    state.filter = "kill".to_string();
    state.handle_key(KeyCode::Backspace);
    assert_eq!(state.filter, "kil");
}

#[test]
fn filter_narrows_results() {
    let mut state = CommandPaletteState::new();
    state.filter = "kill".to_string();
    let filtered = state.filtered_commands();
    assert_eq!(filtered.len(), 1);
    assert_eq!(filtered[0].0, "kill app");
}

#[test]
fn empty_filter_shows_all() {
    let state = CommandPaletteState::new();
    let filtered = state.filtered_commands();
    assert_eq!(filtered.len(), PALETTE_SIZE);
}

#[test]
fn command_palette_cursor_moves_within_bounds() {
    let mut state = CommandPaletteState::new();
    state.open();
    state.handle_key(KeyCode::Down);
    assert_eq!(state.cursor, 1);
    state.handle_key(KeyCode::Up);
    assert_eq!(state.cursor, 0);
    state.handle_key(KeyCode::Up);
    assert_eq!(state.cursor, 0);
}

#[test]
fn enter_returns_selected_action() {
    let mut state = CommandPaletteState::new();
    state.open();
    state.filter = "quit".to_string();
    let result = state.handle_key(KeyCode::Enter);
    assert!(matches!(result, Some(Action::Quit)));
    assert!(!state.open);
}

#[test]
fn enter_on_empty_returns_none() {
    let mut state = CommandPaletteState::new();
    state.open();
    state.filter = "xyznonexistent".to_string();
    let result = state.handle_key(KeyCode::Enter);
    assert!(result.is_none());
}
