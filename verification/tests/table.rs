use cdir::list_indicator_view::ListIndicatorState;
use cdir::search_text_view::SearchInput;
use cdir::tableview::{TableCommand, TableCursor, TableViewState};
use cdir::tui::keys::{Key, KeyPress};
use cdir::tui::layout::Rect;
use cdir::tui::view::{EventCaptured, ManagerAction};

fn key(code: Key) -> KeyPress {
    KeyPress { code, shift: false, control: false, other_modifiers: false }
}

fn ctrl(c: char) -> KeyPress {
    KeyPress { code: Key::Char(c), shift: false, control: true, other_modifiers: false }
}

fn numbers(total: usize) -> impl Fn(usize, usize, &str, bool) -> Option<Vec<String>> {
    move |pos: usize, len: usize, text: &str, _fuzzy: bool| {
        let all: Vec<String> =
            (0..total).map(|i| format!("/dir{}", i)).filter(|p| p.contains(text)).collect();
        let end = std::cmp::min(pos + len, all.len());
        let start = std::cmp::min(pos, end);
        Some(all[start..end].to_vec())
    }
}

#[test]
fn table_view_state_starts_with_shortcuts_shown() {
    let s = TableViewState::new();
    assert!(s.display_with_shortcuts);
    assert_eq!(s.input.search_string, "");
    assert_eq!(s.input.search_string_cursor_index, 0);
    assert!(!s.input.fuzzy_match);
}

#[test]
fn table_moves_down_and_scrolls() {
    let mut t = TableCursor::new(numbers(30), false);
    t.init();
    t.refresh_for_draw(6);
    assert_eq!(t.table_rows_count, 5);
    assert_eq!(t.data_model.entries.as_ref().unwrap().len(), 5);
    assert_eq!(t.selected, Some(0));
    let mut state = TableViewState::new();
    for _ in 0..4 {
        t.handle_key_event(&mut state, key(Key::Down));
    }
    assert_eq!(t.selected, Some(4));
    assert_eq!(t.data_model.first, 0);
    // On the last row the window moves down by one.
    t.handle_key_event(&mut state, key(Key::Down));
    assert_eq!(t.data_model.first, 1);
    assert_eq!(t.selected, Some(4));
    // A page moves the window by a page.
    t.handle_key_event(&mut state, key(Key::PageDown));
    assert_eq!(t.data_model.first, 6);
    assert_eq!(t.selected, Some(4));
    t.handle_key_event(&mut state, key(Key::Home));
    assert_eq!(t.data_model.first, 0);
    assert_eq!(t.selected, Some(0));
    // Up on the first row at the top stays there.
    t.handle_key_event(&mut state, key(Key::Up));
    assert_eq!(t.selected, Some(0));
    assert_eq!(t.data_model.first, 0);
}

#[test]
fn table_jumps_with_shift() {
    let mut t = TableCursor::new(numbers(30), false);
    t.init();
    t.refresh_for_draw(21);
    let mut state = TableViewState::new();
    let mut down = key(Key::Down);
    down.shift = true;
    t.handle_key_event(&mut state, down);
    assert_eq!(t.selected, Some(10));
    let mut up = key(Key::Up);
    up.shift = true;
    t.handle_key_event(&mut state, up);
    assert_eq!(t.selected, Some(0));
}

#[test]
fn table_selection_stays_in_short_lists() {
    let mut t = TableCursor::new(numbers(3), false);
    t.init();
    t.refresh_for_draw(11);
    let mut state = TableViewState::new();
    t.handle_key_event(&mut state, key(Key::PageDown));
    assert_eq!(t.selected, Some(2));
}

#[test]
fn table_search_edits_read_again() {
    let mut t = TableCursor::new(numbers(30), false);
    t.init();
    t.refresh_for_draw(6);
    let mut state = TableViewState::new();
    let (cmd, captured, action) = t.handle_key_event(&mut state, key(Key::Char('2')));
    assert_eq!(cmd, TableCommand::Nothing);
    assert_eq!(captured, EventCaptured::Yes);
    assert_eq!(action, ManagerAction::new(true));
    assert_eq!(state.input.search_string, "2");
    assert_eq!(t.data_model.entries.as_ref().unwrap()[0], "/dir2");
    t.handle_key_event(&mut state, key(Key::Char('9')));
    assert_eq!(t.data_model.entries.as_ref().unwrap(), &vec!["/dir29".to_string()]);
    t.handle_key_event(&mut state, key(Key::Left));
    t.handle_key_event(&mut state, key(Key::Backspace));
    assert_eq!(state.input.search_string, "9");
    assert_eq!(state.input.search_string_cursor_index, 0);
    t.handle_key_event(&mut state, key(Key::Delete));
    assert_eq!(state.input.search_string, "");
    assert_eq!(t.data_model.entries.as_ref().unwrap().len(), 5);
}

#[test]
fn table_control_keys() {
    let mut t = TableCursor::new(numbers(30), false);
    t.init();
    t.refresh_for_draw(6);
    let mut state = TableViewState::new();
    t.handle_key_event(&mut state, ctrl('a'));
    assert!(!state.display_with_shortcuts);
    t.handle_key_event(&mut state, ctrl('f'));
    assert!(state.input.fuzzy_match);
    assert!(t.data_model.fuzzy_match);
    assert_eq!(t.handle_key_event(&mut state, ctrl('d')).0, TableCommand::Delete(0));
    assert_eq!(t.handle_key_event(&mut state, ctrl('e')).0, TableCommand::Edit(0));
    assert_eq!(t.handle_key_event(&mut state, key(Key::Enter)).0, TableCommand::Exit(Some(0)));
    assert_eq!(state.input.search_string, "");
}

#[test]
fn table_exit_without_entries() {
    let mut t = TableCursor::new(numbers(0), false);
    t.init();
    t.refresh_for_draw(6);
    let mut state = TableViewState::new();
    assert!(t.data_model.entries.is_none());
    assert_eq!(t.handle_key_event(&mut state, key(Key::Enter)).0, TableCommand::Exit(None));
    assert_eq!(t.handle_key_event(&mut state, ctrl('d')).0, TableCommand::Nothing);
}

#[test]
fn search_field_keys() {
    let mut input = SearchInput::new();
    let (publish, captured, action) = input.handle_key_event(key(Key::Char('a')));
    assert!(publish);
    assert_eq!(captured, EventCaptured::No);
    assert_eq!(action, ManagerAction::new(false));
    input.handle_key_event(key(Key::Char('c')));
    input.handle_key_event(key(Key::Left));
    input.handle_key_event(key(Key::Char('b')));
    assert_eq!(input.search_string, "abc");
    assert_eq!(input.search_string_cursor_index, 2);
    assert!(input.handle_key_event(key(Key::Backspace)).0);
    assert_eq!(input.search_string, "ac");
    assert!(!input.handle_key_event(key(Key::Right)).0);
    assert!(!input.handle_key_event(key(Key::Delete)).0);
    assert!(input.handle_key_event(ctrl('f')).0);
    assert!(input.fuzzy_match);
    assert!(!input.handle_key_event(ctrl('x')).0);
    let d = input.description();
    assert_eq!(d.search_string, "ac");
    assert!(d.fuzzy_match);
}

#[test]
fn typing_then_backspace_restores() {
    let mut input = SearchInput::new();
    input.insert_char('x');
    input.insert_char('y');
    input.move_left();
    let before = (input.search_string.clone(), input.search_string_cursor_index);
    input.insert_char('z');
    input.backspace();
    assert_eq!((input.search_string.clone(), input.search_string_cursor_index), before);
}

#[test]
fn search_field_mouse() {
    let mut input = SearchInput::new();
    let area = Rect::new(0, 23, 60, 1);
    let (publish, action) = input.handle_mouse_event(area, true, 3, 23);
    assert!(publish && action.redraw);
    assert!(input.fuzzy_match);
    let (publish, _) = input.handle_mouse_event(area, true, 3, 10);
    assert!(!publish);
    let (publish, _) = input.handle_mouse_event(area, false, 3, 23);
    assert!(!publish);
    assert!(input.fuzzy_match);
}

#[test]
fn list_indicator_follows_its_kind() {
    let mut s = ListIndicatorState::new("path".to_string());
    assert!(!s.is_empty);
    s.apply_data_state("shortcut", true);
    assert!(!s.is_empty);
    s.apply_data_state("path", true);
    assert!(s.is_empty);
}

#[test]
fn search_edges_leave_the_text_unchanged() {
    let mut t = TableCursor::new(numbers(30), false);
    t.init();
    t.refresh_for_draw(6);
    let mut state = TableViewState::new();
    for c in "dir1".chars() {
        let r = t.handle_key_event(&mut state, key(Key::Char(c)));
        assert_eq!(r.1, EventCaptured::Yes);
        assert!(r.2.redraw);
    }
    assert_eq!(state.input.search_string, "dir1");
    assert_eq!(state.input.search_string_cursor_index, 4);
    for code in [Key::Delete, Key::Right] {
        let r = t.handle_key_event(&mut state, key(code));
        assert_eq!(r.1, EventCaptured::Yes);
        assert!(r.2.redraw);
        assert_eq!(state.input.search_string, "dir1");
        assert_eq!(state.input.search_string_cursor_index, 4);
    }
    for _ in 0..4 {
        t.handle_key_event(&mut state, key(Key::Left));
    }
    for code in [Key::Backspace, Key::Left] {
        let r = t.handle_key_event(&mut state, key(code));
        assert_eq!(r.1, EventCaptured::Yes);
        assert!(r.2.redraw);
        assert_eq!(state.input.search_string, "dir1");
        assert_eq!(state.input.search_string_cursor_index, 0);
    }
}
