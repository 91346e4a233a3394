//! The state that the tables share: whether paths are shown through their
//! shortcuts, and the search field.
use vstd::prelude::*;
use vstd::utf8::{is_ascii_chars, is_char_boundary};
use crate::model::{moved, pages, DataViewModel, ModelView};
use crate::search_text_view::{law_ascii_text_takes_every_key, removed_at, SearchInput, SearchModel};
use crate::text::utf8;
use crate::tui::keys::{Key, KeyPress};
use crate::tui::view::{EventCaptured, ManagerAction};
use vstd::string::View;

verus! {

/// The state shared by the history and shortcut tables.
#[derive(Debug)]
pub struct TableViewState {
    pub display_with_shortcuts: bool,
    pub input: SearchInput,
}

impl TableViewState {
    /// Paths shown through shortcuts, an empty search in exact mode.
    pub fn new() -> (r: Self)
        ensures
            r.display_with_shortcuts,
            r.input@ == (SearchModel { text: Seq::empty(), cursor: 0, fuzzy: false }),
    {
        TableViewState { display_with_shortcuts: true, input: SearchInput::new() }
    }

    /// Ctrl+a: switches between paths shown through shortcuts and full paths.
    pub fn toggle_display_with_shortcuts(&mut self)
        ensures
            final(self).display_with_shortcuts == !old(self).display_with_shortcuts,
            final(self).input == old(self).input,
    {
        self.display_with_shortcuts = !self.display_with_shortcuts;
    }
}


/// How far the selection moves with shift held.
pub const JUMP_OFFSET: usize = 10;

/// How far a move goes: a page of rows, a jump, or one row.
pub open spec fn step_offset(jump: bool, page: bool, rows: u16) -> nat {
    if page {
        rows as nat
    } else if jump {
        JUMP_OFFSET as nat
    } else {
        1
    }
}

/// What the table asks of its owner after a key.
#[derive(Debug, Clone, Copy, PartialEq, Eq, Structural)]
pub enum TableCommand {
    Nothing,
    /// Leave with the entry at this place of the window, if one is selected.
    Exit(Option<usize>),
    /// Ask whether to delete the entry at this place of the window.
    Delete(usize),
    /// Open the editor on the entry at this place of the window.
    Edit(usize),
}

/// The table's window over the entries, its selected row and how many rows
/// it shows.
pub struct TableCursor<T, F> {
    pub data_model: DataViewModel<T, F>,
    pub selected: Option<usize>,
    pub table_rows_count: u16,
}

/// The selected row after moving down by `offset` in a window of `length`
/// entries: at most the last one.
pub open spec fn row_below(current: nat, offset: nat, length: nat) -> nat {
    if current + offset >= length {
        (length - 1) as nat
    } else {
        current + offset
    }
}

/// The selected row after moving up by `offset`: at least the first one.
pub open spec fn row_above(current: nat, offset: nat) -> nat {
    if current >= offset {
        (current - offset) as nat
    } else {
        0
    }
}

impl<T: Clone, F: Fn(usize, usize, &str, bool) -> Option<Vec<T>>> TableCursor<T, F> {
    /// The window is well formed and an entry is selected whenever one is
    /// held.
    pub open spec fn well_formed(&self) -> bool {
        self.data_model.well_formed()
    }

    /// A table over `list_fn`, with nothing read and no row selected.
    pub fn new(list_fn: F, fuzzy_match: bool) -> (r: Self)
        requires
            pages(list_fn),
        ensures
            r.well_formed(),
            r.selected is None,
            r.table_rows_count == 0,
            r.data_model@.entries is None,
            r.data_model@.search == Seq::<char>::empty(),
            r.data_model@.fuzzy == fuzzy_match,
    {
        TableCursor {
            data_model: DataViewModel::new(list_fn, fuzzy_match),
            selected: None,
            table_rows_count: 0,
        }
    }

    /// Selects the first row.
    pub fn init(&mut self)
        ensures
            final(self).selected == Some(0usize),
            final(self).data_model == old(self).data_model,
            final(self).table_rows_count == old(self).table_rows_count,
    {
        self.selected = Some(0);
    }

    /// The table now shows `main_height - 1` rows under its header: the
    /// window is read again from its first entry for that many rows, and the
    /// first row is selected when none is and there are entries.
    pub fn refresh_for_draw(&mut self, main_height: u16)
        requires
            old(self).well_formed(),
            main_height >= 1,
        ensures
            final(self).well_formed(),
            final(self).table_rows_count == main_height - 1,
            exists|changed: bool|
                #[trigger] old(self).data_model.refreshed(
                    final(self).data_model@,
                    changed,
                    old(self).data_model@.first,
                    (main_height - 1) as nat,
                    true,
                ),
            final(self).selected == if old(self).selected is None && final(self).data_model@.length
                > 0 {
                Some(0usize)
            } else {
                old(self).selected
            },
    {
        self.table_rows_count = main_height - 1;
        let first = self.data_model.first;
        let changed = self.data_model.update(first, self.table_rows_count, true);
        assert(old(self).data_model.refreshed(
            self.data_model@,
            changed,
            old(self).data_model@.first,
            (main_height - 1) as nat,
            true,
        ));
        if self.selected.is_none() && self.data_model.length > 0 {
            self.selected = Some(0);
        }
    }

    /// Moves the selection down by one row, a jump, or a page; the window
    /// moves down with it when the selection is on the last row, or always
    /// for a page.
    pub fn handle_down(&mut self, jump: bool, page: bool)
        requires
            old(self).well_formed(),
            old(self).can_move_down(jump, page),
        ensures
            final(self).well_formed(),
            final(self).moved_down(old(self), jump, page),
    {
        if self.data_model.entries.is_none() {
            return;
        }
        if let Some(current_row) = self.selected {
            let offset: usize = if page {
                self.table_rows_count as usize
            } else if jump {
                JUMP_OFFSET
            } else {
                1
            };
            if current_row == (self.table_rows_count - 1) as usize || page {
                let changed = self.data_model.update_to_offset(offset as i64, self.table_rows_count);
                assert(old(self).data_model.refreshed(
                    self.data_model@,
                    changed,
                    moved(old(self).data_model@.first as int, offset as int),
                    old(self).table_rows_count as nat,
                    false,
                ));
            }
            let length = self.data_model.length as usize;
            let next = if current_row >= length || offset >= length - current_row {
                length - 1
            } else {
                current_row + offset
            };
            self.selected = Some(next);
        }
    }

    /// A move down needs rows to show, an entry held, and room for the new
    /// first place.
    pub open spec fn can_move_down(&self, jump: bool, page: bool) -> bool {
        let m = self.data_model@;
        let off = step_offset(jump, page, self.table_rows_count);
        (m.entries is Some && self.selected is Some) ==> {
            &&& self.table_rows_count >= 1
            &&& m.length >= 1
            &&& (self.selected->0 == self.table_rows_count - 1 || page) ==> {
                &&& m.first + off <= i64::MAX
                &&& m.first + off <= usize::MAX
            }
        }
    }

    /// `self` is `old` after a move down.
    pub open spec fn moved_down(&self, old: &Self, jump: bool, page: bool) -> bool {
        let m = old.data_model@;
        let off = step_offset(jump, page, old.table_rows_count);
        &&& self.table_rows_count == old.table_rows_count
        &&& if m.entries is None || old.selected is None {
            self.data_model@ == m && self.selected == old.selected
        } else {
            let current = old.selected->0;
            &&& if current == old.table_rows_count - 1 || page {
                exists|changed: bool|
                    #[trigger] old.data_model.refreshed(
                        self.data_model@,
                        changed,
                        moved(m.first as int, off as int),
                        old.table_rows_count as nat,
                        false,
                    )
            } else {
                self.data_model@ == m
            }
            &&& self.data_model@.length >= 1
            &&& self.selected == Some(
                row_below(current as nat, off, self.data_model@.length) as usize,
            )
        }
    }

    /// Moves the selection up by one row, a jump, or a page; the window moves
    /// up with it when the selection is on the first row, or always for a
    /// page.
    pub fn handle_up(&mut self, jump: bool, page: bool)
        requires
            old(self).well_formed(),
            old(self).data_model@.first <= i64::MAX,
        ensures
            final(self).well_formed(),
            final(self).moved_up(old(self), jump, page),
    {
        if self.data_model.entries.is_none() {
            return;
        }
        if let Some(current_row) = self.selected {
            let offset: usize = if page {
                self.table_rows_count as usize
            } else if jump {
                JUMP_OFFSET
            } else {
                1
            };
            if current_row == 0 || page {
                let changed = self.data_model.update_to_offset(-(offset as i64), self.table_rows_count);
                assert(old(self).data_model.refreshed(
                    self.data_model@,
                    changed,
                    moved(
                        old(self).data_model@.first as int,
                        -step_offset(jump, page, old(self).table_rows_count),
                    ),
                    old(self).table_rows_count as nat,
                    false,
                ));
            }
            let next = if current_row >= offset {
                current_row - offset
            } else {
                0
            };
            self.selected = Some(next);
        }
    }

    /// `self` is `old` after a move up.
    pub open spec fn moved_up(&self, old: &Self, jump: bool, page: bool) -> bool {
        let m = old.data_model@;
        let off = step_offset(jump, page, old.table_rows_count);
        &&& self.table_rows_count == old.table_rows_count
        &&& if m.entries is None || old.selected is None {
            self.data_model@ == m && self.selected == old.selected
        } else {
            let current = old.selected->0;
            &&& if current == 0 || page {
                exists|changed: bool|
                    #[trigger] old.data_model.refreshed(
                        self.data_model@,
                        changed,
                        moved(m.first as int, -off),
                        old.table_rows_count as nat,
                        false,
                    )
            } else {
                self.data_model@ == m
            }
            &&& self.selected == Some(row_above(current as nat, off) as usize)
        }
    }

    /// Home: the window is read again from the first entry and the first row
    /// is selected.
    pub fn handle_home(&mut self)
        requires
            old(self).well_formed(),
        ensures
            final(self).well_formed(),
            final(self).table_rows_count == old(self).table_rows_count,
            final(self).selected == Some(0usize),
            exists|changed: bool|
                #[trigger] old(self).data_model.refreshed(
                    final(self).data_model@,
                    changed,
                    0,
                    old(self).table_rows_count as nat,
                    true,
                ),
    {
        let changed = self.data_model.update(0, self.table_rows_count, true);
        assert(old(self).data_model.refreshed(
            self.data_model@,
            changed,
            0,
            old(self).table_rows_count as nat,
            true,
        ));
        self.selected = Some(0);
    }

    /// The search changed: it is handed to the window, which is read again
    /// from the first entry.
    fn research(&mut self, text: &str)
        requires
            old(self).well_formed(),
        ensures
            final(self).well_formed(),
            final(self).table_rows_count == old(self).table_rows_count,
            final(self).selected == old(self).selected,
            exists|changed: bool, before: DataViewModel<T, F>|
                before@ == (ModelView { search: text@, ..old(self).data_model@ }) && #[trigger] before.refreshed(
                    final(self).data_model@,
                    changed,
                    0,
                    old(self).table_rows_count as nat,
                    true,
                ),
    {
        self.data_model.set_filter(text);
        let ghost before = self.data_model;
        let changed = self.data_model.update(0, self.table_rows_count, true);
        assert(before.refreshed(self.data_model@, changed, 0, old(self).table_rows_count as nat, true));
    }

    /// The window read again from the first entry with the search `text`.
    pub open spec fn researched(&self, old: &Self, text: Seq<char>) -> bool {
        &&& self.table_rows_count == old.table_rows_count
        &&& self.selected == old.selected
        &&& exists|changed: bool, before: DataViewModel<T, F>|
            before@ == (ModelView { search: text, ..old.data_model@ })
                && #[trigger] before.refreshed(
                self.data_model@,
                changed,
                0,
                old.table_rows_count as nat,
                true,
            )
    }

    /// Whether a key can be handled: the search edits it makes fall on
    /// character boundaries, moves down are possible, the window's first
    /// place fits an `i64`, and a delete has a selected row.
    pub open spec fn can_handle(&self, state: &TableViewState, key: KeyPress) -> bool {
        let input = state.input@;
        &&& state.input.well_formed()
        &&& self.data_model@.first <= i64::MAX
        &&& match key.code {
            Key::Down => self.can_move_down(key.shift, false),
            Key::PageDown => self.can_move_down(key.shift, true),
            Key::Backspace => input.cursor != 0 ==> is_char_boundary(
                input.text,
                input.cursor - 1,
            ),
            Key::Delete => input.cursor < input.text.len() ==> is_char_boundary(
                input.text,
                input.cursor as int,
            ),
            Key::Char(c) => if key.control_only() {
                c == 'd' ==> (self.data_model@.entries is Some ==> self.selected is Some)
            } else {
                is_char_boundary(input.text, input.cursor as int)
            },
            _ => true,
        }
    }

    /// Handles a key on the table: enter leaves with the selected entry;
    /// home, the arrows and the page keys move the selection (shift jumps);
    /// backspace, delete, the left and right arrows and other characters edit
    /// the search, which is read again from the first entry; with control
    /// alone, `f` switches fuzzy matching, `a` the display through shortcuts,
    /// `d` asks to delete the selected entry and `e` to edit it. The key is
    /// always captured and the table redrawn.
    pub fn handle_key_event(&mut self, state: &mut TableViewState, key: KeyPress) -> (r: (
        TableCommand,
        EventCaptured,
        ManagerAction,
    ))
        requires
            old(self).well_formed(),
            old(self).can_handle(old(state), key),
        ensures
            final(self).well_formed(),
            final(state).input.well_formed(),
            r.1 == EventCaptured::Yes,
            r.2 == (ManagerAction { redraw: true, resize: false, close: false }),
            match key.code {
                Key::Enter => r.0 == TableCommand::Exit(
                    if old(self).data_model@.entries is Some {
                        old(self).selected
                    } else {
                        None
                    },
                ),
                Key::Char(c) => if key.control_only() && c == 'd' {
                    r.0 == if old(self).data_model@.entries is Some {
                        TableCommand::Delete(old(self).selected->0)
                    } else {
                        TableCommand::Nothing
                    }
                } else if key.control_only() && c == 'e' {
                    r.0 == if old(self).data_model@.entries is Some && old(self).selected is Some {
                        TableCommand::Edit(old(self).selected->0)
                    } else {
                        TableCommand::Nothing
                    }
                } else {
                    r.0 == TableCommand::Nothing
                },
                _ => r.0 == TableCommand::Nothing,
            },
            match key.code {
                Key::Home => final(self).selected == Some(0usize) && exists|changed: bool|
                    #[trigger] old(self).data_model.refreshed(
                        final(self).data_model@,
                        changed,
                        0,
                        old(self).table_rows_count as nat,
                        true,
                    ),
                Key::Down => final(self).moved_down(old(self), key.shift, false),
                Key::Up => final(self).moved_up(old(self), key.shift, false),
                Key::PageDown => final(self).moved_down(old(self), key.shift, true),
                Key::PageUp => final(self).moved_up(old(self), key.shift, true),
                Key::Backspace | Key::Delete => if final(state).input@.text == old(state).input@.text {
                    final(self).data_model@ == old(self).data_model@ && final(self).selected
                        == old(self).selected
                } else {
                    final(self).researched(old(self), final(state).input.search_string@)
                },
                Key::Char(c) => if key.control_only() {
                    &&& final(self).selected == old(self).selected
                    &&& final(self).data_model@ == if c == 'f' {
                        ModelView { fuzzy: final(state).input.fuzzy_match, ..old(self).data_model@ }
                    } else {
                        old(self).data_model@
                    }
                } else {
                    final(self).researched(old(self), final(state).input.search_string@)
                },
                _ => final(self).data_model@ == old(self).data_model@ && final(self).selected
                    == old(self).selected,
            },
            match key.code {
                Key::Backspace => {
                    &&& old(state).input@.cursor != 0 ==> final(state).input@.cursor == old(state).input@.cursor - 1 && exists|ch: char|
                        removed_at(
                            old(state).input@.text,
                            final(state).input@.text,
                            final(state).input@.cursor as int,
                            ch,
                        )
                    &&& old(state).input@.cursor == 0 ==> final(state).input@ == old(state).input@
                    &&& final(state).display_with_shortcuts == old(state).display_with_shortcuts
                },
                Key::Delete => {
                    &&& final(state).input@.cursor == old(state).input@.cursor
                    &&& old(state).input@.cursor < old(state).input@.text.len() ==> exists|ch: char|
                        removed_at(
                            old(state).input@.text,
                            final(state).input@.text,
                            final(state).input@.cursor as int,
                            ch,
                        )
                    &&& old(state).input@.cursor >= old(state).input@.text.len() ==> final(state).input@ == old(state).input@
                    &&& final(state).display_with_shortcuts == old(state).display_with_shortcuts
                },
                Key::Left => {
                    &&& final(state).input@.text == old(state).input@.text
                    &&& final(state).input@.cursor == if old(state).input@.cursor != 0 {
                        old(state).input@.cursor - 1
                    } else {
                        0
                    }
                    &&& final(state).input@.fuzzy == old(state).input@.fuzzy
                    &&& final(state).display_with_shortcuts == old(state).display_with_shortcuts
                },
                Key::Right => {
                    &&& final(state).input@.text == old(state).input@.text
                    &&& final(state).input@.cursor == if old(state).input@.cursor < old(state).input@.text.len() {
                        old(state).input@.cursor + 1
                    } else {
                        old(state).input@.cursor
                    }
                    &&& final(state).input@.fuzzy == old(state).input@.fuzzy
                    &&& final(state).display_with_shortcuts == old(state).display_with_shortcuts
                },
                Key::Char(c) => if key.control_only() {
                    &&& final(state).input@.text == old(state).input@.text
                    &&& final(state).input@.cursor == old(state).input@.cursor
                    &&& final(state).input@.fuzzy == (old(state).input@.fuzzy != (c == 'f'))
                    &&& final(state).display_with_shortcuts == (old(state).display_with_shortcuts
                        != (c == 'a'))
                } else {
                    &&& final(state).input@.cursor == old(state).input@.cursor + 1
                    &&& final(state).input@.text == old(state).input@.text.subrange(
                        0,
                        old(state).input@.cursor as int,
                    ) + utf8(seq![c]) + old(state).input@.text.subrange(
                        old(state).input@.cursor as int,
                        old(state).input@.text.len() as int,
                    )
                    &&& final(state).input@.fuzzy == old(state).input@.fuzzy
                    &&& final(state).display_with_shortcuts == old(state).display_with_shortcuts
                },
                _ => *final(state) == *old(state),
            },
    {
        let mut command = TableCommand::Nothing;
        match key.code {
            Key::Enter => {
                command = TableCommand::Exit(
                    if self.data_model.entries.is_some() {
                        self.selected
                    } else {
                        None
                    },
                );
            },
            Key::Home => {
                self.handle_home();
            },
            Key::Down => {
                self.handle_down(key.shift, false);
            },
            Key::Up => {
                self.handle_up(key.shift, false);
            },
            Key::PageDown => {
                self.handle_down(key.shift, true);
            },
            Key::PageUp => {
                self.handle_up(key.shift, true);
            },
            Key::Backspace => {
                if state.input.backspace() {
                    self.research(state.input.search_string.as_str());
                }
            },
            Key::Delete => {
                if state.input.delete() {
                    self.research(state.input.search_string.as_str());
                }
            },
            Key::Left => {
                state.input.move_left();
            },
            Key::Right => {
                state.input.move_right();
            },
            Key::Char(c) => {
                if !key.control_only() {
                    state.input.insert_char(c);
                    self.research(state.input.search_string.as_str());
                } else if c == 'f' {
                    state.input.toggle_fuzzy_match();
                    self.data_model.set_fuzzy_match(state.input.fuzzy_match);
                } else if c == 'a' {
                    state.toggle_display_with_shortcuts();
                } else if c == 'd' {
                    if self.data_model.entries.is_some() {
                        command = TableCommand::Delete(self.selected.unwrap());
                    }
                } else if c == 'e' {
                    if self.data_model.entries.is_some() {
                        if let Some(row) = self.selected {
                            command = TableCommand::Edit(row);
                        }
                    }
                }
            },
            _ => {},
        }
        (command, EventCaptured::Yes, ManagerAction::new(true))
    }
}


/// A move down keeps the selection on a row of the window.
pub proof fn law_down_stays_in_window<T: Clone, F: Fn(usize, usize, &str, bool) -> Option<Vec<T>>>(
    before: &TableCursor<T, F>,
    after: &TableCursor<T, F>,
    jump: bool,
    page: bool,
)
    requires
        before.data_model@.entries is Some,
        before.selected is Some,
        after.moved_down(before, jump, page),
    ensures
        after.selected->0 < after.data_model@.length,
{
}

/// A move up never selects a row past the one selected before.
pub proof fn law_up_never_goes_down<T: Clone, F: Fn(usize, usize, &str, bool) -> Option<Vec<T>>>(
    before: &TableCursor<T, F>,
    after: &TableCursor<T, F>,
    jump: bool,
    page: bool,
)
    requires
        before.selected is Some,
        after.moved_up(before, jump, page),
    ensures
        after.selected->0 <= before.selected->0,
{
}

/// With an ASCII search text and the cursor within it, the table can
/// handle every key but those that depend on the window: moving down, and
/// deleting with control and `d`. Whatever it handles, it captures and
/// redraws (see `handle_key_event`).
pub proof fn law_ascii_search_takes_its_keys<T: Clone, F: Fn(usize, usize, &str, bool) -> Option<Vec<T>>>(
    cursor: &TableCursor<T, F>,
    state: &TableViewState,
    key: KeyPress,
)
    requires
        state.input.well_formed(),
        is_ascii_chars(state.input.search_string@),
        cursor.data_model@.first <= i64::MAX,
        key.code != Key::Down,
        key.code != Key::PageDown,
        !(key.control_only() && key.code == Key::Char('d')),
    ensures
        cursor.can_handle(state, key),
{
    law_ascii_text_takes_every_key(&state.input, key);
}

} // verus!
