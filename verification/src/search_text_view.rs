//! The search field under the tables: the text typed so far, the cursor
//! (a byte position in it) and whether matching is fuzzy or exact.
use vstd::prelude::*;
use vstd::utf8::{is_ascii_chars, is_char_boundary};
use crate::text::{lemma_ascii_char_boundary, lemma_utf8_ascii_char, lemma_utf8_char_len, lemma_utf8_leading_ascii, string_insert, string_remove, utf8};
use crate::tui::keys::{Key, KeyPress};
use crate::tui::layout::Rect;
use crate::tui::view::{EventCaptured, ManagerAction};

verus! {

/// The search text and what changes it.
#[derive(Debug)]
pub struct SearchInput {
    pub search_string: String,
    pub search_string_cursor_index: usize,
    pub fuzzy_match: bool,
}

/// What the search field publishes when its text or mode changes.
#[derive(Debug)]
pub struct SearchDescriptionPayload {
    pub search_string: String,
    pub fuzzy_match: bool,
}

/// The text as bytes, the cursor and the mode.
pub ghost struct SearchModel {
    pub text: Seq<u8>,
    pub cursor: nat,
    pub fuzzy: bool,
}

impl View for SearchInput {
    type V = SearchModel;

    open spec fn view(&self) -> SearchModel {
        SearchModel {
            text: utf8(self.search_string@),
            cursor: self.search_string_cursor_index as nat,
            fuzzy: self.fuzzy_match,
        }
    }
}

/// What a key does to the search field: its text (as bytes), cursor and
/// mode after the key, from those before.
pub open spec fn search_key_outcome(before: SearchModel, key: KeyPress, after: SearchModel) -> bool {
    match key.code {
        Key::Backspace => if before.cursor != 0 {
            &&& after.cursor == before.cursor - 1
            &&& after.fuzzy == before.fuzzy
            &&& exists|ch: char|
                removed_at(
                    before.text,
                    after.text,
                    after.cursor as int,
                    ch,
                )
        } else {
            after == before
        },
        Key::Delete => if before.cursor < before.text.len() {
            &&& after.cursor == before.cursor
            &&& after.fuzzy == before.fuzzy
            &&& exists|ch: char|
                removed_at(
                    before.text,
                    after.text,
                    after.cursor as int,
                    ch,
                )
        } else {
            after == before
        },
        Key::Left => after == (SearchModel {
            cursor: if before.cursor != 0 {
                (before.cursor - 1) as nat
            } else {
                0
            },
            ..before
        }),
        Key::Right => after == (SearchModel {
            cursor: if before.cursor < before.text.len() {
                before.cursor + 1
            } else {
                before.cursor
            },
            ..before
        }),
        Key::Char(c) => if !key.control_only() {
            after == (SearchModel {
                text: before.text.subrange(0, before.cursor as int) + utf8(
                    seq![c],
                ) + before.text.subrange(
                    before.cursor as int,
                    before.text.len() as int,
                ),
                cursor: before.cursor + 1,
                ..before
            })
        } else if c == 'f' {
            after == (SearchModel { fuzzy: !before.fuzzy, ..before })
        } else {
            after == before
        },
        _ => after == before,
    }
}

/// `text` is `before` with the character `ch` removed at byte position `at`.
pub open spec fn removed_at(before: Seq<u8>, text: Seq<u8>, at: int, ch: char) -> bool {
    &&& at <= text.len()
    &&& before == text.subrange(0, at) + utf8(seq![ch]) + text.subrange(at, text.len() as int)
}

impl SearchInput {
    /// An empty search in exact mode.
    pub fn new() -> (r: SearchInput)
        ensures
            r@ == (SearchModel { text: Seq::empty(), cursor: 0, fuzzy: false }),
    {
        let r = SearchInput {
            search_string: String::new(),
            search_string_cursor_index: 0,
            fuzzy_match: false,
        };
        assert(utf8(r.search_string@) =~= Seq::<u8>::empty());
        r
    }

    /// The cursor is within the text.
    pub open spec fn well_formed(&self) -> bool {
        self@.cursor <= self@.text.len()
    }

    /// Backspace: removes the character that starts just before the cursor
    /// and moves the cursor back by one. Returns whether the text changed.
    pub fn backspace(&mut self) -> (changed: bool)
        requires
            old(self).well_formed(),
            old(self)@.cursor != 0 ==> is_char_boundary(
                old(self)@.text,
                old(self)@.cursor - 1,
            ),
        ensures
            final(self).well_formed(),
            final(self)@.fuzzy == old(self)@.fuzzy,
            changed == (old(self)@.cursor != 0),
            !changed ==> final(self)@ == old(self)@,
            changed ==> final(self)@.cursor == old(self)@.cursor - 1 && exists|ch: char|
                removed_at(old(self)@.text, final(self)@.text, final(self)@.cursor as int, ch),
    {
        if self.search_string_cursor_index == 0 {
            return false;
        }
        let at = self.search_string_cursor_index - 1;
        let ch = string_remove(&mut self.search_string, at);
        self.search_string_cursor_index = at;
        proof {
            lemma_utf8_char_len(ch);
            assert(removed_at(old(self)@.text, self@.text, at as int, ch));
        }
        true
    }

    /// Delete: removes the character that starts at the cursor. Returns
    /// whether the text changed.
    pub fn delete(&mut self) -> (changed: bool)
        requires
            old(self).well_formed(),
            old(self)@.cursor < old(self)@.text.len() ==> is_char_boundary(
                old(self)@.text,
                old(self)@.cursor as int,
            ),
        ensures
            final(self).well_formed(),
            final(self)@.fuzzy == old(self)@.fuzzy,
            final(self)@.cursor == old(self)@.cursor,
            changed == (old(self)@.cursor < old(self)@.text.len()),
            !changed ==> final(self)@ == old(self)@,
            changed ==> exists|ch: char|
                removed_at(old(self)@.text, final(self)@.text, final(self)@.cursor as int, ch),
    {
        let len = self.search_string.as_str().as_bytes().len();
        if self.search_string_cursor_index >= len {
            return false;
        }
        let at = self.search_string_cursor_index;
        let ch = string_remove(&mut self.search_string, at);
        proof {
            lemma_utf8_char_len(ch);
            assert(removed_at(old(self)@.text, self@.text, at as int, ch));
        }
        true
    }

    /// Left arrow: the cursor moves back by one byte unless at the start.
    pub fn move_left(&mut self)
        requires
            old(self).well_formed(),
        ensures
            final(self).well_formed(),
            final(self)@.text == old(self)@.text,
            final(self)@.fuzzy == old(self)@.fuzzy,
            final(self)@.cursor == if old(self)@.cursor != 0 {
                old(self)@.cursor - 1
            } else {
                0
            },
    {
        if self.search_string_cursor_index != 0 {
            self.search_string_cursor_index = self.search_string_cursor_index - 1;
        }
    }

    /// Right arrow: the cursor moves on by one byte unless at the end.
    pub fn move_right(&mut self)
        requires
            old(self).well_formed(),
        ensures
            final(self).well_formed(),
            final(self)@.text == old(self)@.text,
            final(self)@.fuzzy == old(self)@.fuzzy,
            final(self)@.cursor == if old(self)@.cursor < old(self)@.text.len() {
                old(self)@.cursor + 1
            } else {
                old(self)@.cursor
            },
    {
        let len = self.search_string.as_str().as_bytes().len();
        if self.search_string_cursor_index < len {
            self.search_string_cursor_index = self.search_string_cursor_index + 1;
        }
    }

    /// Typing `ch`: it is inserted at the cursor and the cursor moves on by one.
    pub fn insert_char(&mut self, ch: char)
        requires
            old(self).well_formed(),
            is_char_boundary(old(self)@.text, old(self)@.cursor as int),
        ensures
            final(self).well_formed(),
            final(self)@.fuzzy == old(self)@.fuzzy,
            final(self)@.cursor == old(self)@.cursor + 1,
            final(self)@.text == old(self)@.text.subrange(0, old(self)@.cursor as int) + utf8(
                seq![ch],
            ) + old(self)@.text.subrange(old(self)@.cursor as int, old(self)@.text.len() as int),
    {
        let at = self.search_string_cursor_index;
        string_insert(&mut self.search_string, at, ch);
        proof {
            lemma_utf8_char_len(ch);
        }
        let len = self.search_string.as_str().as_bytes().len();
        assert(at < len);
        self.search_string_cursor_index = at + 1;
    }

    /// Switches between fuzzy and exact matching.
    pub fn toggle_fuzzy_match(&mut self)
        ensures
            final(self)@.text == old(self)@.text,
            final(self)@.cursor == old(self)@.cursor,
            final(self)@.fuzzy == !old(self)@.fuzzy,
    {
        self.fuzzy_match = !self.fuzzy_match;
    }

    /// What the field publishes: its text and mode.
    pub fn description(&self) -> (r: SearchDescriptionPayload)
        ensures
            r.search_string@ == self.search_string@,
            r.fuzzy_match == self.fuzzy_match,
    {
        SearchDescriptionPayload {
            search_string: self.search_string.clone(),
            fuzzy_match: self.fuzzy_match,
        }
    }

    /// The search edits that `key` makes fall on character boundaries.
    pub open spec fn can_edit_with(&self, key: KeyPress) -> bool {
        let m = self@;
        &&& self.well_formed()
        &&& match key.code {
            Key::Backspace => m.cursor != 0 ==> is_char_boundary(m.text, m.cursor - 1),
            Key::Delete => m.cursor < m.text.len() ==> is_char_boundary(m.text, m.cursor as int),
            Key::Char(c) => !key.control_only() ==> is_char_boundary(m.text, m.cursor as int),
            _ => true,
        }
    }

    /// Handles a key on the search field: backspace, delete, the left and
    /// right arrows and characters edit the text, control and `f` switches
    /// the matching mode. Returns whether the field must publish its new
    /// description (the text or the mode changed); the key is never captured
    /// and nothing is redrawn.
    pub fn handle_key_event(&mut self, key: KeyPress) -> (r: (bool, EventCaptured, ManagerAction))
        requires
            old(self).can_edit_with(key),
        ensures
            final(self).well_formed(),
            r.1 == EventCaptured::No,
            r.2 == (ManagerAction { redraw: false, resize: false, close: false }),
            r.0 == match key.code {
                Key::Backspace => old(self)@.cursor != 0,
                Key::Delete => old(self)@.cursor < old(self)@.text.len(),
                Key::Char(c) => !key.control_only() || c == 'f',
                _ => false,
            },
            search_key_outcome(old(self)@, key, final(self)@),
    {
        let publish = match key.code {
            Key::Backspace => self.backspace(),
            Key::Delete => self.delete(),
            Key::Left => {
                self.move_left();
                false
            },
            Key::Right => {
                self.move_right();
                false
            },
            Key::Char(c) => {
                if !key.control_only() {
                    self.insert_char(c);
                    true
                } else if c == 'f' {
                    self.toggle_fuzzy_match();
                    true
                } else {
                    false
                }
            },
            _ => false,
        };
        (publish, EventCaptured::No, ManagerAction::new(false))
    }

    /// A mouse event at `column`, `row` on the field shown in `area`: a press
    /// inside it switches the matching mode, to be published, and asks for a
    /// redraw. Returns whether to publish, and the action.
    pub fn handle_mouse_event(&mut self, area: Rect, pressed: bool, column: u16, row: u16) -> (r: (
        bool,
        ManagerAction,
    ))
        ensures
            r.0 == (pressed && area.spec_contains(column, row)),
            r.1 == (ManagerAction { redraw: r.0, resize: false, close: false }),
            final(self)@ == if r.0 {
                SearchModel { fuzzy: !old(self)@.fuzzy, ..old(self)@ }
            } else {
                old(self)@
            },
    {
        if !pressed || !area.contains(column, row) {
            return (false, ManagerAction::new(false));
        }
        self.toggle_fuzzy_match();
        (true, ManagerAction::new(true))
    }
}


/// Typing an ASCII character and then pressing backspace gives back the
/// text and the cursor as they were.
pub proof fn law_backspace_undoes_typing(
    before: SearchModel,
    typed: SearchModel,
    after: SearchModel,
    c: char,
    removed: char,
)
    requires
        (c as u32) <= 0x7f,
        before.cursor <= before.text.len(),
        typed.text == before.text.subrange(0, before.cursor as int) + utf8(seq![c])
            + before.text.subrange(before.cursor as int, before.text.len() as int),
        typed.cursor == before.cursor + 1,
        typed.fuzzy == before.fuzzy,
        after.cursor == typed.cursor - 1,
        after.fuzzy == typed.fuzzy,
        removed_at(typed.text, after.text, after.cursor as int, removed),
    ensures
        after == before,
{
    let k = before.cursor as int;
    lemma_utf8_ascii_char(c);
    lemma_utf8_leading_ascii(removed);
    let a = before.text.subrange(0, k);
    let b = before.text.subrange(k, before.text.len() as int);
    let p = after.text.subrange(0, k);
    let u = utf8(seq![removed]);
    let s = after.text.subrange(k, after.text.len() as int);
    assert(typed.text == a + seq![c as u8] + b);
    assert(typed.text == p + u + s);
    assert(typed.text[k] == c as u8);
    assert((p + u + s)[k] == u[0]);
    assert(u.len() == 1);
    assert(a =~= typed.text.subrange(0, k));
    assert(p =~= typed.text.subrange(0, k));
    assert(b =~= typed.text.subrange(k + 1, typed.text.len() as int));
    assert(s =~= typed.text.subrange(k + 1, typed.text.len() as int));
    assert(after.text =~= p + s);
    assert(before.text =~= a + b);
}


/// On an ASCII search text with the cursor within it, the field can handle
/// every key.
pub proof fn law_ascii_text_takes_every_key(input: &SearchInput, key: KeyPress)
    requires
        input.well_formed(),
        is_ascii_chars(input.search_string@),
    ensures
        input.can_edit_with(key),
{
    let t = input.search_string@;
    lemma_ascii_char_boundary(t, 0);
    let c = input@.cursor as int;
    lemma_ascii_char_boundary(t, c);
    if c > 0 {
        lemma_ascii_char_boundary(t, c - 1);
    }
}

/// The bytes are all ASCII.
pub open spec fn ascii_bytes(t: Seq<u8>) -> bool {
    forall|i: int| 0 <= i < t.len() ==> t[i] < 0x80
}

proof fn lemma_removed_keeps_ascii(before: Seq<u8>, after: Seq<u8>, at: int, ch: char)
    requires
        ascii_bytes(before),
        0 <= at,
        removed_at(before, after, at, ch),
    ensures
        ascii_bytes(after),
{
    let p = after.subrange(0, at);
    let u = utf8(seq![ch]);
    let q = after.subrange(at, after.len() as int);
    assert(before == p + u + q);
    assert forall|i: int| 0 <= i < after.len() implies after[i] < 0x80 by {
        if i < at {
            assert(before[i] == p[i]);
            assert(p[i] == after[i]);
        } else {
            assert((p + u + q)[p.len() + u.len() + (i - at)] == q[i - at]);
            assert(q[i - at] == after[i]);
            assert(before[p.len() + u.len() + (i - at)] < 0x80);
        }
    }
}

/// An ASCII search text stays ASCII under every key but a non-ASCII
/// character typed (which the field inserts as it is).
pub proof fn law_ascii_text_stays_ascii(before: SearchModel, key: KeyPress, after: SearchModel)
    requires
        ascii_bytes(before.text),
        before.cursor <= before.text.len(),
        search_key_outcome(before, key, after),
        key.code matches Key::Char(c) ==> (key.control_only() || (c as u32) < 0x80),
    ensures
        ascii_bytes(after.text),
{
    match key.code {
        Key::Backspace => {
            if before.cursor != 0 {
                let ch = choose|ch: char| removed_at(before.text, after.text, after.cursor as int, ch);
                lemma_removed_keeps_ascii(before.text, after.text, after.cursor as int, ch);
            }
        },
        Key::Delete => {
            if before.cursor < before.text.len() {
                let ch = choose|ch: char| removed_at(before.text, after.text, after.cursor as int, ch);
                lemma_removed_keeps_ascii(before.text, after.text, after.cursor as int, ch);
            }
        },
        Key::Char(c) => {
            if !key.control_only() {
                lemma_utf8_ascii_char(c);
                let t = after.text;
                let at = before.cursor as int;
                assert forall|i: int| 0 <= i < t.len() implies t[i] < 0x80 by {
                    if i < at {
                        assert(t[i] == before.text[i]);
                    } else if i == at {
                        assert(t[i] == c as u8);
                    } else {
                        assert(t[i] == before.text[i - 1]);
                    }
                }
            }
        },
        _ => {},
    }
}

} // verus!
