//! The dialog that edits a shortcut's name and description: which field is
//! selected and what each key does.
use vstd::prelude::*;
use crate::tui::keys::{Key, KeyPress};
use crate::tui::view::{EventCaptured, ManagerAction};

verus! {

/// The fields of the dialog, in the order of the tab key.
#[derive(Debug, Clone, Copy, PartialEq, Eq, Structural)]
pub enum EditorField {
    Name,
    Description,
    YesButton,
    CancelButton,
}

/// What the dialog asks of its owner after a key.
#[derive(Debug, Clone, Copy, PartialEq, Eq, Structural)]
pub enum EditorCommand {
    Nothing,
    /// Hand the key to the name's text editor.
    EditName,
    /// Hand the key to the description's text editor.
    EditDescription,
    /// Save the shortcut, then close.
    Save,
    /// Close without saving.
    Close,
}

/// The state of the dialog: the selected field.
#[derive(Debug, Clone, Copy, PartialEq, Eq, Structural)]
pub struct EditorForm {
    pub selected_field: EditorField,
}

/// The field after `f`, the last one wrapping to the first.
pub open spec fn next_editor_field(f: EditorField) -> EditorField {
    match f {
        EditorField::Name => EditorField::Description,
        EditorField::Description => EditorField::YesButton,
        EditorField::YesButton => EditorField::CancelButton,
        EditorField::CancelButton => EditorField::Name,
    }
}

/// The field before `f`, the first one wrapping to the last.
pub open spec fn previous_editor_field(f: EditorField) -> EditorField {
    match f {
        EditorField::Name => EditorField::CancelButton,
        EditorField::Description => EditorField::Name,
        EditorField::YesButton => EditorField::Description,
        EditorField::CancelButton => EditorField::YesButton,
    }
}

/// The selected field, the command and whether to redraw after `key`.
pub open spec fn editor_step(f: EditorField, key: KeyPress) -> (EditorField, EditorCommand, bool) {
    let on_button = f == EditorField::YesButton || f == EditorField::CancelButton;
    let other = if f == EditorField::YesButton {
        EditorField::CancelButton
    } else {
        EditorField::YesButton
    };
    match key.code {
        Key::Esc => (f, EditorCommand::Close, false),
        Key::Tab => (next_editor_field(f), EditorCommand::Nothing, true),
        Key::BackTab => (previous_editor_field(f), EditorCommand::Nothing, true),
        Key::Left if on_button => (other, EditorCommand::Nothing, true),
        Key::Right if on_button => (other, EditorCommand::Nothing, true),
        Key::Enter => (
            f,
            if f != EditorField::CancelButton {
                EditorCommand::Save
            } else {
                EditorCommand::Close
            },
            false,
        ),
        _ => (
            f,
            match f {
                EditorField::Name => EditorCommand::EditName,
                EditorField::Description => EditorCommand::EditDescription,
                _ => EditorCommand::Nothing,
            },
            true,
        ),
    }
}

impl EditorForm {
    /// The dialog with the name selected.
    pub fn new() -> (r: Self)
        ensures
            r.selected_field == EditorField::Name,
    {
        EditorForm { selected_field: EditorField::Name }
    }

    /// Handles `key`: moves the selection, hands the key to the selected
    /// text field, or asks to save or close. The key is always captured.
    pub fn handle_key_event(&mut self, key: KeyPress) -> (r: (EditorCommand, EventCaptured, ManagerAction))
        ensures
            final(self).selected_field == editor_step(old(self).selected_field, key).0,
            r.0 == editor_step(old(self).selected_field, key).1,
            r.1 == EventCaptured::Yes,
            r.2 == (ManagerAction {
                redraw: editor_step(old(self).selected_field, key).2,
                resize: false,
                close: r.0 == EditorCommand::Save || r.0 == EditorCommand::Close,
            }),
    {
        let (field, command, redraw) = step(self.selected_field, key);
        self.selected_field = field;
        let close = match command {
            EditorCommand::Save | EditorCommand::Close => true,
            _ => false,
        };
        (command, EventCaptured::Yes, ManagerAction::new(redraw).with_close(close))
    }
}

fn step(f: EditorField, key: KeyPress) -> (r: (EditorField, EditorCommand, bool))
    ensures
        r == editor_step(f, key),
{
    let on_button = match f {
        EditorField::YesButton | EditorField::CancelButton => true,
        _ => false,
    };
    let other = match f {
        EditorField::YesButton => EditorField::CancelButton,
        _ => EditorField::YesButton,
    };
    match key.code {
        Key::Esc => (f, EditorCommand::Close, false),
        Key::Tab => {
            let next = match f {
                EditorField::Name => EditorField::Description,
                EditorField::Description => EditorField::YesButton,
                EditorField::YesButton => EditorField::CancelButton,
                EditorField::CancelButton => EditorField::Name,
            };
            (next, EditorCommand::Nothing, true)
        },
        Key::BackTab => {
            let previous = match f {
                EditorField::Name => EditorField::CancelButton,
                EditorField::Description => EditorField::Name,
                EditorField::YesButton => EditorField::Description,
                EditorField::CancelButton => EditorField::YesButton,
            };
            (previous, EditorCommand::Nothing, true)
        },
        Key::Left if on_button => (other, EditorCommand::Nothing, true),
        Key::Right if on_button => (other, EditorCommand::Nothing, true),
        Key::Enter => {
            let command = match f {
                EditorField::CancelButton => EditorCommand::Close,
                _ => EditorCommand::Save,
            };
            (f, command, false)
        },
        _ => {
            let command = match f {
                EditorField::Name => EditorCommand::EditName,
                EditorField::Description => EditorCommand::EditDescription,
                _ => EditorCommand::Nothing,
            };
            (f, command, true)
        },
    }
}

/// The name and description to save from the lines of the two text fields:
/// the first line of each; an empty name when the name has no line, no
/// description when the description has none.
pub fn edited_values(name_lines: &Vec<String>, description_lines: &Vec<String>) -> (r: (
    String,
    Option<String>,
))
    ensures
        r.0@ == if name_lines@.len() == 0 {
            Seq::<char>::empty()
        } else {
            name_lines@[0]@
        },
        match r.1 {
            Some(d) => description_lines@.len() > 0 && d@ == description_lines@[0]@,
            None => description_lines@.len() == 0,
        },
{
    let name = if name_lines.len() == 0 {
        String::new()
    } else {
        name_lines[0].clone()
    };
    let description = if description_lines.len() == 0 {
        None
    } else {
        Some(description_lines[0].clone())
    };
    (name, description)
}


/// Tab then shift-tab comes back to the same field, and so does the
/// reverse.
pub proof fn law_tab_back_tab(f: EditorField, tab: KeyPress, back: KeyPress)
    requires
        tab.code == Key::Tab,
        back.code == Key::BackTab,
    ensures
        editor_step(editor_step(f, tab).0, back).0 == f,
        editor_step(editor_step(f, back).0, tab).0 == f,
{
}

} // verus!
