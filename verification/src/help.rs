//! The help dialog, which any of escape, enter or `q` closes.
use vstd::prelude::*;
use crate::tui::keys::{Key, KeyPress};
use crate::tui::view::{EventCaptured, ManagerAction};

verus! {

/// The help dialog's key handling: the key is captured; escape, enter and
/// `q` close the dialog; nothing is redrawn.
pub fn handle_key_event(key: KeyPress) -> (r: (EventCaptured, ManagerAction))
    ensures
        r.0 == EventCaptured::Yes,
        r.1 == (ManagerAction {
            redraw: false,
            resize: false,
            close: key.code == Key::Esc || key.code == Key::Enter || key.code == Key::Char('q'),
        }),
{
    match key.code {
        Key::Esc | Key::Enter | Key::Char('q') => (
            EventCaptured::Yes,
            ManagerAction::new(false).with_close(true),
        ),
        _ => (EventCaptured::Yes, ManagerAction::new(false)),
    }
}

} // verus!
