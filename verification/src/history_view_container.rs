//! The history tab: the table of visited directories, the search field and
//! the list indicator, laid out by the interface.
use vstd::prelude::*;

verus! {

/// The container of the history tab. It captures the focus and passes the
/// keyboard events on to all its children.
#[derive(Debug)]
pub struct HistoryViewContainer {}

impl HistoryViewContainer {
    /// The container captures the focus.
    pub fn capture_focus(&self) -> (r: bool)
        ensures
            r,
    {
        true
    }

    /// The container passes keyboard events on to its children.
    pub fn broadcast_keyboard_events(&self) -> (r: bool)
        ensures
            r,
    {
        true
    }
}

} // verus!
