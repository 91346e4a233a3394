//! Key presses as the views read them.
use vstd::prelude::*;

verus! {

/// The key that was pressed.
#[derive(Debug, Clone, Copy, PartialEq, Eq, Structural)]
pub enum Key {
    Enter,
    Esc,
    Tab,
    BackTab,
    Home,
    End,
    Up,
    Down,
    Left,
    Right,
    PageUp,
    PageDown,
    Backspace,
    Delete,
    Char(char),
    Other,
}

/// A key with the modifiers held down.
#[derive(Debug, Clone, Copy, PartialEq, Eq, Structural)]
pub struct KeyPress {
    pub code: Key,
    pub shift: bool,
    pub control: bool,
    /// Alt, super, hyper or meta.
    pub other_modifiers: bool,
}

impl KeyPress {
    /// Control and no other modifier is held.
    pub open spec fn spec_control_only(&self) -> bool {
        self.control && !self.shift && !self.other_modifiers
    }

    /// Whether control and no other modifier is held.
    #[verifier::when_used_as_spec(spec_control_only)]
    pub fn control_only(&self) -> (r: bool)
        ensures
            r == self.spec_control_only(),
    {
        self.control && !self.shift && !self.other_modifiers
    }
}

} // verus!
