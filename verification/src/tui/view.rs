use vstd::prelude::*;

verus! {

/// What the view manager must do after a view handled an event.
#[derive(Debug, Clone, Copy, PartialEq, Eq, Structural)]
pub struct ManagerAction {
    pub redraw: bool,
    pub resize: bool,
    pub close: bool,
}

impl ManagerAction {
    /// A new action with the given redraw flag and no resize nor close.
    pub fn new(redraw: bool) -> (r: ManagerAction)
        ensures
            r == (ManagerAction { redraw, resize: false, close: false }),
    {
        ManagerAction { redraw, resize: false, close: false }
    }

    /// Accumulates `other` into `self`: each flag becomes the disjunction of both.
    pub fn merge(&mut self, other: &ManagerAction)
        ensures
            final(self).redraw == (old(self).redraw || other.redraw),
            final(self).resize == (old(self).resize || other.resize),
            final(self).close == (old(self).close || other.close),
    {
        self.redraw = self.redraw || other.redraw;
        self.resize = self.resize || other.resize;
        self.close = self.close || other.close;
    }

    /// The same action with the resize flag set to `resize`.
    pub fn with_resize(self, resize: bool) -> (r: ManagerAction)
        ensures
            r == (ManagerAction { resize, ..self }),
    {
        ManagerAction { resize, ..self }
    }

    /// The same action with the close flag set to `close`.
    pub fn with_close(self, close: bool) -> (r: ManagerAction)
        ensures
            r == (ManagerAction { close, ..self }),
    {
        ManagerAction { close, ..self }
    }

    /// Whether a redraw is needed.
    pub fn redraw(&self) -> (r: bool)
        ensures
            r == self.redraw,
    {
        self.redraw
    }

    /// Whether a resize is needed.
    pub fn resize(&self) -> (r: bool)
        ensures
            r == self.resize,
    {
        self.resize
    }

    /// Whether the view should be closed.
    pub fn close(&self) -> (r: bool)
        ensures
            r == self.close,
    {
        self.close
    }
}

/// Whether a view captured an event or lets it propagate to its parents.
#[derive(Debug, Clone, Copy, PartialEq, Eq, Structural)]
pub enum EventCaptured {
    Yes,
    No,
}

} // verus!
