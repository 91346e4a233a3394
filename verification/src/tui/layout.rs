//! Rectangles of the terminal, in cells.
use vstd::prelude::*;

verus! {

/// A rectangle of the terminal: its top left cell and its size.
#[derive(Debug, Clone, Copy, PartialEq, Eq, Structural)]
pub struct Rect {
    pub x: u16,
    pub y: u16,
    pub width: u16,
    pub height: u16,
}

/// The smaller of two sizes.
pub open spec fn at_most(a: u16, b: u16) -> u16 {
    if a <= b {
        a
    } else {
        b
    }
}

/// The rectangle of size `width` by `height`, each cut to that of `area`,
/// centered in `area` (rounded towards the top left).
pub open spec fn spec_centered_rect(area: Rect, width: u16, height: u16) -> Rect {
    let w = at_most(width, area.width);
    let h = at_most(height, area.height);
    Rect {
        x: (area.x + (area.width - w) / 2) as u16,
        y: (area.y + (area.height - h) / 2) as u16,
        width: w,
        height: h,
    }
}

impl Rect {
    /// A rectangle at `x`, `y` of size `width` by `height`.
    pub fn new(x: u16, y: u16, width: u16, height: u16) -> (r: Rect)
        ensures
            r == (Rect { x, y, width, height }),
    {
        Rect { x, y, width, height }
    }

    /// The rectangle lies within the cell range of the terminal.
    pub open spec fn fits(self) -> bool {
        self.x + self.width <= u16::MAX && self.y + self.height <= u16::MAX
    }

    /// The cell at `column`, `row` lies in the rectangle.
    pub open spec fn spec_contains(self, column: u16, row: u16) -> bool {
        self.x <= column < self.x + self.width && self.y <= row < self.y + self.height
    }

    /// Whether the cell at `column`, `row` lies in the rectangle.
    pub fn contains(&self, column: u16, row: u16) -> (r: bool)
        ensures
            r == self.spec_contains(column, row),
    {
        self.x <= column && (column - self.x) < self.width && self.y <= row && (row - self.y)
            < self.height
    }
}

/// The rectangle of the given size centered within `area`; a size larger
/// than the area's is cut to it.
pub fn centered_rect(area: Rect, width: u16, height: u16) -> (r: Rect)
    requires
        area.fits(),
    ensures
        r == spec_centered_rect(area, width, height),
        r.x >= area.x && r.x + r.width <= area.x + area.width,
        r.y >= area.y && r.y + r.height <= area.y + area.height,
{
    let width = if width <= area.width {
        width
    } else {
        area.width
    };
    let height = if height <= area.height {
        height
    } else {
        area.height
    };
    let x = area.x + (area.width - width) / 2;
    let y = area.y + (area.height - height) / 2;
    Rect::new(x, y, width, height)
}

} // verus!
