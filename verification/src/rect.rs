//! Rectangles of terminal cells.

use vstd::prelude::*;

verus! {

/// The sum of two coordinates, at most `u16::MAX`.
pub open spec fn sum16(a: int, b: int) -> u16 {
    if a + b <= u16::MAX {
        (a + b) as u16
    } else {
        u16::MAX
    }
}

/// The difference of two coordinates, at least zero.
pub open spec fn diff16(a: int, b: int) -> u16 {
    if a >= b {
        (a - b) as u16
    } else {
        0
    }
}

/// The smaller of two coordinates.
pub open spec fn min16(a: u16, b: u16) -> u16 {
    if a <= b {
        a
    } else {
        b
    }
}

/// The smaller of two coordinates.
pub fn smaller(a: u16, b: u16) -> (r: u16)
    ensures
        r == min16(a, b),
        r <= a && r <= b,
        r == a || r == b,
{
    if a <= b {
        a
    } else {
        b
    }
}

/// A rectangle of terminal cells.
#[derive(Debug, Clone, Copy, PartialEq, Eq, Structural)]
pub struct Rect {
    pub x: u16,
    pub y: u16,
    pub width: u16,
    pub height: u16,
}

impl Rect {
    /// The rectangle at `(x, y)` with the given size, cut so that its right and
    /// bottom coordinates are at most `u16::MAX`.
    pub open spec fn cut(x: u16, y: u16, width: u16, height: u16) -> Rect {
        Rect {
            x,
            y,
            width: min16(width, (u16::MAX - x) as u16),
            height: min16(height, (u16::MAX - y) as u16),
        }
    }

    /// The first column to the right of the rectangle, at most `u16::MAX`.
    pub open spec fn end(self) -> u16 {
        sum16(self.x as int, self.width as int)
    }

    /// Whether the first column to the right of the rectangle is at most `u16::MAX`.
    pub open spec fn ends_on_screen(self) -> bool {
        self.x + self.width <= u16::MAX
    }

    /// Calls `ratatui::layout::Rect::new`. Claimed: position and size are kept,
    /// but for a width or height that reaches over `u16::MAX`, which is cut.
    #[verifier::external_body]
    pub(crate) fn new(x: u16, y: u16, width: u16, height: u16) -> (r: Rect)
        ensures
            r == Rect::cut(x, y, width, height),
    {
        let area = ratatui::layout::Rect::new(x, y, width, height);
        Rect { x: area.x, y: area.y, width: area.width, height: area.height }
    }

    /// Calls `ratatui::layout::Rect::right`. Claimed: it is the sum of `x` and
    /// `width`, at most `u16::MAX`.
    #[verifier::external_body]
    pub(crate) fn right(self) -> (r: u16)
        ensures
            r == self.end(),
    {
        ratatui::layout::Rect { x: self.x, y: self.y, width: self.width, height: self.height }.right()
    }
}

} // verus!
