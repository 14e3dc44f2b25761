//! Axis-aligned rectangles in terminal cell coordinates.

use vstd::prelude::*;
use crate::event::MouseEvent;

verus! {

/// A rectangle of terminal cells; `width` and `height` may be zero.
#[derive(Clone, Copy, Debug, PartialEq, Eq, Structural)]
pub struct Area {
    pub x: u16,
    pub y: u16,
    pub width: u16,
    pub height: u16,
}

impl Area {
    /// Whether the cell at column `ex`, row `ey` lies inside the rectangle;
    /// both spans are half-open.
    pub open spec fn covers(self, ex: int, ey: int) -> bool {
        &&& self.x <= ex < self.x + self.width
        &&& self.y <= ey < self.y + self.height
    }

    /// The rectangle of the given width and height whose first cell is in
    /// column `x`, row `y`.
    pub fn new(x: u16, y: u16, width: u16, height: u16) -> (area: Area)
        ensures
            area == (Area { x, y, width, height }),
    {
        Area { x, y, width, height }
    }

    /// Whether the rectangle ends at or before the last addressable cell in
    /// both directions, as every rectangle inside a terminal does.
    pub open spec fn on_screen(self) -> bool {
        &&& self.x + self.width <= u16::MAX
        &&& self.y + self.height <= u16::MAX
    }

    /// Whether no cell lies inside.
    pub open spec fn is_empty(self) -> bool {
        self.width == 0 || self.height == 0
    }

    /// Tests whether the pointer event happened on a cell of the rectangle.
    pub fn contains(&self, event: MouseEvent) -> (inside: bool)
        ensures
            inside == self.covers(event.column as int, event.row as int),
    {
        let ex: u32 = event.column as u32;
        let ey: u32 = event.row as u32;
        self.x as u32 <= ex && ex < self.x as u32 + self.width as u32
            && self.y as u32 <= ey && ey < self.y as u32 + self.height as u32
    }
}

} // verus!
