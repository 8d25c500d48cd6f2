use vstd::prelude::*;

verus! {

/// A rectangle of terminal cells: the top-left cell `(x, y)` and its size.
///
/// Mirrors `ratatui::layout::Rect`, with the same clamping constructor and
/// the same saturating `right` / `bottom` edges.
#[derive(Clone, Copy, Debug, PartialEq, Eq, Structural)]
pub struct Area {
    pub x: u16,
    pub y: u16,
    pub width: u16,
    pub height: u16,
}

pub open spec fn sat_add(a: int, b: int) -> int {
    if a + b > u16::MAX as int { u16::MAX as int } else { a + b }
}

pub open spec fn sat_sub(a: int, b: int) -> int {
    if a - b < 0 { 0 } else { a - b }
}

impl Area {
    /// First column inside the rectangle.
    pub open spec fn l(self) -> int {
        self.x as int
    }

    /// First row inside the rectangle.
    pub open spec fn t(self) -> int {
        self.y as int
    }

    /// First column past the rectangle (saturating, as `Rect::right`).
    pub open spec fn r(self) -> int {
        sat_add(self.x as int, self.width as int)
    }

    /// First row past the rectangle (saturating, as `Rect::bottom`).
    pub open spec fn b(self) -> int {
        sat_add(self.y as int, self.height as int)
    }

    /// The rectangle does not run past the last representable cell, so its
    /// right and bottom edges are exact.
    pub open spec fn fits(self) -> bool {
        self.x + self.width <= u16::MAX && self.y + self.height <= u16::MAX
    }

    /// The cell `(px, py)` lies inside the rectangle.
    pub open spec fn has(self, px: int, py: int) -> bool {
        self.l() <= px < self.r() && self.t() <= py < self.b()
    }

    /// Every cell of `self` lies inside `outer`.
    pub open spec fn within(self, outer: Area) -> bool {
        outer.l() <= self.l() && self.r() <= outer.r() && outer.t() <= self.t() && self.b()
            <= outer.b()
    }

    /// Builds a rectangle, clamping width and height so that it does not run
    /// past the last representable column and row.
    pub fn new(x: u16, y: u16, width: u16, height: u16) -> (a: Area)
        ensures
            a.x == x,
            a.y == y,
            a.width == (if width > u16::MAX - x { (u16::MAX - x) as u16 } else { width }),
            a.height == (if height > u16::MAX - y { (u16::MAX - y) as u16 } else { height }),
            a.fits(),
    {
        let max_width = u16::MAX - x;
        let max_height = u16::MAX - y;
        let width = if width > max_width { max_width } else { width };
        let height = if height > max_height { max_height } else { height };
        Area { x, y, width, height }
    }

    pub fn left(&self) -> (v: u16)
        ensures v == self.l(),
    {
        self.x
    }

    pub fn top(&self) -> (v: u16)
        ensures v == self.t(),
    {
        self.y
    }

    pub fn right(&self) -> (v: u16)
        ensures v == self.r(),
    {
        self.x.saturating_add(self.width)
    }

    pub fn bottom(&self) -> (v: u16)
        ensures v == self.b(),
    {
        self.y.saturating_add(self.height)
    }
}

} // verus!
