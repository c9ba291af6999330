use vstd::prelude::*;

verus! {

/// An axis-aligned rectangle of grid cells: the cells `(px, py)` with
/// `x <= px < x + w` and `y <= py < y + h`.
#[derive(Clone, Copy, Debug, PartialEq, Eq, Structural)]
pub struct Rect {
    pub x: i32,
    pub y: i32,
    pub w: i32,
    pub h: i32,
}

impl Rect {
    /// Whether the cell `(px, py)` lies in the rectangle.
    pub open spec fn has_cell(self, px: int, py: int) -> bool {
        self.x <= px < self.x + self.w && self.y <= py < self.y + self.h
    }

    /// The rectangle is not empty and its far edges are coordinates too.
    pub open spec fn valid(self) -> bool {
        &&& self.w > 0
        &&& self.h > 0
        &&& self.x + self.w <= i32::MAX
        &&& self.y + self.h <= i32::MAX
    }

    /// The far edges of the rectangle are coordinates: what a rectangle needs
    /// for its cells to be cells of a grid.
    pub open spec fn in_range(self) -> bool {
        self.x + self.w <= i32::MAX && self.y + self.h <= i32::MAX
    }

    /// The number of cells of a valid rectangle.
    pub open spec fn area(self) -> int {
        self.w * self.h
    }

    /// Every cell of `inner` is a cell of `self`.
    pub open spec fn encloses(self, inner: Rect) -> bool {
        &&& self.x <= inner.x
        &&& self.y <= inner.y
        &&& inner.x + inner.w <= self.x + self.w
        &&& inner.y + inner.h <= self.y + self.h
    }

    /// `inner` lies in `self` with at least one free cell on every side.
    pub open spec fn holds_with_margin(self, inner: Rect) -> bool {
        &&& inner.w > 0
        &&& inner.h > 0
        &&& self.x + 1 <= inner.x
        &&& self.y + 1 <= inner.y
        &&& inner.x + inner.w <= self.x + self.w - 1
        &&& inner.y + inner.h <= self.y + self.h - 1
    }

    /// The column of the middle cell.
    pub open spec fn center_x(self) -> int {
        self.x + self.w / 2
    }

    /// The row of the middle cell.
    pub open spec fn center_y(self) -> int {
        self.y + self.h / 2
    }

    pub fn new(x: i32, y: i32, w: i32, h: i32) -> (r: Rect)
        ensures
            r == (Rect { x, y, w, h }),
    {
        Rect { x, y, w, h }
    }

    /// Tests `valid` without overflow.
    pub fn is_valid(&self) -> (ok: bool)
        ensures
            ok == self.valid(),
    {
        self.w > 0 && self.h > 0 && self.x <= i32::MAX - self.w && self.y <= i32::MAX - self.h
    }

    /// Tests `in_range` without overflow.
    pub fn is_in_range(&self) -> (ok: bool)
        ensures
            ok == self.in_range(),
    {
        self.x as i64 + self.w as i64 <= i32::MAX as i64 && self.y as i64 + self.h as i64
            <= i32::MAX as i64
    }

    /// Whether the cell `(px, py)` lies in the rectangle.
    pub fn contains(&self, px: i32, py: i32) -> (inside: bool)
        ensures
            inside == self.has_cell(px as int, py as int),
    {
        let left: i64 = self.x as i64;
        let top: i64 = self.y as i64;
        let cx: i64 = px as i64;
        let cy: i64 = py as i64;
        left <= cx && cx < left + self.w as i64 && top <= cy && cy < top + self.h as i64
    }

    /// The middle cell; for an even extent the cell just past the middle.
    pub fn center(&self) -> (c: (i32, i32))
        requires
            self.valid(),
        ensures
            c.0 == self.center_x(),
            c.1 == self.center_y(),
            self.has_cell(c.0 as int, c.1 as int),
    {
        (self.x + self.w / 2, self.y + self.h / 2)
    }
}

} // verus!
