use crate::tile::Color;
use vstd::prelude::*;

verus! {

/// A gauge of `w` cells that shows `current` of `max`.
#[derive(Clone, Copy, Debug, PartialEq, Eq, Structural)]
pub struct Bar {
    pub x: u16,
    pub y: u16,
    pub w: u16,
    pub current: u32,
    pub max: u32,
    pub full_char: char,
    pub empty_char: char,
    pub fg: Color,
}

impl Bar {
    /// A gauge drawn with full and shaded blocks.
    pub fn new(x: u16, y: u16, w: u16, current: u32, max: u32, fg: Color) -> (bar: Bar)
        ensures
            bar == (Bar { x, y, w, current, max, full_char: '█', empty_char: '░', fg }),
    {
        Bar { x, y, w, current, max, full_char: '█', empty_char: '░', fg }
    }

    /// The cells that are left for the empty part when `filled` cells are
    /// full.
    pub fn empty_cells(&self, filled: u16) -> (empty: u16)
        ensures
            empty == if filled <= self.w {
                self.w - filled
            } else {
                0
            },
    {
        if filled <= self.w {
            self.w - filled
        } else {
            0
        }
    }
}

} // verus!
