use vstd::prelude::*;

verus! {

/// A labelled gauge: a label, a bar of `bar_width` cells and the two numbers.
pub struct StatBar {
    pub x: u16,
    pub y: u16,
    pub label: String,
    pub current: u32,
    pub max: u32,
    pub bar_width: u16,
}

impl StatBar {
    pub fn new(x: u16, y: u16, label: String, current: u32, max: u32, bar_width: u16) -> (bar:
        StatBar)
        ensures
            bar.x == x,
            bar.y == y,
            bar.label == label,
            bar.current == current,
            bar.max == max,
            bar.bar_width == bar_width,
    {
        StatBar { x, y, label, current, max, bar_width }
    }

    /// The column where the bar starts, behind the label and its colon,
    /// where the screen's columns reach that far. `label_width` is the width
    /// of the label as it is written.
    pub fn bar_column(&self, label_width: usize) -> (column: Option<u16>)
        ensures
            column.is_some() == (self.x + label_width + 2 <= u16::MAX),
            column.is_some() ==> column.unwrap() == self.x + label_width + 2,
    {
        if label_width <= u16::MAX as usize - 2 && self.x as usize + label_width + 2
            <= u16::MAX as usize {
            Some((self.x as usize + label_width + 2) as u16)
        } else {
            None
        }
    }

    /// The column where the two numbers start, one cell behind the bar.
    pub fn value_column(&self, bar_column: u16) -> (column: Option<u16>)
        ensures
            column.is_some() == (bar_column + self.bar_width + 1 <= u16::MAX),
            column.is_some() ==> column.unwrap() == bar_column + self.bar_width + 1,
    {
        let at: u32 = bar_column as u32 + self.bar_width as u32 + 1;
        if at <= u16::MAX as u32 {
            Some(at as u16)
        } else {
            None
        }
    }
}

} // verus!
