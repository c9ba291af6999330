use vstd::prelude::*;

verus! {

/// The six characters a box is drawn with.
#[derive(Clone, Copy, Debug, PartialEq, Eq, Structural)]
pub struct BorderStyle {
    pub top_left: char,
    pub top_right: char,
    pub bottom_left: char,
    pub bottom_right: char,
    pub horizontal: char,
    pub vertical: char,
}

impl BorderStyle {
    /// The frame of single lines.
    pub open spec fn spec_single() -> BorderStyle {
        BorderStyle {
            top_left: '┌',
            top_right: '┐',
            bottom_left: '└',
            bottom_right: '┘',
            horizontal: '─',
            vertical: '│',
        }
    }

    /// The frame of double lines.
    pub open spec fn spec_double() -> BorderStyle {
        BorderStyle {
            top_left: '╔',
            top_right: '╗',
            bottom_left: '╚',
            bottom_right: '╝',
            horizontal: '═',
            vertical: '║',
        }
    }

    pub fn single() -> (style: BorderStyle)
        ensures
            style == BorderStyle::spec_single(),
    {
        BorderStyle {
            top_left: '┌',
            top_right: '┐',
            bottom_left: '└',
            bottom_right: '┘',
            horizontal: '─',
            vertical: '│',
        }
    }

    pub fn double() -> (style: BorderStyle)
        ensures
            style == BorderStyle::spec_double(),
    {
        BorderStyle {
            top_left: '╔',
            top_right: '╗',
            bottom_left: '╚',
            bottom_right: '╝',
            horizontal: '═',
            vertical: '║',
        }
    }
}

} // verus!
