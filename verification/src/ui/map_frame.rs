use vstd::prelude::*;

verus! {

/// The framed part of the screen that shows the map: a box of `w` by `h`
/// cells with its corner at `(x, y)`. The map is drawn inside the frame.
#[derive(Clone, Copy, Debug, PartialEq, Eq, Structural)]
pub struct MapFrame {
    pub x: u16,
    pub y: u16,
    pub w: u16,
    pub h: u16,
}

impl MapFrame {
    pub fn new(x: u16, y: u16, w: u16, h: u16) -> (frame: MapFrame)
        ensures
            frame == (MapFrame { x, y, w, h }),
    {
        MapFrame { x, y, w, h }
    }

    /// How many cells of the map fit inside the frame, across and down.
    pub fn inner_size(&self) -> (size: (u16, u16))
        ensures
            size.0 == if self.w >= 2 {
                self.w - 2
            } else {
                0
            },
            size.1 == if self.h >= 2 {
                self.h - 2
            } else {
                0
            },
    {
        let across: u16 = if self.w >= 2 {
            self.w - 2
        } else {
            0
        };
        let down: u16 = if self.h >= 2 {
            self.h - 2
        } else {
            0
        };
        (across, down)
    }
}

} // verus!
