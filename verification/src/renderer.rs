use vstd::prelude::*;

verus! {

/// The layout of the screen: its size, and the height of the part that shows
/// the map, which is the upper half.
pub struct Renderer {
    width: u16,
    height: u16,
    map_height: u16,
}

impl Renderer {
    pub closed spec fn width(&self) -> u16 {
        self.width
    }

    pub closed spec fn height(&self) -> u16 {
        self.height
    }

    pub closed spec fn map_height(&self) -> u16 {
        self.map_height
    }

    pub fn new(width: u16, height: u16) -> (renderer: Renderer)
        ensures
            renderer.width() == width,
            renderer.height() == height,
            renderer.map_height() == height / 2,
    {
        Renderer { width, height, map_height: height / 2 }
    }

    /// The width of the screen in cells.
    pub fn screen_width(&self) -> (w: u16)
        ensures
            w == self.width(),
    {
        self.width
    }

    /// The height of the screen in cells.
    pub fn screen_height(&self) -> (h: u16)
        ensures
            h == self.height(),
    {
        self.height
    }

    /// The height of the map's part of the screen.
    pub fn map_rows(&self) -> (h: u16)
        ensures
            h == self.map_height(),
    {
        self.map_height
    }
}

} // verus!
