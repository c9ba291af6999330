use vstd::prelude::*;

verus! {

/// The window of the world that is on screen: its top left corner in world
/// coordinates and its size in cells.
pub struct Camera {
    pub x: i32,
    pub y: i32,
    pub view_w: u16,
    pub view_h: u16,
}

impl Camera {
    /// The width of the window in cells.
    pub open spec fn view_width(&self) -> int {
        self.view_w as int
    }

    /// The height of the window in cells.
    pub open spec fn view_height(&self) -> int {
        self.view_h as int
    }

    /// Whether the world cell `(world_x, world_y)` is inside the window.
    pub open spec fn shows(&self, world_x: int, world_y: int) -> bool {
        &&& 0 <= world_x - self.x < self.view_width()
        &&& 0 <= world_y - self.y < self.view_height()
    }

    /// A window of `vw` by `vh` cells with its corner at the world's origin.
    pub fn new(vw: u16, vh: u16) -> (camera: Camera)
        ensures
            camera.x == 0,
            camera.y == 0,
            camera.view_width() == vw,
            camera.view_height() == vh,
    {
        Camera { x: 0, y: 0, view_w: vw, view_h: vh }
    }

    /// Moves the window so that the world cell `(world_x, world_y)` is at its
    /// middle. The size of the window stays as it is.
    pub fn center_on(&mut self, world_x: i32, world_y: i32)
        requires
            world_x - old(self).view_width() / 2 >= i32::MIN,
            world_y - old(self).view_height() / 2 >= i32::MIN,
        ensures
            final(self).x == world_x - old(self).view_width() / 2,
            final(self).y == world_y - old(self).view_height() / 2,
            final(self).view_width() == old(self).view_width(),
            final(self).view_height() == old(self).view_height(),
    {
        let half_w: i32 = (self.view_w / 2) as i32;
        let half_h: i32 = (self.view_h / 2) as i32;
        self.x = world_x - half_w;
        self.y = world_y - half_h;
    }

    /// The place on screen of a world cell: its offset from the corner of the
    /// window where the window shows it, and nothing where it does not.
    pub fn world_to_screen(&self, world_x: i32, world_y: i32) -> (place: Option<(u16, u16)>)
        ensures
            place.is_some() == self.shows(world_x as int, world_y as int),
            place.is_some() ==> place.unwrap().0 == world_x - self.x && place.unwrap().1 == world_y
                - self.y,
    {
        let screen_x: i64 = world_x as i64 - self.x as i64;
        let screen_y: i64 = world_y as i64 - self.y as i64;
        if screen_x >= 0 && screen_x < self.view_w as i64 && screen_y >= 0 && screen_y
            < self.view_h as i64 {
            Some((screen_x as u16, screen_y as u16))
        } else {
            None
        }
    }

    /// The world cell that is drawn at a place on screen, where its
    /// coordinates can be written; else nothing.
    pub fn screen_to_world(&self, screen_x: u16, screen_y: u16) -> (cell: Option<(i32, i32)>)
        ensures
            cell.is_some() == (self.x + screen_x <= i32::MAX && self.y + screen_y <= i32::MAX),
            cell.is_some() ==> cell.unwrap().0 == self.x + screen_x && cell.unwrap().1 == self.y
                + screen_y,
    {
        let world_x: i64 = self.x as i64 + screen_x as i64;
        let world_y: i64 = self.y as i64 + screen_y as i64;
        if world_x <= i32::MAX as i64 && world_y <= i32::MAX as i64 {
            Some((world_x as i32, world_y as i32))
        } else {
            None
        }
    }
}

} // verus!
