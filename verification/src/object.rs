use crate::tile::Tile;
use vstd::prelude::*;

verus! {

/// A thing on the screen: its tile and its place.
#[derive(Clone, Copy, Debug, PartialEq, Eq, Structural)]
pub struct Object {
    pub tile: Tile,
    pub x: u16,
    pub y: u16,
}

impl Object {
    pub fn new(tile: Tile, x: u16, y: u16) -> (object: Object)
        ensures
            object == (Object { tile, x, y }),
    {
        Object { tile, x, y }
    }
}

} // verus!
