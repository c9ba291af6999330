use crate::wilderness_generator::wilderness_tile::{WildernessTile, WildernessTileType};
use vstd::prelude::*;

verus! {

/// Whether the rows are `height` rows of `width` cells each.
pub open spec fn grid_complete(tiles: Seq<Vec<WildernessTile>>, width: int, height: int) -> bool {
    &&& tiles.len() == height
    &&& forall|y: int| 0 <= y < height ==> (#[trigger] tiles[y]).len() == width
}

/// The terrain of each cell of the rows.
pub open spec fn terrain_grid(tiles: Seq<Vec<WildernessTile>>) -> Seq<Seq<WildernessTileType>> {
    Seq::new(tiles.len(), |y: int| Seq::new(tiles[y].len() as nat, |x: int| tiles[y][x].tile_type))
}

/// A wilderness: a grid of `width` by `height` cells, stored row by row.
pub struct WildernessArea {
    pub width: i32,
    pub height: i32,
    pub tiles: Vec<Vec<WildernessTile>>,
}

impl WildernessArea {
    /// Whether `(x, y)` is a cell of the grid.
    pub open spec fn in_bounds(&self, x: int, y: int) -> bool {
        0 <= x < self.width && 0 <= y < self.height
    }

    /// Whether the rows hold a cell for `(x, y)`.
    pub open spec fn stored(&self, x: int, y: int) -> bool {
        0 <= y < self.tiles@.len() && 0 <= x < self.tiles@[y].len()
    }

    /// Every cell of the grid has a tile, and there is no tile besides them.
    pub open spec fn complete(&self) -> bool {
        grid_complete(self.tiles@, self.width as int, self.height as int)
    }

    /// The tile of the cell `(x, y)`; none outside the grid.
    pub fn get(&self, x: i32, y: i32) -> (cell: Option<&WildernessTile>)
        ensures
            cell.is_some() == (self.in_bounds(x as int, y as int) && self.stored(
                x as int,
                y as int,
            )),
            cell.is_some() ==> *cell.unwrap() == self.tiles@[y as int]@[x as int],
            self.complete() ==> cell.is_some() == self.in_bounds(x as int, y as int),
    {
        if x >= 0 && x < self.width && y >= 0 && y < self.height {
            if (y as usize) < self.tiles.len() {
                let row = &self.tiles[y as usize];
                if (x as usize) < row.len() {
                    Some(&row[x as usize])
                } else {
                    None
                }
            } else {
                None
            }
        } else {
            None
        }
    }

    /// Whether `(x, y)` is a cell of the grid.
    pub fn contains(&self, x: i32, y: i32) -> (inside: bool)
        ensures
            inside == self.in_bounds(x as int, y as int),
    {
        x >= 0 && x < self.width && y >= 0 && y < self.height
    }
}

} // verus!
