use crate::tile::{Color, Tile};
use vstd::prelude::*;

verus! {

/// The kinds of terrain of a wilderness.
#[derive(Clone, Copy, Debug, Eq, Hash, PartialEq, Structural)]
pub enum WildernessTileType {
    Grass,
    Tree,
    Water,
    Rock,
    Dirt,
}

/// A cell of a wilderness: its terrain, and how it is drawn.
#[derive(Clone, Copy, Debug, PartialEq, Eq, Structural)]
pub struct WildernessTile {
    pub tile_type: WildernessTileType,
    pub tile: Tile,
}

impl WildernessTile {
    /// The cell of a terrain: each terrain has one symbol and one colour.
    pub open spec fn of_type(tile_type: WildernessTileType) -> WildernessTile {
        WildernessTile {
            tile_type,
            tile: match tile_type {
                WildernessTileType::Grass => Tile { symbol: '.', color: Color::Green },
                WildernessTileType::Tree => Tile { symbol: 'T', color: Color::DarkGreen },
                WildernessTileType::Water => Tile { symbol: '~', color: Color::Blue },
                WildernessTileType::Rock => Tile { symbol: 'o', color: Color::Grey },
                WildernessTileType::Dirt => Tile { symbol: ',', color: Color::Yellow },
            },
        }
    }

    pub fn new(tile_type: WildernessTileType) -> (cell: WildernessTile)
        ensures
            cell == WildernessTile::of_type(tile_type),
    {
        let tile = match tile_type {
            WildernessTileType::Grass => Tile::new('.', Color::Green),
            WildernessTileType::Tree => Tile::new('T', Color::DarkGreen),
            WildernessTileType::Water => Tile::new('~', Color::Blue),
            WildernessTileType::Rock => Tile::new('o', Color::Grey),
            WildernessTileType::Dirt => Tile::new(',', Color::Yellow),
        };
        WildernessTile { tile_type, tile }
    }
}

} // verus!
