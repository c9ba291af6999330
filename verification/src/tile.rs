use vstd::prelude::*;

verus! {

/// The colours a terminal cell can be drawn in.
#[derive(Clone, Copy, Debug, PartialEq, Eq, Structural)]
pub enum Color {
    Reset,
    Black,
    DarkGrey,
    Red,
    DarkRed,
    Green,
    DarkGreen,
    Yellow,
    DarkYellow,
    Blue,
    DarkBlue,
    Magenta,
    DarkMagenta,
    Cyan,
    DarkCyan,
    White,
    Grey,
    Rgb { r: u8, g: u8, b: u8 },
    AnsiValue(u8),
}

/// The terrain of a hex of the world map, as far as drawing tells it apart.
#[derive(Clone, Copy, Debug, PartialEq, Eq, Structural)]
pub enum Terrain {
    Mountains,
    Hills,
    Plains,
    Swamp,
    Other,
}

/// What is drawn in one cell: a symbol and its colour.
#[derive(Clone, Copy, Debug, PartialEq, Eq, Structural)]
pub struct Tile {
    pub symbol: char,
    pub color: Color,
}

impl Tile {
    /// The tile that stands for a terrain on the world map.
    pub open spec fn of_terrain(terrain: Terrain) -> Tile {
        match terrain {
            Terrain::Mountains => Tile { symbol: '^', color: Color::DarkGrey },
            Terrain::Hills => Tile { symbol: 'n', color: Color::Grey },
            Terrain::Plains => Tile { symbol: '~', color: Color::Green },
            Terrain::Swamp => Tile { symbol: '"', color: Color::DarkYellow },
            Terrain::Other => Tile { symbol: '?', color: Color::White },
        }
    }

    /// A dungeon wall.
    pub open spec fn wall() -> Tile {
        Tile { symbol: '#', color: Color::White }
    }

    /// A dungeon floor.
    pub open spec fn floor() -> Tile {
        Tile { symbol: '.', color: Color::White }
    }

    pub fn new(symbol: char, color: Color) -> (t: Tile)
        ensures
            t == (Tile { symbol, color }),
    {
        Tile { symbol, color }
    }

    pub fn from_terrain_type(terrain: Terrain) -> (t: Tile)
        ensures
            t == Tile::of_terrain(terrain),
    {
        match terrain {
            Terrain::Mountains => Tile { symbol: '^', color: Color::DarkGrey },
            Terrain::Hills => Tile { symbol: 'n', color: Color::Grey },
            Terrain::Plains => Tile { symbol: '~', color: Color::Green },
            Terrain::Swamp => Tile { symbol: '"', color: Color::DarkYellow },
            Terrain::Other => Tile { symbol: '?', color: Color::White },
        }
    }
}

} // verus!
