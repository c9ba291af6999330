pub mod wilderness_area;
pub mod wilderness_tile;

use crate::error::GenerationError;
use crate::random::{std_rng_word, RandomSource};
use crate::wilderness_generator::wilderness_area::{grid_complete, terrain_grid, WildernessArea};
use crate::wilderness_generator::wilderness_tile::{WildernessTile, WildernessTileType};
use vstd::prelude::*;

verus! {

/// A roll is a fraction of this many parts: the upper 24 bits of a word.
pub const ROLL_PARTS: u32 = 16_777_216;

/// The cells within this many cells of the border lean towards trees and
/// rock.
pub const EDGE_WIDTH: i32 = 3;

/// Rolls below this are trees away from the border: 0.15 of the parts.
pub const TREE_LIMIT: u32 = 2_516_583;

/// Rolls below this that are not trees are water: 0.25 of the parts.
pub const WATER_LIMIT: u32 = 4_194_304;

/// Rolls below this that are neither are rock away from the border: 0.35 of
/// the parts.
pub const ROCK_LIMIT: u32 = 5_872_026;

/// Rolls below this that are none of these are dirt: 0.45 of the parts. All
/// other rolls are grass.
pub const DIRT_LIMIT: u32 = 7_549_747;

/// The limit for trees near the border: 0.2 of the parts more.
pub const EDGE_TREE_LIMIT: u32 = 5_872_026;

/// The limit for rock near the border: 0.2 of the parts more.
pub const EDGE_ROCK_LIMIT: u32 = 9_227_469;

/// Builds wilderness regions from a seed.
pub struct WildernessGenerator {
    pub seed: u64,
}

/// The distance of the cell `(x, y)` from the nearest border of a grid of `w`
/// by `h` cells.
pub open spec fn edge_distance(x: int, y: int, w: int, h: int) -> int {
    let a = if x <= y {
        x
    } else {
        y
    };
    let b = if a <= w - x - 1 {
        a
    } else {
        w - x - 1
    };
    if b <= h - y - 1 {
        b
    } else {
        h - y - 1
    }
}

/// The roll of a word: its upper 24 bits.
pub open spec fn roll_of_word(word: u32) -> int {
    word as int / 256
}

/// The terrain of a roll. The limits are tried in order: trees, water, rock,
/// dirt, and what is left is grass. Near the border the limits of trees and
/// rock lie higher, the others stay.
pub open spec fn terrain_of_roll(roll: int, near_edge: bool) -> WildernessTileType {
    let tree = if near_edge {
        EDGE_TREE_LIMIT
    } else {
        TREE_LIMIT
    };
    let rock = if near_edge {
        EDGE_ROCK_LIMIT
    } else {
        ROCK_LIMIT
    };
    if roll < tree {
        WildernessTileType::Tree
    } else if roll < WATER_LIMIT {
        WildernessTileType::Water
    } else if roll < rock {
        WildernessTileType::Rock
    } else if roll < DIRT_LIMIT {
        WildernessTileType::Dirt
    } else {
        WildernessTileType::Grass
    }
}

/// The terrain that a word gives the cell `(x, y)` of a grid of `w` by `h`
/// cells.
pub open spec fn terrain_of_word(word: u32, x: int, y: int, w: int, h: int) -> WildernessTileType {
    terrain_of_roll(roll_of_word(word), edge_distance(x, y, w, h) < EDGE_WIDTH)
}

/// The terrain of each cell before smoothing: the cells take the words of
/// the stream of `seed` row by row.
pub open spec fn raw_grid(seed: u64, w: int, h: int) -> Seq<Seq<WildernessTileType>> {
    Seq::new(
        h as nat,
        |y: int|
            Seq::new(
                w as nat,
                |x: int| terrain_of_word(std_rng_word(seed, (y * w + x) as nat), x, y, w, h),
            ),
    )
}

/// One if `(x, y)` is a cell of the grid and has the terrain `t`, else zero:
/// what a neighbour adds to the count of `t`.
pub open spec fn counts_as(grid: Seq<Seq<WildernessTileType>>, x: int, y: int, t: WildernessTileType) -> int {
    if 0 <= y < grid.len() && 0 <= x < grid[y].len() && grid[y][x] == t {
        1
    } else {
        0
    }
}

/// How many of the up to eight cells around `(x, y)` have the terrain `t`.
/// What lies outside the grid is not counted.
pub open spec fn neighbor_count(
    grid: Seq<Seq<WildernessTileType>>,
    x: int,
    y: int,
    t: WildernessTileType,
) -> int {
    counts_as(grid, x - 1, y - 1, t) + counts_as(grid, x, y - 1, t) + counts_as(
        grid,
        x + 1,
        y - 1,
        t,
    ) + counts_as(grid, x - 1, y, t) + counts_as(grid, x + 1, y, t) + counts_as(
        grid,
        x - 1,
        y + 1,
        t,
    ) + counts_as(grid, x, y + 1, t) + counts_as(grid, x + 1, y + 1, t)
}

/// The smallest count that makes a terrain prevail around a cell. Two
/// terrains cannot both reach it among eight neighbours.
pub const MAJORITY: usize = 5;

/// The terrain that prevails around `(x, y)`, if one does.
pub open spec fn prevailing(grid: Seq<Seq<WildernessTileType>>, x: int, y: int) -> Option<
    WildernessTileType,
> {
    if neighbor_count(grid, x, y, WildernessTileType::Grass) >= MAJORITY {
        Some(WildernessTileType::Grass)
    } else if neighbor_count(grid, x, y, WildernessTileType::Tree) >= MAJORITY {
        Some(WildernessTileType::Tree)
    } else if neighbor_count(grid, x, y, WildernessTileType::Water) >= MAJORITY {
        Some(WildernessTileType::Water)
    } else if neighbor_count(grid, x, y, WildernessTileType::Rock) >= MAJORITY {
        Some(WildernessTileType::Rock)
    } else if neighbor_count(grid, x, y, WildernessTileType::Dirt) >= MAJORITY {
        Some(WildernessTileType::Dirt)
    } else {
        None
    }
}

/// The terrain of `(x, y)` after smoothing: the terrain that prevails around
/// the cell, and the cell's own where none does.
pub open spec fn smoothed(grid: Seq<Seq<WildernessTileType>>, x: int, y: int) -> WildernessTileType {
    match prevailing(grid, x, y) {
        Some(t) => t,
        None => grid[y][x],
    }
}

/// The terrain of the cell `(x, y)` of the wilderness of `seed`.
pub open spec fn wilderness_terrain(seed: u64, w: int, h: int, x: int, y: int) -> WildernessTileType {
    smoothed(raw_grid(seed, w, h), x, y)
}

/// Whether `area` is the wilderness of `seed` with `width` by `height` cells:
/// it has that size, every cell of the grid has a tile, and the tile of each
/// cell is that of its terrain.
pub open spec fn is_wilderness_of(area: WildernessArea, seed: u64, width: i32, height: i32) -> bool {
    &&& area.width == width
    &&& area.height == height
    &&& area.complete()
    &&& forall|x: int, y: int|
        0 <= x < width && 0 <= y < height ==> #[trigger] area.tiles@[y]@[x]
            == WildernessTile::of_type(
            wilderness_terrain(seed, width as int, height as int, x, y),
        )
}

/// How often each terrain occurs around a cell.
#[derive(Clone, Copy, Debug, PartialEq, Eq, Structural)]
pub struct NeighborCounts {
    pub grass: usize,
    pub tree: usize,
    pub water: usize,
    pub rock: usize,
    pub dirt: usize,
}

impl NeighborCounts {
    /// The count of one terrain.
    pub open spec fn of(self, t: WildernessTileType) -> int {
        match t {
            WildernessTileType::Grass => self.grass as int,
            WildernessTileType::Tree => self.tree as int,
            WildernessTileType::Water => self.water as int,
            WildernessTileType::Rock => self.rock as int,
            WildernessTileType::Dirt => self.dirt as int,
        }
    }

    /// The number of cells counted.
    pub open spec fn total(self) -> int {
        self.grass + self.tree + self.water + self.rock + self.dirt
    }

    /// The counts are those of the cells around `(x, y)`.
    pub open spec fn counts_around(self, grid: Seq<Seq<WildernessTileType>>, x: int, y: int) -> bool {
        forall|t: WildernessTileType| self.of(t) == #[trigger] neighbor_count(grid, x, y, t)
    }

    /// Counts the cell `(nx, ny)` if it lies in the grid.
    fn tally(&mut self, tiles: &Vec<Vec<WildernessTile>>, nx: i32, ny: i32, w: i32, h: i32)
        requires
            grid_complete(tiles@, w as int, h as int),
            old(self).total() < 8,
        ensures
            forall|t: WildernessTileType|
                final(self).of(t) == old(self).of(t) + #[trigger] counts_as(
                    terrain_grid(tiles@),
                    nx as int,
                    ny as int,
                    t,
                ),
            final(self).total() <= old(self).total() + 1,
    {
        if nx >= 0 && nx < w && ny >= 0 && ny < h {
            let tile_type = tiles[ny as usize][nx as usize].tile_type;
            assert(terrain_grid(tiles@)[ny as int][nx as int] == tile_type);
            match tile_type {
                WildernessTileType::Grass => {
                    self.grass = self.grass + 1;
                },
                WildernessTileType::Tree => {
                    self.tree = self.tree + 1;
                },
                WildernessTileType::Water => {
                    self.water = self.water + 1;
                },
                WildernessTileType::Rock => {
                    self.rock = self.rock + 1;
                },
                WildernessTileType::Dirt => {
                    self.dirt = self.dirt + 1;
                },
            }
        }
    }

    /// The terrain whose count reaches the majority, if one does.
    pub fn prevailing(&self) -> (winner: Option<WildernessTileType>)
        ensures
            winner == if self.grass >= MAJORITY {
                Some(WildernessTileType::Grass)
            } else if self.tree >= MAJORITY {
                Some(WildernessTileType::Tree)
            } else if self.water >= MAJORITY {
                Some(WildernessTileType::Water)
            } else if self.rock >= MAJORITY {
                Some(WildernessTileType::Rock)
            } else if self.dirt >= MAJORITY {
                Some(WildernessTileType::Dirt)
            } else {
                None::<WildernessTileType>
            },
    {
        if self.grass >= MAJORITY {
            Some(WildernessTileType::Grass)
        } else if self.tree >= MAJORITY {
            Some(WildernessTileType::Tree)
        } else if self.water >= MAJORITY {
            Some(WildernessTileType::Water)
        } else if self.rock >= MAJORITY {
            Some(WildernessTileType::Rock)
        } else if self.dirt >= MAJORITY {
            Some(WildernessTileType::Dirt)
        } else {
            None
        }
    }
}

impl WildernessGenerator {
    pub fn new(seed: u64) -> (generator: WildernessGenerator)
        ensures
            generator.seed == seed,
    {
        WildernessGenerator { seed }
    }

    /// Generates a wilderness of `width` by `height` cells: every cell gets
    /// the terrain of its roll, then one smoothing pass over the whole grid
    /// gives a cell the terrain that prevails around it. The pass reads the
    /// rolled grid only.
    ///
    /// The region is a function of the seed and the two numbers. A width or
    /// height that is not positive is refused, and nothing else is.
    pub fn generate(&self, width: i32, height: i32) -> (result: Result<
        WildernessArea,
        GenerationError,
    >)
        ensures
            width <= 0 || height <= 0 ==> result == Err::<WildernessArea, GenerationError>(
                GenerationError::InvalidDimensions,
            ),
            width > 0 && height > 0 ==> result.is_ok() && is_wilderness_of(
                result.unwrap(),
                self.seed,
                width,
                height,
            ),
    {
        if width <= 0 || height <= 0 {
            return Err(GenerationError::InvalidDimensions);
        }
        let mut rng = RandomSource::new(self.seed);
        let mut tiles: Vec<Vec<WildernessTile>> = Vec::with_capacity(height as usize);
        let ghost raw = raw_grid(self.seed, width as int, height as int);
        let mut y: i32 = 0;
        while y < height
            invariant
                0 < width,
                0 <= y <= height,
                rng.seed() == self.seed,
                rng.drawn() == y * width,
                raw == raw_grid(self.seed, width as int, height as int),
                grid_complete(tiles@, width as int, y as int),
                forall|j: int, i: int|
                    0 <= j < y && 0 <= i < width ==> #[trigger] tiles@[j]@[i]
                        == WildernessTile::of_type(raw[j][i]),
            decreases height - y,
        {
            let mut row: Vec<WildernessTile> = Vec::with_capacity(width as usize);
            let mut x: i32 = 0;
            while x < width
                invariant
                    0 < width,
                    0 <= y < height,
                    0 <= x <= width,
                    rng.seed() == self.seed,
                    rng.drawn() == y * width + x,
                    raw == raw_grid(self.seed, width as int, height as int),
                    row@.len() == x,
                    forall|i: int|
                        0 <= i < x ==> #[trigger] row@[i] == WildernessTile::of_type(
                            raw[y as int][i],
                        ),
                decreases width - x,
            {
                let tile_type = self.generate_tile(&mut rng, x, y, width, height);
                row.push(WildernessTile::new(tile_type));
                x = x + 1;
            }
            assert((y + 1) * width == y * width + width) by (nonlinear_arith);
            tiles.push(row);
            y = y + 1;
        }
        let smooth = self.smooth_tiles(tiles, width, height);
        proof {
            assert(terrain_grid(tiles@) =~~= raw);
        }
        Ok(WildernessArea { width, height, tiles: smooth })
    }

    /// Rolls the terrain of the cell `(x, y)` of a grid of `w` by `h` cells
    /// with the next word of the stream.
    pub fn generate_tile(&self, rng: &mut RandomSource, x: i32, y: i32, w: i32, h: i32) -> (terrain:
        WildernessTileType)
        ensures
            terrain == terrain_of_word(
                std_rng_word(old(rng).seed(), old(rng).drawn()),
                x as int,
                y as int,
                w as int,
                h as int,
            ),
            final(rng).seed() == old(rng).seed(),
            final(rng).drawn() == old(rng).drawn() + 1,
    {
        let roll: u32 = rng.word() / 256;
        terrain_for_roll(roll, is_near_edge(x, y, w, h))
    }

    /// One smoothing pass: a new grid in which every cell around which a
    /// terrain prevails has that terrain, and every other cell is as it was.
    pub fn smooth_tiles(&self, tiles: Vec<Vec<WildernessTile>>, w: i32, h: i32) -> (smooth: Vec<
        Vec<WildernessTile>,
    >)
        requires
            grid_complete(tiles@, w as int, h as int),
        ensures
            grid_complete(smooth@, w as int, h as int),
            forall|x: int, y: int|
                0 <= x < w && 0 <= y < h ==> #[trigger] smooth@[y]@[x] == (match prevailing(
                    terrain_grid(tiles@),
                    x,
                    y,
                ) {
                    Some(t) => WildernessTile::of_type(t),
                    None => tiles@[y]@[x],
                }),
    {
        let mut smooth: Vec<Vec<WildernessTile>> = Vec::new();
        let mut y: i32 = 0;
        while y < h
            invariant
                0 <= y <= h,
                grid_complete(tiles@, w as int, h as int),
                smooth@.len() == y,
                forall|j: int| 0 <= j < y ==> (#[trigger] smooth@[j]).len() == w,
                forall|i: int, j: int|
                    0 <= i < w && 0 <= j < y ==> #[trigger] smooth@[j]@[i] == (match prevailing(
                        terrain_grid(tiles@),
                        i,
                        j,
                    ) {
                        Some(t) => WildernessTile::of_type(t),
                        None => tiles@[j]@[i],
                    }),
            decreases h - y,
        {
            assert(tiles@[y as int].len() == w);
            let mut row: Vec<WildernessTile> = Vec::new();
            let mut x: i32 = 0;
            while x < w
                invariant
                    0 <= y < h,
                    0 <= x <= w,
                    grid_complete(tiles@, w as int, h as int),
                    row@.len() == x,
                    forall|i: int|
                        0 <= i < x ==> #[trigger] row@[i] == (match prevailing(
                            terrain_grid(tiles@),
                            i,
                            y as int,
                        ) {
                            Some(t) => WildernessTile::of_type(t),
                            None => tiles@[y as int]@[i],
                        }),
                decreases w - x,
            {
                let counts = self.count_neighbors(&tiles, x, y, w, h);
                let cell = match counts.prevailing() {
                    Some(t) => WildernessTile::new(t),
                    None => tiles[y as usize][x as usize],
                };
                row.push(cell);
                x = x + 1;
            }
            smooth.push(row);
            y = y + 1;
        }
        smooth
    }

    /// Counts the terrains of the up to eight cells around `(x, y)`.
    pub fn count_neighbors(&self, tiles: &Vec<Vec<WildernessTile>>, x: i32, y: i32, w: i32, h: i32) -> (counts:
        NeighborCounts)
        requires
            grid_complete(tiles@, w as int, h as int),
            0 <= x < w,
            0 <= y < h,
        ensures
            counts.counts_around(terrain_grid(tiles@), x as int, y as int),
    {
        let mut counts = NeighborCounts { grass: 0, tree: 0, water: 0, rock: 0, dirt: 0 };
        counts.tally(tiles, x - 1, y - 1, w, h);
        counts.tally(tiles, x, y - 1, w, h);
        counts.tally(tiles, x + 1, y - 1, w, h);
        counts.tally(tiles, x - 1, y, w, h);
        counts.tally(tiles, x + 1, y, w, h);
        counts.tally(tiles, x - 1, y + 1, w, h);
        counts.tally(tiles, x, y + 1, w, h);
        counts.tally(tiles, x + 1, y + 1, w, h);
        counts
    }
}

/// Whether the cell `(x, y)` of a grid of `w` by `h` cells is near the
/// border.
pub fn is_near_edge(x: i32, y: i32, w: i32, h: i32) -> (near: bool)
    ensures
        near == (edge_distance(x as int, y as int, w as int, h as int) < EDGE_WIDTH),
{
    let right: i64 = w as i64 - x as i64 - 1;
    let below: i64 = h as i64 - y as i64 - 1;
    let mut edge_dist: i64 = if x <= y {
        x as i64
    } else {
        y as i64
    };
    if right < edge_dist {
        edge_dist = right;
    }
    if below < edge_dist {
        edge_dist = below;
    }
    edge_dist < EDGE_WIDTH as i64
}

/// The terrain of a roll, near the border or away from it.
pub fn terrain_for_roll(roll: u32, near_edge: bool) -> (terrain: WildernessTileType)
    ensures
        terrain == terrain_of_roll(roll as int, near_edge),
{
    let tree_limit: u32 = if near_edge {
        EDGE_TREE_LIMIT
    } else {
        TREE_LIMIT
    };
    let rock_limit: u32 = if near_edge {
        EDGE_ROCK_LIMIT
    } else {
        ROCK_LIMIT
    };
    if roll < tree_limit {
        WildernessTileType::Tree
    } else if roll < WATER_LIMIT {
        WildernessTileType::Water
    } else if roll < rock_limit {
        WildernessTileType::Rock
    } else if roll < DIRT_LIMIT {
        WildernessTileType::Dirt
    } else {
        WildernessTileType::Grass
    }
}

/// Near the border a roll that gives a tree or rock away from it still gives
/// one of the two: the border never has less of them, roll by roll.
pub proof fn lemma_edge_keeps_trees_and_rock(roll: int)
    ensures
        terrain_of_roll(roll, false) == WildernessTileType::Tree || terrain_of_roll(roll, false)
            == WildernessTileType::Rock ==> terrain_of_roll(roll, true) == WildernessTileType::Tree
            || terrain_of_roll(roll, true) == WildernessTileType::Rock,
{
}

/// A cell counts for one terrain only.
proof fn lemma_cell_counts_once(
    grid: Seq<Seq<WildernessTileType>>,
    x: int,
    y: int,
    s: WildernessTileType,
    t: WildernessTileType,
)
    requires
        s != t,
    ensures
        counts_as(grid, x, y, s) + counts_as(grid, x, y, t) <= 1,
{
}

/// Among the up to eight cells around a cell two terrains cannot both reach
/// the majority.
pub proof fn lemma_majority_is_unique(
    grid: Seq<Seq<WildernessTileType>>,
    x: int,
    y: int,
    s: WildernessTileType,
    t: WildernessTileType,
)
    requires
        neighbor_count(grid, x, y, s) >= MAJORITY,
        neighbor_count(grid, x, y, t) >= MAJORITY,
    ensures
        s == t,
{
    if s != t {
        lemma_cell_counts_once(grid, x - 1, y - 1, s, t);
        lemma_cell_counts_once(grid, x, y - 1, s, t);
        lemma_cell_counts_once(grid, x + 1, y - 1, s, t);
        lemma_cell_counts_once(grid, x - 1, y, s, t);
        lemma_cell_counts_once(grid, x + 1, y, s, t);
        lemma_cell_counts_once(grid, x - 1, y + 1, s, t);
        lemma_cell_counts_once(grid, x, y + 1, s, t);
        lemma_cell_counts_once(grid, x + 1, y + 1, s, t);
    }
}

/// A terrain that reaches the majority around a cell is the one that
/// prevails there: the order in which the terrains are tried decides
/// nothing.
pub proof fn lemma_one_terrain_prevails(
    grid: Seq<Seq<WildernessTileType>>,
    x: int,
    y: int,
    s: WildernessTileType,
)
    requires
        neighbor_count(grid, x, y, s) >= MAJORITY,
    ensures
        prevailing(grid, x, y) == Some(s),
{
    if neighbor_count(grid, x, y, WildernessTileType::Grass) >= MAJORITY {
        lemma_majority_is_unique(grid, x, y, s, WildernessTileType::Grass);
    }
    if neighbor_count(grid, x, y, WildernessTileType::Tree) >= MAJORITY {
        lemma_majority_is_unique(grid, x, y, s, WildernessTileType::Tree);
    }
    if neighbor_count(grid, x, y, WildernessTileType::Water) >= MAJORITY {
        lemma_majority_is_unique(grid, x, y, s, WildernessTileType::Water);
    }
    if neighbor_count(grid, x, y, WildernessTileType::Rock) >= MAJORITY {
        lemma_majority_is_unique(grid, x, y, s, WildernessTileType::Rock);
    }
    if neighbor_count(grid, x, y, WildernessTileType::Dirt) >= MAJORITY {
        lemma_majority_is_unique(grid, x, y, s, WildernessTileType::Dirt);
    }
}

/// Generates the wilderness of `seed`; see `WildernessGenerator::generate`.
pub fn generate_wilderness(seed: u64, width: i32, height: i32) -> (result: Result<
    WildernessArea,
    GenerationError,
>)
    ensures
        width <= 0 || height <= 0 ==> result == Err::<WildernessArea, GenerationError>(
            GenerationError::InvalidDimensions,
        ),
        width > 0 && height > 0 ==> result.is_ok() && is_wilderness_of(
            result.unwrap(),
            seed,
            width,
            height,
        ),
{
    let generator = WildernessGenerator::new(seed);
    generator.generate(width, height)
}

/// Two regions generated for the same seed and size have the same tile in
/// every cell, and every cell of the grid has one.
pub proof fn lemma_same_request_same_wilderness(
    a: WildernessArea,
    b: WildernessArea,
    seed: u64,
    width: i32,
    height: i32,
)
    requires
        is_wilderness_of(a, seed, width, height),
        is_wilderness_of(b, seed, width, height),
    ensures
        a.tiles@.len() == b.tiles@.len(),
        forall|x: int, y: int|
            a.in_bounds(x, y) ==> a.stored(x, y) && b.stored(x, y) && #[trigger] a.tiles@[y]@[x]
                == b.tiles@[y]@[x],
{
    assert forall|x: int, y: int| a.in_bounds(x, y) implies a.stored(x, y) && b.stored(x, y)
        && #[trigger] a.tiles@[y]@[x] == b.tiles@[y]@[x] by {
        assert(a.tiles@[y].len() == width);
        assert(b.tiles@[y].len() == width);
        assert(b.tiles@[y]@[x] == WildernessTile::of_type(
            wilderness_terrain(seed, width as int, height as int, x, y),
        ));
    }
}

} // verus!
