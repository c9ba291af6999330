pub mod dungeon_area;
pub mod footprint;

use crate::bsp::{grown, lemma_rooms_enclosed, BspNode};
use crate::bsp_laws::{lemma_passages_enclosed, lemma_rooms_in_leaves};
use crate::connectivity::{floors_joined, lemma_carved_tree_connected};
use crate::dungeon_generator::dungeon_area::{
    all_in_range, carve, carved, lemma_with_corridors_cells, lemma_with_rooms_cells, some_has_cell,
    with_rooms, DungeonArea,
};
use crate::dungeon_generator::footprint::{
    all_movable, bounds, greatest_x, greatest_y, least_x, least_y, move_all, moved_all, on_level,
    select_level, Footprint,
};
use crate::error::GenerationError;
use crate::random::RandomSource;
use crate::rect::Rect;
use crate::tile::Tile;
use vstd::prelude::*;

verus! {

/// Builds dungeons from a seed.
pub struct DungeonGenerator {
    pub seed: u64,
}

/// Why a request for a partitioned dungeon is refused, if it is: a width or
/// height that is not positive; else a negative depth limit, a smallest room
/// below one cell, or one that does not fit the area together with the free
/// cell on each side of it.
pub open spec fn request_error(width: i32, height: i32, min_room_size: i32, max_depth: i32) -> Option<
    GenerationError,
> {
    if width <= 0 || height <= 0 {
        Some(GenerationError::InvalidDimensions)
    } else if max_depth < 0 || min_room_size < 1 || min_room_size + 2 > width || min_room_size + 2
        > height {
        Some(GenerationError::InvalidParameters)
    } else {
        None
    }
}

/// The partition tree of a dungeon with its rooms: the area is partitioned
/// from the start of the stream of `seed`, and the rooms are placed with the
/// words that follow.
pub open spec fn dungeon_tree(
    seed: u64,
    width: i32,
    height: i32,
    min_room_size: i32,
    max_depth: i32,
) -> BspNode {
    let tree = grown(Rect { x: 0, y: 0, w: width, h: height }, 0, min_room_size, max_depth, seed, 0);
    tree.0.with_rooms_from(seed, tree.1).0
}

/// The tiles of a dungeon: the rooms of the partition tree carved into an
/// empty grid, and over them its corridors.
pub open spec fn dungeon_tiles(
    seed: u64,
    width: i32,
    height: i32,
    min_room_size: i32,
    max_depth: i32,
) -> Map<(int, int), Tile> {
    let tree = dungeon_tree(seed, width, height, min_room_size, max_depth);
    carved(Map::empty(), tree.leaf_rooms(), tree.passages())
}

/// The level of a stored dungeon that is laid out.
pub const FIRST_LEVEL: i32 = 1;

/// Why stored rooms and passages cannot be laid out, if they cannot: no room
/// is on the first level; or the box around the rooms of that level is empty
/// or wider or higher than a grid can be, or a room or passage of that level,
/// seen from the corner of the box, reaches past the coordinates of a grid.
pub open spec fn layout_error(rooms: Seq<Footprint>, passages: Seq<Footprint>) -> Option<
    GenerationError,
> {
    let r = on_level(rooms, FIRST_LEVEL);
    let p = on_level(passages, FIRST_LEVEL);
    let ox = least_x(r);
    let oy = least_y(r);
    let width = greatest_x(r) - ox;
    let height = greatest_y(r) - oy;
    if r.len() == 0 {
        Some(GenerationError::NoRoomsProduced)
    } else if width <= 0 || height <= 0 || width > i32::MAX || height > i32::MAX || !all_movable(
        r,
        ox,
        oy,
    ) || !all_movable(p, ox, oy) {
        Some(GenerationError::InvalidDimensions)
    } else {
        None
    }
}

impl DungeonGenerator {
    pub fn new(seed: u64) -> (generator: DungeonGenerator)
        ensures
            generator.seed == seed,
    {
        DungeonGenerator { seed }
    }

    /// Lays out a stored dungeon: the grid is the box around the rooms of the
    /// first level, with the corner of the box as its origin; the rooms of
    /// that level are carved into it in their order, and over them the
    /// passages of that level in theirs. A passage may reach outside the box:
    /// its cells there are stored, but `get_tile` hands out the cells of the
    /// grid only.
    ///
    /// The layout is refused exactly where `layout_error` names an error.
    pub fn generate(&self, rooms: &Vec<Footprint>, passages: &Vec<Footprint>) -> (result: Result<
        DungeonArea,
        GenerationError,
    >)
        ensures
            match layout_error(rooms@, passages@) {
                Some(e) => result == Err::<DungeonArea, GenerationError>(e),
                None => {
                    let r = on_level(rooms@, FIRST_LEVEL);
                    let p = on_level(passages@, FIRST_LEVEL);
                    let ox = least_x(r);
                    let oy = least_y(r);
                    &&& result.is_ok()
                    &&& result.unwrap().spec_width() == greatest_x(r) - ox
                    &&& result.unwrap().spec_height() == greatest_y(r) - oy
                    &&& result.unwrap()@ == carved(
                        Map::empty(),
                        moved_all(r, ox, oy),
                        moved_all(p, ox, oy),
                    )
                },
            },
    {
        let level_rooms = select_level(rooms, FIRST_LEVEL);
        if level_rooms.len() == 0 {
            return Err(GenerationError::NoRoomsProduced);
        }
        let level_passages = select_level(passages, FIRST_LEVEL);
        let (min_x, min_y, max_x, max_y) = bounds(&level_rooms);
        let width: i64 = max_x - min_x;
        let height: i64 = max_y - min_y;
        if width <= 0 || height <= 0 || width > i32::MAX as i64 || height > i32::MAX as i64 {
            return Err(GenerationError::InvalidDimensions);
        }
        let room_rects = match move_all(&level_rooms, min_x, min_y) {
            Some(rects) => rects,
            None => {
                return Err(GenerationError::InvalidDimensions);
            },
        };
        let passage_rects = match move_all(&level_passages, min_x, min_y) {
            Some(rects) => rects,
            None => {
                return Err(GenerationError::InvalidDimensions);
            },
        };
        let mut area = DungeonArea::new(width as i32, height as i32);
        carve(&mut area, &room_rects, &passage_rects);
        Ok(area)
    }

    /// Generates a dungeon of `width` by `height` cells: partitions the area,
    /// places a room in every leaf, joins the rooms with corridors and carves
    /// rooms and corridors into the grid.
    ///
    /// The dungeon is a function of the seed and the four numbers: the same
    /// request gives the same tiles. A request is refused exactly where
    /// `request_error` names an error, and a dungeon that is returned is
    /// complete: all its tiles lie in the grid, and one can walk over floor
    /// from every floor cell to every other.
    pub fn generate_raw(&self, width: i32, height: i32, min_room_size: i32, max_depth: i32) -> (result:
        Result<DungeonArea, GenerationError>)
        ensures
            match request_error(width, height, min_room_size, max_depth) {
                Some(e) => result == Err::<DungeonArea, GenerationError>(e),
                None => {
                    &&& result.is_ok()
                    &&& result.unwrap()@ == dungeon_tiles(
                        self.seed,
                        width,
                        height,
                        min_room_size,
                        max_depth,
                    )
                    &&& result.unwrap().spec_width() == width
                    &&& result.unwrap().spec_height() == height
                    &&& result.unwrap().enclosed()
                    &&& floors_joined(result.unwrap()@)
                },
            },
    {
        if width <= 0 || height <= 0 {
            return Err(GenerationError::InvalidDimensions);
        }
        if max_depth < 0 || min_room_size < 1 || min_room_size > width - 2 || min_room_size > height
            - 2 {
            return Err(GenerationError::InvalidParameters);
        }
        let mut rng = RandomSource::new(self.seed);
        let frame = Rect { x: 0, y: 0, w: width, h: height };
        let mut root = BspNode::new(frame);
        match root.split(&mut rng, min_room_size, max_depth, 0) {
            Err(e) => {
                return Err(e);
            },
            Ok(_) => {},
        }
        match root.create_rooms(&mut rng) {
            Err(e) => {
                return Err(e);
            },
            Ok(_) => {},
        }
        let leaf_rooms = root.get_leaf_rooms();
        proof {
            lemma_rooms_in_leaves(root);
        }
        if leaf_rooms.len() == 0 {
            return Err(GenerationError::NoRoomsProduced);
        }
        let mut passages: Vec<Rect> = Vec::new();
        root.create_passages(&mut passages);
        assert(passages@ =~= root.passages());
        let mut area = DungeonArea::new(width, height);
        proof {
            lemma_rooms_enclosed(root);
            lemma_passages_enclosed(root);
            lemma_carved_tree_connected(root);
        }
        carve(&mut area, &leaf_rooms, &passages);
        proof {
            let empty = Map::<(int, int), Tile>::empty();
            assert forall|p: (int, int)| #[trigger] area@.contains_key(p) implies area.in_bounds(
                p.0,
                p.1,
            ) by {
                lemma_with_rooms_cells(empty, leaf_rooms@, p);
                lemma_with_corridors_cells(with_rooms(empty, leaf_rooms@), passages@, p);
                if some_has_cell(passages@, p) {
                    let j = choose|j: int|
                        0 <= j < passages@.len() && (#[trigger] passages@[j]).has_cell(p.0, p.1);
                    assert(frame.encloses(passages@[j]));
                } else {
                    let i = choose|i: int|
                        0 <= i < leaf_rooms@.len() && (#[trigger] leaf_rooms@[i]).has_cell(
                            p.0,
                            p.1,
                        );
                    assert(frame.encloses(leaf_rooms@[i]));
                }
            }
        }
        Ok(area)
    }
}

/// Generates the dungeon of `seed`; see `DungeonGenerator::generate_raw`.
pub fn generate_dungeon(
    seed: u64,
    width: i32,
    height: i32,
    min_room_size: i32,
    max_depth: i32,
) -> (result: Result<DungeonArea, GenerationError>)
    ensures
        match request_error(width, height, min_room_size, max_depth) {
            Some(e) => result == Err::<DungeonArea, GenerationError>(e),
            None => {
                &&& result.is_ok()
                &&& result.unwrap()@ == dungeon_tiles(
                    seed,
                    width,
                    height,
                    min_room_size,
                    max_depth,
                )
                &&& result.unwrap().spec_width() == width
                &&& result.unwrap().spec_height() == height
                &&& result.unwrap().enclosed()
                &&& floors_joined(result.unwrap()@)
            },
        },
{
    let generator = DungeonGenerator::new(seed);
    generator.generate_raw(width, height, min_room_size, max_depth)
}

/// Two dungeons generated for the same seed and the same four numbers have
/// the same tiles.
pub proof fn lemma_same_request_same_dungeon(
    a: DungeonArea,
    b: DungeonArea,
    seed: u64,
    width: i32,
    height: i32,
    min_room_size: i32,
    max_depth: i32,
)
    requires
        a@ == dungeon_tiles(seed, width, height, min_room_size, max_depth),
        b@ == dungeon_tiles(seed, width, height, min_room_size, max_depth),
    ensures
        a@ == b@,
{
}

/// A smallest room that is wider than the area or higher is refused as
/// `InvalidParameters`, whatever the depth limit.
pub proof fn lemma_oversized_room_is_refused(
    width: i32,
    height: i32,
    min_room_size: i32,
    max_depth: i32,
)
    requires
        width > 0,
        height > 0,
        min_room_size > width || min_room_size > height,
    ensures
        request_error(width, height, min_room_size, max_depth) == Some(
            GenerationError::InvalidParameters,
        ),
{
}

} // verus!
