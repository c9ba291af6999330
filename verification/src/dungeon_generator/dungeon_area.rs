use crate::cell_key::{cell_key, is_cell, key_of};
use crate::rect::Rect;
use crate::tile::Tile;
use std::collections::HashMap;
use vstd::prelude::*;

verus! {

broadcast use vstd::std_specs::hash::group_hash_axioms;

/// The tile a rectangle puts on its cell `(px, py)`. A walled rectangle that
/// has an interior gets a wall on its border and floor inside; any other
/// rectangle is floor all over.
pub open spec fn painted_tile(r: Rect, walled: bool, px: int, py: int) -> Tile {
    if walled && r.w >= 3 && r.h >= 3 && (px == r.x || px == r.x + r.w - 1 || py == r.y || py
        == r.y + r.h - 1) {
        Tile::wall()
    } else {
        Tile::floor()
    }
}

/// Whether `(px, py)` comes before `(col, row)` when cells are taken row by
/// row.
pub open spec fn comes_before(px: int, py: int, row: int, col: int) -> bool {
    py < row || (py == row && px < col)
}

/// The tiles after the cells of `r` that come before `(col, row)` have been
/// painted over `tiles`.
pub open spec fn painted_upto(
    tiles: Map<(int, int), Tile>,
    r: Rect,
    walled: bool,
    row: int,
    col: int,
) -> Map<(int, int), Tile> {
    Map::new(
        |p: (int, int)|
            tiles.contains_key(p) || (r.has_cell(p.0, p.1) && comes_before(p.0, p.1, row, col)),
        |p: (int, int)|
            if r.has_cell(p.0, p.1) && comes_before(p.0, p.1, row, col) {
                painted_tile(r, walled, p.0, p.1)
            } else {
                tiles[p]
            },
    )
}

/// The tiles after all of `r` has been painted over `tiles`: the cells of `r`
/// hold what `r` puts there, every other cell is as it was.
pub open spec fn painted(tiles: Map<(int, int), Tile>, r: Rect, walled: bool) -> Map<
    (int, int),
    Tile,
> {
    Map::new(
        |p: (int, int)| tiles.contains_key(p) || r.has_cell(p.0, p.1),
        |p: (int, int)|
            if r.has_cell(p.0, p.1) {
                painted_tile(r, walled, p.0, p.1)
            } else {
                tiles[p]
            },
    )
}

/// The tiles after the rooms have been carved one after the other, a later
/// room over an earlier one.
pub open spec fn with_rooms(tiles: Map<(int, int), Tile>, rooms: Seq<Rect>) -> Map<
    (int, int),
    Tile,
>
    decreases rooms.len(),
{
    if rooms.len() == 0 {
        tiles
    } else {
        painted(with_rooms(tiles, rooms.drop_last()), rooms.last(), true)
    }
}

/// The tiles after the corridors have been carved one after the other.
pub open spec fn with_corridors(tiles: Map<(int, int), Tile>, corridors: Seq<Rect>) -> Map<
    (int, int),
    Tile,
>
    decreases corridors.len(),
{
    if corridors.len() == 0 {
        tiles
    } else {
        painted(with_corridors(tiles, corridors.drop_last()), corridors.last(), false)
    }
}

/// The tiles after carving: first all rooms, then all corridors, so that a
/// corridor opens every wall it crosses.
pub open spec fn carved(tiles: Map<(int, int), Tile>, rooms: Seq<Rect>, corridors: Seq<Rect>) -> Map<
    (int, int),
    Tile,
> {
    with_corridors(with_rooms(tiles, rooms), corridors)
}

/// Every rectangle of the sequence has its far edges inside the coordinate
/// range.
pub open spec fn all_in_range(rects: Seq<Rect>) -> bool {
    forall|i: int| 0 <= i < rects.len() ==> (#[trigger] rects[i]).in_range()
}

/// The tiles of the carved cells, each held under the number of its cell.
/// Its view maps each carved cell to its tile.
#[derive(Debug)]
pub struct TileStore {
    cells: HashMap<u64, Tile>,
}

impl View for TileStore {
    type V = Map<(int, int), Tile>;

    closed spec fn view(&self) -> Map<(int, int), Tile> {
        Map::new(
            |p: (int, int)| is_cell(p.0, p.1) && self.cells@.contains_key(cell_key(p.0, p.1) as u64),
            |p: (int, int)| self.cells@[cell_key(p.0, p.1) as u64],
        )
    }
}

impl TileStore {
    /// A store without tiles.
    pub fn new() -> (store: TileStore)
        ensures
            store@ == Map::<(int, int), Tile>::empty(),
    {
        let store = TileStore { cells: HashMap::new() };
        assert(store@ =~= Map::<(int, int), Tile>::empty());
        store
    }

    /// Puts `tile` on the cell `(x, y)`, over what was there.
    pub fn put(&mut self, x: i32, y: i32, tile: Tile)
        ensures
            final(self)@ == old(self)@.insert((x as int, y as int), tile),
    {
        let k: u64 = key_of(x, y);
        self.cells.insert(k, tile);
        assert(self@ =~= old(self)@.insert((x as int, y as int), tile));
    }

    /// The tile on the cell `(x, y)`, if there is one.
    pub fn at(&self, x: i32, y: i32) -> (tile: Option<&Tile>)
        ensures
            tile.is_some() == self@.contains_key((x as int, y as int)),
            tile.is_some() ==> *tile.unwrap() == self@[(x as int, y as int)],
    {
        let k: u64 = key_of(x, y);
        self.cells.get(&k)
    }
}

/// A dungeon: a grid of `width` by `height` cells of which only the carved
/// ones hold a tile. Its view maps each carved cell to its tile. A tile may
/// be stored outside the grid, but only the cells of the grid are handed
/// out.
#[derive(Debug)]
pub struct DungeonArea {
    pub width: i32,
    pub height: i32,
    pub tiles: TileStore,
}

impl View for DungeonArea {
    type V = Map<(int, int), Tile>;

    open spec fn view(&self) -> Map<(int, int), Tile> {
        self.tiles@
    }
}

impl DungeonArea {
    /// The width of the grid.
    pub open spec fn spec_width(&self) -> i32 {
        self.width
    }

    /// The height of the grid.
    pub open spec fn spec_height(&self) -> i32 {
        self.height
    }

    /// Whether `(x, y)` is a cell of the grid.
    pub open spec fn in_bounds(&self, x: int, y: int) -> bool {
        0 <= x < self.spec_width() && 0 <= y < self.spec_height()
    }

    /// Every carved cell is a cell of the grid.
    pub open spec fn enclosed(&self) -> bool {
        forall|p: (int, int)| #[trigger] self@.contains_key(p) ==> self.in_bounds(p.0, p.1)
    }

    /// A grid in which nothing is carved yet.
    pub fn new(width: i32, height: i32) -> (area: DungeonArea)
        ensures
            area.spec_width() == width,
            area.spec_height() == height,
            area@ == Map::<(int, int), Tile>::empty(),
    {
        DungeonArea { width, height, tiles: TileStore::new() }
    }

    /// The width of the grid.
    pub fn width(&self) -> (w: i32)
        ensures
            w == self.spec_width(),
    {
        self.width
    }

    /// The height of the grid.
    pub fn height(&self) -> (h: i32)
        ensures
            h == self.spec_height(),
    {
        self.height
    }

    /// Puts `tile` on the cell `(x, y)`, over what was there.
    pub fn set_tile(&mut self, x: i32, y: i32, tile: Tile)
        ensures
            final(self)@ == old(self)@.insert((x as int, y as int), tile),
            final(self).spec_width() == old(self).spec_width(),
            final(self).spec_height() == old(self).spec_height(),
    {
        self.tiles.put(x, y, tile);
    }

    /// The tile of the cell `(x, y)`, if that is a cell of the grid and is
    /// carved. Outside the grid there is no tile to be had, whatever is
    /// stored there.
    pub fn get_tile(&self, x: i32, y: i32) -> (tile: Option<&Tile>)
        ensures
            tile.is_some() == (self.in_bounds(x as int, y as int) && self@.contains_key(
                (x as int, y as int),
            )),
            tile.is_some() ==> *tile.unwrap() == self@[(x as int, y as int)],
    {
        if x >= 0 && x < self.width && y >= 0 && y < self.height {
            self.tiles.at(x, y)
        } else {
            None
        }
    }

    /// Whether `(x, y)` is a cell of the grid.
    pub fn contains(&self, x: i32, y: i32) -> (inside: bool)
        ensures
            inside == self.in_bounds(x as int, y as int),
    {
        x >= 0 && x < self.width && y >= 0 && y < self.height
    }

    /// Paints the cells of `r` row by row.
    fn paint(&mut self, r: &Rect, walled: bool)
        requires
            r.in_range(),
        ensures
            final(self)@ == painted(old(self)@, *r, walled),
            final(self).spec_width() == old(self).spec_width(),
            final(self).spec_height() == old(self).spec_height(),
    {
        let ghost start = self@;
        if r.w <= 0 || r.h <= 0 {
            assert(self@ =~= painted(start, *r, walled));
            return ;
        }
        let x_end: i32 = r.x + r.w;
        let y_end: i32 = r.y + r.h;
        let bordered: bool = walled && r.w >= 3 && r.h >= 3;
        let mut py: i32 = r.y;
        assert(self@ =~= painted_upto(start, *r, walled, py as int, r.x as int));
        while py < y_end
            invariant
                r.w > 0,
                r.h > 0,
                x_end == r.x + r.w,
                y_end == r.y + r.h,
                bordered == (walled && r.w >= 3 && r.h >= 3),
                r.y <= py <= y_end,
                self@ == painted_upto(start, *r, walled, py as int, r.x as int),
                self.spec_width() == old(self).spec_width(),
                self.spec_height() == old(self).spec_height(),
            decreases y_end - py,
        {
            let mut px: i32 = r.x;
            while px < x_end
                invariant
                    r.w > 0,
                    r.h > 0,
                    x_end == r.x + r.w,
                    y_end == r.y + r.h,
                    bordered == (walled && r.w >= 3 && r.h >= 3),
                    r.y <= py < y_end,
                    r.x <= px <= x_end,
                    self@ == painted_upto(start, *r, walled, py as int, px as int),
                    self.spec_width() == old(self).spec_width(),
                    self.spec_height() == old(self).spec_height(),
                decreases x_end - px,
            {
                let on_border: bool = bordered && (px == r.x || px == x_end - 1 || py == r.y || py
                    == y_end - 1);
                let tile = if on_border {
                    Tile { symbol: '#', color: crate::tile::Color::White }
                } else {
                    Tile { symbol: '.', color: crate::tile::Color::White }
                };
                assert(tile == painted_tile(*r, walled, px as int, py as int));
                self.set_tile(px, py, tile);
                assert(self@ =~= painted_upto(start, *r, walled, py as int, px + 1));
                px = px + 1;
            }
            assert(self@ =~= painted_upto(start, *r, walled, py + 1, r.x as int));
            py = py + 1;
        }
        assert(self@ =~= painted(start, *r, walled));
    }

    /// Carves one room: a wall around it and floor inside; a room too small
    /// to have an interior is floor all over.
    pub fn carve_room(&mut self, room: &Rect)
        requires
            room.in_range(),
        ensures
            final(self)@ == painted(old(self)@, *room, true),
            final(self).spec_width() == old(self).spec_width(),
            final(self).spec_height() == old(self).spec_height(),
    {
        self.paint(room, true);
    }

    /// Carves one corridor: floor on each of its cells, also where a wall
    /// stood.
    pub fn carve_corridor(&mut self, corridor: &Rect)
        requires
            corridor.in_range(),
        ensures
            final(self)@ == painted(old(self)@, *corridor, false),
            final(self).spec_width() == old(self).spec_width(),
            final(self).spec_height() == old(self).spec_height(),
    {
        self.paint(corridor, false);
    }
}

/// Carves the rooms into `area`, then the corridors.
pub fn carve(area: &mut DungeonArea, rooms: &Vec<Rect>, corridors: &Vec<Rect>)
    requires
        all_in_range(rooms@),
        all_in_range(corridors@),
    ensures
        final(area)@ == carved(old(area)@, rooms@, corridors@),
        final(area).spec_width() == old(area).spec_width(),
        final(area).spec_height() == old(area).spec_height(),
{
    let ghost start = area@;
    let mut i: usize = 0;
    while i < rooms.len()
        invariant
            i <= rooms.len(),
            all_in_range(rooms@),
            area@ == with_rooms(start, rooms@.take(i as int)),
            area.spec_width() == old(area).spec_width(),
            area.spec_height() == old(area).spec_height(),
        decreases rooms.len() - i,
    {
        assert(rooms@.take(i + 1).drop_last() =~= rooms@.take(i as int));
        assert(rooms@.take(i + 1).last() == rooms@[i as int]);
        area.carve_room(&rooms[i]);
        i = i + 1;
    }
    assert(rooms@.take(i as int) =~= rooms@);
    let ghost middle = area@;
    let mut j: usize = 0;
    while j < corridors.len()
        invariant
            j <= corridors.len(),
            all_in_range(corridors@),
            area@ == with_corridors(middle, corridors@.take(j as int)),
            area.spec_width() == old(area).spec_width(),
            area.spec_height() == old(area).spec_height(),
        decreases corridors.len() - j,
    {
        assert(corridors@.take(j + 1).drop_last() =~= corridors@.take(j as int));
        assert(corridors@.take(j + 1).last() == corridors@[j as int]);
        area.carve_corridor(&corridors[j]);
        j = j + 1;
    }
    assert(corridors@.take(j as int) =~= corridors@);
}

/// Some rectangle of the sequence has the cell `p`.
pub open spec fn some_has_cell(rects: Seq<Rect>, p: (int, int)) -> bool {
    exists|i: int| 0 <= i < rects.len() && (#[trigger] rects[i]).has_cell(p.0, p.1)
}

/// Carving rooms touches the cells of the rooms and no other cell.
pub proof fn lemma_with_rooms_cells(tiles: Map<(int, int), Tile>, rooms: Seq<Rect>, p: (int, int))
    ensures
        with_rooms(tiles, rooms).contains_key(p) <==> tiles.contains_key(p) || some_has_cell(
            rooms,
            p,
        ),
        !some_has_cell(rooms, p) && tiles.contains_key(p) ==> with_rooms(tiles, rooms)[p]
            == tiles[p],
    decreases rooms.len(),
{
    if rooms.len() > 0 {
        let rest = rooms.drop_last();
        lemma_with_rooms_cells(tiles, rest, p);
        if some_has_cell(rest, p) {
            let i = choose|i: int| 0 <= i < rest.len() && (#[trigger] rest[i]).has_cell(p.0, p.1);
            assert(rooms[i] == rest[i]);
        }
        if rooms.last().has_cell(p.0, p.1) {
            assert(rooms[rooms.len() - 1].has_cell(p.0, p.1));
        }
        if some_has_cell(rooms, p) {
            let i = choose|i: int| 0 <= i < rooms.len() && (#[trigger] rooms[i]).has_cell(p.0, p.1);
            if i < rest.len() {
                assert(rest[i] == rooms[i]);
            }
        }
    }
}

/// Carving corridors touches the cells of the corridors and no other cell.
pub proof fn lemma_with_corridors_cells(
    tiles: Map<(int, int), Tile>,
    corridors: Seq<Rect>,
    p: (int, int),
)
    ensures
        with_corridors(tiles, corridors).contains_key(p) <==> tiles.contains_key(p)
            || some_has_cell(corridors, p),
        !some_has_cell(corridors, p) && tiles.contains_key(p) ==> with_corridors(
            tiles,
            corridors,
        )[p] == tiles[p],
        some_has_cell(corridors, p) ==> with_corridors(tiles, corridors)[p] == Tile::floor(),
    decreases corridors.len(),
{
    if corridors.len() > 0 {
        let rest = corridors.drop_last();
        lemma_with_corridors_cells(tiles, rest, p);
        if some_has_cell(rest, p) {
            let i = choose|i: int| 0 <= i < rest.len() && (#[trigger] rest[i]).has_cell(p.0, p.1);
            assert(corridors[i] == rest[i]);
        }
        if corridors.last().has_cell(p.0, p.1) {
            assert(corridors[corridors.len() - 1].has_cell(p.0, p.1));
        }
        if some_has_cell(corridors, p) {
            let i = choose|i: int|
                0 <= i < corridors.len() && (#[trigger] corridors[i]).has_cell(p.0, p.1);
            if i < rest.len() {
                assert(rest[i] == corridors[i]);
            }
        }
    }
}

} // verus!
