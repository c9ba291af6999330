use crate::bsp::{corridor, lemma_rooms_enclosed, BspContent, BspNode};
use crate::bsp_laws::{
    lemma_halves_tile, lemma_leaves_partition, lemma_rooms_in_leaves, pairwise_disjoint,
};
use crate::dungeon_generator::dungeon_area::{
    carved, lemma_with_corridors_cells, lemma_with_rooms_cells, painted_tile, some_has_cell,
    with_rooms,
};
use crate::rect::Rect;
use crate::tile::Tile;
use vstd::prelude::*;

verus! {

/// Whether the cell `p` is carved and holds a floor.
pub open spec fn is_floor(tiles: Map<(int, int), Tile>, p: (int, int)) -> bool {
    tiles.contains_key(p) && tiles[p].symbol == '.'
}

/// Whether two cells share a side.
pub open spec fn adjacent(a: (int, int), b: (int, int)) -> bool {
    ||| a.0 == b.0 && (a.1 == b.1 + 1 || b.1 == a.1 + 1)
    ||| a.1 == b.1 && (a.0 == b.0 + 1 || b.0 == a.0 + 1)
}

/// Whether `path` is a walk over floor: it has a first cell, all its cells
/// are floor, and each cell shares a side with the next.
pub open spec fn is_walk(tiles: Map<(int, int), Tile>, path: Seq<(int, int)>) -> bool {
    &&& path.len() > 0
    &&& forall|i: int| 0 <= i < path.len() ==> is_floor(tiles, #[trigger] path[i])
    &&& forall|i: int| 0 <= i < path.len() - 1 ==> adjacent(#[trigger] path[i], path[i + 1])
}

/// Whether one can walk over floor from `a` to `b`.
pub open spec fn joined(tiles: Map<(int, int), Tile>, a: (int, int), b: (int, int)) -> bool {
    exists|path: Seq<(int, int)>|
        #[trigger] is_walk(tiles, path) && path[0] == a && path[path.len() - 1] == b
}

/// From every floor cell one can walk over floor to every other: a flood
/// that starts on any floor cell fills them all.
pub open spec fn floors_joined(tiles: Map<(int, int), Tile>) -> bool {
    forall|a: (int, int), b: (int, int)|
        is_floor(tiles, a) && is_floor(tiles, b) ==> #[trigger] joined(tiles, a, b)
}

/// The part of a room that is floor: its interior, or all of it where it has
/// none.
pub open spec fn floor_part(room: Rect) -> Rect {
    if room.w >= 3 && room.h >= 3 {
        Rect { x: (room.x + 1) as i32, y: (room.y + 1) as i32, w: (room.w - 2) as i32, h: (room.h - 2) as i32 }
    } else {
        room
    }
}

/// The floor part of every room is floor.
pub open spec fn rooms_are_floor(tiles: Map<(int, int), Tile>, rooms: Seq<Rect>) -> bool {
    forall|i: int, px: int, py: int|
        0 <= i < rooms.len() && #[trigger] floor_part(rooms[i]).has_cell(px, py) ==> is_floor(
            tiles,
            (px, py),
        )
}

/// Every cell of every corridor is floor.
pub open spec fn corridors_are_floor(tiles: Map<(int, int), Tile>, corridors: Seq<Rect>) -> bool {
    forall|j: int, px: int, py: int|
        0 <= j < corridors.len() && #[trigger] corridors[j].has_cell(px, py) ==> is_floor(
            tiles,
            (px, py),
        )
}

/// A floor cell is joined to itself.
pub proof fn lemma_joined_self(tiles: Map<(int, int), Tile>, a: (int, int))
    requires
        is_floor(tiles, a),
    ensures
        joined(tiles, a, a),
{
    let path = seq![a];
    assert(is_walk(tiles, path));
    assert(path[0] == a && path[path.len() - 1] == a);
}

/// Two floor cells that share a side are joined.
pub proof fn lemma_joined_step(tiles: Map<(int, int), Tile>, a: (int, int), b: (int, int))
    requires
        is_floor(tiles, a),
        is_floor(tiles, b),
        adjacent(a, b),
    ensures
        joined(tiles, a, b),
{
    let path = seq![a, b];
    assert(is_walk(tiles, path));
    assert(path[0] == a && path[path.len() - 1] == b);
}

/// A walk can be walked back.
pub proof fn lemma_joined_back(tiles: Map<(int, int), Tile>, a: (int, int), b: (int, int))
    requires
        joined(tiles, a, b),
    ensures
        joined(tiles, b, a),
{
    let path = choose|path: Seq<(int, int)>|
        #[trigger] is_walk(tiles, path) && path[0] == a && path[path.len() - 1] == b;
    let n = path.len() as int;
    let back = Seq::new(path.len(), |i: int| path[n - 1 - i]);
    assert forall|i: int| 0 <= i < back.len() implies is_floor(tiles, #[trigger] back[i]) by {
        assert(back[i] == path[n - 1 - i]);
    }
    assert forall|i: int| 0 <= i < back.len() - 1 implies adjacent(
        #[trigger] back[i],
        back[i + 1],
    ) by {
        assert(back[i] == path[n - 1 - i]);
        assert(back[i + 1] == path[n - 2 - i]);
        assert(adjacent(path[n - 2 - i], path[n - 2 - i + 1]));
    }
    assert(is_walk(tiles, back));
    assert(back[0] == b && back[back.len() - 1] == a);
}

/// Two walks that meet make one walk.
pub proof fn lemma_joined_on(
    tiles: Map<(int, int), Tile>,
    a: (int, int),
    b: (int, int),
    c: (int, int),
)
    requires
        joined(tiles, a, b),
        joined(tiles, b, c),
    ensures
        joined(tiles, a, c),
{
    let first = choose|path: Seq<(int, int)>|
        #[trigger] is_walk(tiles, path) && path[0] == a && path[path.len() - 1] == b;
    let second = choose|path: Seq<(int, int)>|
        #[trigger] is_walk(tiles, path) && path[0] == b && path[path.len() - 1] == c;
    let n = first.len() as int;
    let rest = second.subrange(1, second.len() as int);
    let path = first + rest;
    assert forall|i: int| 0 <= i < path.len() implies is_floor(tiles, #[trigger] path[i]) by {
        if i < n {
            assert(path[i] == first[i]);
        } else {
            assert(path[i] == second[i - n + 1]);
        }
    }
    assert forall|i: int| 0 <= i < path.len() - 1 implies adjacent(
        #[trigger] path[i],
        path[i + 1],
    ) by {
        if i < n - 1 {
            assert(path[i] == first[i] && path[i + 1] == first[i + 1]);
        } else if i == n - 1 {
            assert(path[i] == first[n - 1]);
            assert(path[i + 1] == second[1]);
            assert(adjacent(second[0], second[0int + 1]));
        } else {
            assert(path[i] == second[i - n + 1]);
            assert(path[i + 1] == second[i - n + 1 + 1]);
        }
    }
    assert(is_walk(tiles, path));
    assert(path[0] == first[0]);
    if rest.len() == 0 {
        assert(path[path.len() - 1] == first[n - 1]);
    } else {
        assert(path[path.len() - 1] == second[second.len() - 1]);
    }
}

/// The distance between two cells when one walks along the axes.
pub open spec fn steps_between(a: (int, int), b: (int, int)) -> int {
    (if a.0 <= b.0 {
        b.0 - a.0
    } else {
        a.0 - b.0
    }) + (if a.1 <= b.1 {
        b.1 - a.1
    } else {
        a.1 - b.1
    })
}

/// In a rectangle that is floor all over, any two cells are joined.
pub proof fn lemma_rect_joined(tiles: Map<(int, int), Tile>, r: Rect, a: (int, int), b: (int, int))
    requires
        forall|px: int, py: int| #[trigger] r.has_cell(px, py) ==> is_floor(tiles, (px, py)),
        r.has_cell(a.0, a.1),
        r.has_cell(b.0, b.1),
    ensures
        joined(tiles, a, b),
    decreases steps_between(a, b),
{
    if a == b {
        lemma_joined_self(tiles, a);
    } else {
        let next: (int, int) = if a.0 < b.0 {
            (a.0 + 1, a.1)
        } else if a.0 > b.0 {
            (a.0 - 1, a.1)
        } else if a.1 < b.1 {
            (a.0, a.1 + 1)
        } else {
            (a.0, a.1 - 1)
        };
        assert(r.has_cell(next.0, next.1));
        lemma_rect_joined(tiles, r, next, b);
        lemma_joined_step(tiles, a, next);
        lemma_joined_on(tiles, a, next, b);
    }
}

/// The middle of a room is part of its floor.
pub proof fn lemma_center_is_floor_part(room: Rect)
    requires
        room.w > 0,
        room.h > 0,
        room.in_range(),
    ensures
        floor_part(room).has_cell(room.center_x(), room.center_y()),
        forall|px: int, py: int|
            room.has_cell(px, py) ==> (#[trigger] floor_part(room).has_cell(px, py) <==> painted_tile(
                room,
                true,
                px,
                py,
            ) == Tile::floor()),
        forall|px: int, py: int| #[trigger]
            floor_part(room).has_cell(px, py) ==> room.has_cell(px, py),
{
}

/// Where every room's floor part and every corridor of a partition with
/// rooms is floor, one can walk from the middle of the room that stands for
/// the tree to every floor cell of every room and to every cell of every
/// corridor.
pub proof fn lemma_tree_joined(tiles: Map<(int, int), Tile>, node: BspNode)
    requires
        node.wf(),
        node.furnished(),
        rooms_are_floor(tiles, node.leaf_rooms()),
        corridors_are_floor(tiles, node.passages()),
    ensures
        node.first_room().is_some(),
        forall|i: int, px: int, py: int|
            0 <= i < node.leaf_rooms().len() && #[trigger] floor_part(
                node.leaf_rooms()[i],
            ).has_cell(px, py) ==> joined(
                tiles,
                (node.first_room().unwrap().center_x(), node.first_room().unwrap().center_y()),
                (px, py),
            ),
        forall|j: int, px: int, py: int|
            0 <= j < node.passages().len() && #[trigger] node.passages()[j].has_cell(px, py)
                ==> joined(
                tiles,
                (node.first_room().unwrap().center_x(), node.first_room().unwrap().center_y()),
                (px, py),
            ),
    decreases node,
{
    lemma_rooms_in_leaves(node);
    let rooms = node.leaf_rooms();
    let ways = node.passages();
    let lead = node.first_room().unwrap();
    let c = (lead.center_x(), lead.center_y());
    match node.content {
        BspContent::Leaf { room } => {
            let only = room.unwrap();
            assert(rooms[0] == only);
            lemma_center_is_floor_part(only);
            assert forall|i: int, px: int, py: int|
                0 <= i < rooms.len() && #[trigger] floor_part(rooms[i]).has_cell(
                    px,
                    py,
                ) implies joined(tiles, c, (px, py)) by {
                assert forall|qx: int, qy: int| #[trigger]
                    floor_part(only).has_cell(qx, qy) implies is_floor(tiles, (qx, qy)) by {
                    assert(floor_part(rooms[0]).has_cell(qx, qy));
                }
                lemma_rect_joined(tiles, floor_part(only), c, (px, py));
            }
        },
        BspContent::Split { left, right } => {
            let lr = left.leaf_rooms();
            let rr = right.leaf_rooms();
            let lw = left.passages();
            let rw = right.passages();
            lemma_rooms_in_leaves(*left);
            lemma_rooms_in_leaves(*right);
            lemma_rooms_enclosed(*left);
            lemma_rooms_enclosed(*right);
            lemma_halves_tile(node.rect, left.rect, right.rect);
            let a = left.first_room().unwrap();
            let b = right.first_room().unwrap();
            assert(a == lr[0] && b == rr[0]);
            assert(lead == a);
            let between = corridor(a, b);
            assert(ways == lw + rw + between);
            assert forall|i: int, px: int, py: int|
                0 <= i < lr.len() && #[trigger] floor_part(lr[i]).has_cell(
                    px,
                    py,
                ) implies is_floor(tiles, (px, py)) by {
                assert(rooms[i] == lr[i]);
                assert(floor_part(rooms[i]).has_cell(px, py));
            }
            assert forall|i: int, px: int, py: int|
                0 <= i < rr.len() && #[trigger] floor_part(rr[i]).has_cell(
                    px,
                    py,
                ) implies is_floor(tiles, (px, py)) by {
                assert(rooms[lr.len() + i] == rr[i]);
                assert(floor_part(rooms[lr.len() + i]).has_cell(px, py));
            }
            assert forall|j: int, px: int, py: int|
                0 <= j < lw.len() && #[trigger] lw[j].has_cell(px, py) implies is_floor(
                tiles,
                (px, py),
            ) by {
                assert(ways[j] == lw[j]);
                assert(ways[j].has_cell(px, py));
            }
            assert forall|j: int, px: int, py: int|
                0 <= j < rw.len() && #[trigger] rw[j].has_cell(px, py) implies is_floor(
                tiles,
                (px, py),
            ) by {
                assert(ways[lw.len() + j] == rw[j]);
                assert(ways[lw.len() + j].has_cell(px, py));
            }
            lemma_tree_joined(tiles, *left);
            lemma_tree_joined(tiles, *right);
            let along = between[0];
            let down = between[1];
            let n = (lw.len() + rw.len()) as int;
            assert(ways[n] == along && ways[n + 1] == down);
            let ca = (a.center_x(), a.center_y());
            let cb = (b.center_x(), b.center_y());
            let corner = (b.center_x(), a.center_y());
            assert(c == ca);
            assert forall|px: int, py: int| #[trigger] along.has_cell(px, py) implies is_floor(
                tiles,
                (px, py),
            ) by {
                assert(ways[n].has_cell(px, py));
            }
            assert forall|px: int, py: int| #[trigger] down.has_cell(px, py) implies is_floor(
                tiles,
                (px, py),
            ) by {
                assert(ways[n + 1].has_cell(px, py));
            }
            assert(along.has_cell(ca.0, ca.1));
            assert(along.has_cell(corner.0, corner.1));
            assert(down.has_cell(corner.0, corner.1));
            assert(down.has_cell(cb.0, cb.1));
            lemma_rect_joined(tiles, along, ca, corner);
            lemma_rect_joined(tiles, down, corner, cb);
            lemma_joined_on(tiles, ca, corner, cb);
            assert forall|i: int, px: int, py: int|
                0 <= i < rooms.len() && #[trigger] floor_part(rooms[i]).has_cell(
                    px,
                    py,
                ) implies joined(tiles, c, (px, py)) by {
                if i < lr.len() {
                    assert(rooms[i] == lr[i]);
                    assert(floor_part(lr[i]).has_cell(px, py));
                } else {
                    assert(rooms[i] == rr[i - lr.len()]);
                    assert(floor_part(rr[i - lr.len()]).has_cell(px, py));
                    lemma_joined_on(tiles, ca, cb, (px, py));
                }
            }
            assert forall|j: int, px: int, py: int|
                0 <= j < ways.len() && #[trigger] ways[j].has_cell(px, py) implies joined(
                tiles,
                c,
                (px, py),
            ) by {
                if j < lw.len() {
                    assert(ways[j] == lw[j]);
                    assert(lw[j].has_cell(px, py));
                } else if j < n {
                    assert(ways[j] == rw[j - lw.len()]);
                    assert(rw[j - lw.len()].has_cell(px, py));
                    lemma_joined_on(tiles, ca, cb, (px, py));
                } else if j == n {
                    lemma_rect_joined(tiles, along, ca, (px, py));
                } else {
                    assert(ways[j] == down);
                    lemma_rect_joined(tiles, down, corner, (px, py));
                    lemma_joined_on(tiles, ca, corner, (px, py));
                }
            }
        },
    }
}

/// Where no two rooms share a cell, carving them gives every cell of a room
/// the tile of that room.
pub proof fn lemma_with_rooms_tile(
    tiles: Map<(int, int), Tile>,
    rooms: Seq<Rect>,
    i: int,
    p: (int, int),
)
    requires
        pairwise_disjoint(rooms),
        0 <= i < rooms.len(),
        rooms[i].has_cell(p.0, p.1),
    ensures
        with_rooms(tiles, rooms).contains_key(p),
        with_rooms(tiles, rooms)[p] == painted_tile(rooms[i], true, p.0, p.1),
    decreases rooms.len(),
{
    let n = rooms.len() as int;
    if i < n - 1 {
        let rest = rooms.drop_last();
        assert(rest[i] == rooms[i]);
        assert forall|k: int, j: int, px: int, py: int| 0 <= k < j < rest.len() implies !(
        #[trigger] rest[k].has_cell(px, py) && #[trigger] rest[j].has_cell(px, py)) by {
            assert(rest[k] == rooms[k] && rest[j] == rooms[j]);
            if rest[k].has_cell(px, py) && rest[j].has_cell(px, py) {
                assert(rooms[k].has_cell(px, py) && rooms[j].has_cell(px, py));
            }
        }
        lemma_with_rooms_tile(tiles, rest, i, p);
        assert(!(rooms[i].has_cell(p.0, p.1) && rooms[n - 1].has_cell(p.0, p.1)));
    }
}

/// In a dungeon carved from a partition with rooms, one can walk over floor
/// from every floor cell to every other: no room and no corridor is cut off.
pub proof fn lemma_carved_tree_connected(node: BspNode)
    requires
        node.wf(),
        node.furnished(),
    ensures
        floors_joined(carved(Map::empty(), node.leaf_rooms(), node.passages())),
{
    let empty = Map::<(int, int), Tile>::empty();
    let rooms = node.leaf_rooms();
    let ways = node.passages();
    let leaves = node.leaf_rects();
    let roomed = with_rooms(empty, rooms);
    let tiles = carved(empty, rooms, ways);
    lemma_leaves_partition(node);
    lemma_rooms_in_leaves(node);
    lemma_rooms_enclosed(node);
    assert forall|i: int, j: int, px: int, py: int| 0 <= i < j < rooms.len() implies !(
    #[trigger] rooms[i].has_cell(px, py) && #[trigger] rooms[j].has_cell(px, py)) by {
        if rooms[i].has_cell(px, py) && rooms[j].has_cell(px, py) {
            assert(leaves[i].holds_with_margin(rooms[i]));
            assert(leaves[j].holds_with_margin(rooms[j]));
            assert(leaves[i].has_cell(px, py) && leaves[j].has_cell(px, py));
        }
    }
    assert forall|i: int, px: int, py: int|
        0 <= i < rooms.len() && #[trigger] floor_part(rooms[i]).has_cell(px, py) implies is_floor(
        tiles,
        (px, py),
    ) by {
        let p = (px, py);
        assert(node.rect.encloses(rooms[i]));
        lemma_center_is_floor_part(rooms[i]);
        lemma_with_rooms_tile(empty, rooms, i, p);
        lemma_with_corridors_cells(roomed, ways, p);
    }
    assert forall|j: int, px: int, py: int|
        0 <= j < ways.len() && #[trigger] ways[j].has_cell(px, py) implies is_floor(
        tiles,
        (px, py),
    ) by {
        lemma_with_corridors_cells(roomed, ways, (px, py));
    }
    lemma_tree_joined(tiles, node);
    let lead = node.first_room().unwrap();
    let c = (lead.center_x(), lead.center_y());
    assert forall|p: (int, int)| is_floor(tiles, p) implies joined(tiles, c, p) by {
        lemma_with_corridors_cells(roomed, ways, p);
        if some_has_cell(ways, p) {
            let j = choose|j: int| 0 <= j < ways.len() && (#[trigger] ways[j]).has_cell(p.0, p.1);
            assert(ways[j].has_cell(p.0, p.1));
        } else {
            lemma_with_rooms_cells(empty, rooms, p);
            let i = choose|i: int| 0 <= i < rooms.len() && (#[trigger] rooms[i]).has_cell(p.0, p.1);
            assert(node.rect.encloses(rooms[i]));
            lemma_with_rooms_tile(empty, rooms, i, p);
            lemma_center_is_floor_part(rooms[i]);
            assert(floor_part(rooms[i]).has_cell(p.0, p.1));
        }
    }
    assert forall|a: (int, int), b: (int, int)|
        is_floor(tiles, a) && is_floor(tiles, b) implies #[trigger] joined(tiles, a, b) by {
        lemma_joined_back(tiles, c, a);
        lemma_joined_on(tiles, a, c, b);
    }
}

} // verus!
