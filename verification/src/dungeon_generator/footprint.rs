use crate::dungeon_generator::dungeon_area::all_in_range;
use crate::rect::Rect;
use vstd::prelude::*;

verus! {

/// Where a stored room or passage lies: its corner and extent in the
/// coordinates of the world, and the level of the dungeon it belongs to.
#[derive(Clone, Copy, Debug, PartialEq, Eq, Structural)]
pub struct Footprint {
    pub x: i32,
    pub y: i32,
    pub width: i32,
    pub length: i32,
    pub dungeon_level: i32,
}

/// The items of one level, in their order.
pub open spec fn on_level(items: Seq<Footprint>, level: i32) -> Seq<Footprint>
    decreases items.len(),
{
    if items.len() == 0 {
        Seq::empty()
    } else if items.last().dungeon_level == level {
        on_level(items.drop_last(), level).push(items.last())
    } else {
        on_level(items.drop_last(), level)
    }
}

/// The leftmost column of the items; the last coordinate where there is no
/// item.
pub open spec fn least_x(items: Seq<Footprint>) -> int
    decreases items.len(),
{
    if items.len() == 0 {
        i32::MAX as int
    } else if items.last().x < least_x(items.drop_last()) {
        items.last().x as int
    } else {
        least_x(items.drop_last())
    }
}

/// The topmost row of the items; the last coordinate where there is no item.
pub open spec fn least_y(items: Seq<Footprint>) -> int
    decreases items.len(),
{
    if items.len() == 0 {
        i32::MAX as int
    } else if items.last().y < least_y(items.drop_last()) {
        items.last().y as int
    } else {
        least_y(items.drop_last())
    }
}

/// The column just past the rightmost item; the first coordinate where there
/// is no item or none reaches it.
pub open spec fn greatest_x(items: Seq<Footprint>) -> int
    decreases items.len(),
{
    if items.len() == 0 {
        i32::MIN as int
    } else if items.last().x + items.last().width > greatest_x(items.drop_last()) {
        items.last().x + items.last().width
    } else {
        greatest_x(items.drop_last())
    }
}

/// The row just past the lowest item; the first coordinate where there is no
/// item or none reaches it.
pub open spec fn greatest_y(items: Seq<Footprint>) -> int
    decreases items.len(),
{
    if items.len() == 0 {
        i32::MIN as int
    } else if items.last().y + items.last().length > greatest_y(items.drop_last()) {
        items.last().y + items.last().length
    } else {
        greatest_y(items.drop_last())
    }
}

/// Whether the item, seen from the origin `(ox, oy)`, is a rectangle of grid
/// coordinates.
pub open spec fn movable(f: Footprint, ox: int, oy: int) -> bool {
    &&& i32::MIN <= f.x - ox <= i32::MAX
    &&& i32::MIN <= f.y - oy <= i32::MAX
    &&& f.x - ox + f.width <= i32::MAX
    &&& f.y - oy + f.length <= i32::MAX
}

/// The rectangle of the item, seen from the origin `(ox, oy)`.
pub open spec fn moved(f: Footprint, ox: int, oy: int) -> Rect {
    Rect { x: (f.x - ox) as i32, y: (f.y - oy) as i32, w: f.width, h: f.length }
}

pub open spec fn all_movable(items: Seq<Footprint>, ox: int, oy: int) -> bool {
    forall|i: int| 0 <= i < items.len() ==> movable(#[trigger] items[i], ox, oy)
}

pub open spec fn moved_all(items: Seq<Footprint>, ox: int, oy: int) -> Seq<Rect> {
    Seq::new(items.len(), |i: int| moved(items[i], ox, oy))
}

/// The items of one level, in their order.
pub fn select_level(items: &Vec<Footprint>, level: i32) -> (picked: Vec<Footprint>)
    ensures
        picked@ == on_level(items@, level),
{
    let mut picked: Vec<Footprint> = Vec::new();
    let mut i: usize = 0;
    while i < items.len()
        invariant
            i <= items.len(),
            picked@ == on_level(items@.take(i as int), level),
        decreases items.len() - i,
    {
        assert(items@.take(i + 1).drop_last() =~= items@.take(i as int));
        assert(items@.take(i + 1).last() == items@[i as int]);
        if items[i].dungeon_level == level {
            picked.push(items[i]);
        }
        i = i + 1;
    }
    assert(items@.take(i as int) =~= items@);
    picked
}

/// The box around the items: leftmost column, topmost row, and the column
/// and the row just past them.
pub fn bounds(items: &Vec<Footprint>) -> (b: (i64, i64, i64, i64))
    ensures
        b.0 == least_x(items@),
        b.1 == least_y(items@),
        b.2 == greatest_x(items@),
        b.3 == greatest_y(items@),
        i32::MIN <= b.0 <= i32::MAX,
        i32::MIN <= b.1 <= i32::MAX,
        i32::MIN <= b.2 <= 2 * i32::MAX,
        i32::MIN <= b.3 <= 2 * i32::MAX,
{
    let mut min_x: i64 = i32::MAX as i64;
    let mut min_y: i64 = i32::MAX as i64;
    let mut max_x: i64 = i32::MIN as i64;
    let mut max_y: i64 = i32::MIN as i64;
    let mut i: usize = 0;
    while i < items.len()
        invariant
            i <= items.len(),
            min_x == least_x(items@.take(i as int)),
            min_y == least_y(items@.take(i as int)),
            max_x == greatest_x(items@.take(i as int)),
            max_y == greatest_y(items@.take(i as int)),
            i32::MIN <= min_x <= i32::MAX,
            i32::MIN <= min_y <= i32::MAX,
            i32::MIN <= max_x <= 2 * i32::MAX,
            i32::MIN <= max_y <= 2 * i32::MAX,
        decreases items.len() - i,
    {
        assert(items@.take(i + 1).drop_last() =~= items@.take(i as int));
        assert(items@.take(i + 1).last() == items@[i as int]);
        let f: Footprint = items[i];
        let right: i64 = f.x as i64 + f.width as i64;
        let bottom: i64 = f.y as i64 + f.length as i64;
        if (f.x as i64) < min_x {
            min_x = f.x as i64;
        }
        if (f.y as i64) < min_y {
            min_y = f.y as i64;
        }
        if right > max_x {
            max_x = right;
        }
        if bottom > max_y {
            max_y = bottom;
        }
        i = i + 1;
    }
    assert(items@.take(i as int) =~= items@);
    (min_x, min_y, max_x, max_y)
}

/// The rectangles of the items seen from the origin `(ox, oy)`, where each
/// of them is a rectangle of grid coordinates.
pub fn move_all(items: &Vec<Footprint>, ox: i64, oy: i64) -> (rects: Option<Vec<Rect>>)
    requires
        i32::MIN <= ox <= i32::MAX,
        i32::MIN <= oy <= i32::MAX,
    ensures
        rects.is_some() == all_movable(items@, ox as int, oy as int),
        rects.is_some() ==> rects.unwrap()@ == moved_all(items@, ox as int, oy as int)
            && all_in_range(rects.unwrap()@),
{
    let mut rects: Vec<Rect> = Vec::new();
    let mut i: usize = 0;
    while i < items.len()
        invariant
            i <= items.len(),
            i32::MIN <= ox <= i32::MAX,
            i32::MIN <= oy <= i32::MAX,
            all_movable(items@.take(i as int), ox as int, oy as int),
            rects@ == moved_all(items@.take(i as int), ox as int, oy as int),
            all_in_range(rects@),
        decreases items.len() - i,
    {
        let f: Footprint = items[i];
        let x: i64 = f.x as i64 - ox;
        let y: i64 = f.y as i64 - oy;
        if x < i32::MIN as i64 || x > i32::MAX as i64 || y < i32::MIN as i64 || y > i32::MAX as i64
            || x + f.width as i64 > i32::MAX as i64 || y + f.length as i64 > i32::MAX as i64 {
            assert(!movable(items@[i as int], ox as int, oy as int));
            return None;
        }
        rects.push(Rect { x: x as i32, y: y as i32, w: f.width, h: f.length });
        assert(rects@ =~= moved_all(items@.take(i + 1), ox as int, oy as int));
        assert forall|k: int| 0 <= k < i + 1 implies movable(
            #[trigger] items@.take(i + 1)[k],
            ox as int,
            oy as int,
        ) by {
            if k < i {
                assert(items@.take(i + 1)[k] == items@.take(i as int)[k]);
            }
        }
        i = i + 1;
    }
    assert(items@.take(i as int) =~= items@);
    Some(rects)
}

} // verus!
