use vstd::prelude::*;

verus! {

/// What the player looks at: the map of hexes, or the inside of one
/// wilderness or one dungeon, each named by the number of its entity.
#[derive(Clone, Copy, Debug, PartialEq, Eq, Structural)]
pub enum ViewMode {
    HexMap,
    Wilderness(u64),
    Dungeon(u64),
}

/// What a step of the player comes to.
#[derive(Clone, Copy, Debug, PartialEq, Eq, Structural)]
pub enum MoveDecision {
    /// The player stays: the step would leave the area.
    Stay,
    /// The player goes to the cell.
    Go { x: i32, y: i32 },
    /// The cell is a hex that is not known yet: it is generated first, then
    /// the player goes there.
    GenerateHexThenGo { x: i32, y: i32 },
}

/// The decision for a step by `(dx, dy)` from `(x, y)`.
///
/// On the map of hexes every step is taken, and a hex that is not known is
/// generated first. Inside a wilderness or a dungeon whose area is at hand
/// (`area` is its width and height) a step is taken only to a cell of the
/// area; where the area is not at hand, every step is taken.
pub open spec fn decided_move(
    mode: ViewMode,
    x: int,
    y: int,
    dx: int,
    dy: int,
    hex_known: bool,
    area: Option<(i32, i32)>,
) -> MoveDecision {
    let nx = (x + dx) as i32;
    let ny = (y + dy) as i32;
    match mode {
        ViewMode::HexMap => if hex_known {
            MoveDecision::Go { x: nx, y: ny }
        } else {
            MoveDecision::GenerateHexThenGo { x: nx, y: ny }
        },
        _ => if area.is_some() && !(0 <= x + dx < area.unwrap().0 && 0 <= y + dy < area.unwrap().1) {
            MoveDecision::Stay
        } else {
            MoveDecision::Go { x: nx, y: ny }
        },
    }
}

/// Decides a step of the player. `hex_known` says whether the map of hexes
/// knows the cell the step leads to; `area` is the size of the area the
/// player is in, where it is at hand.
pub fn plan_move(
    mode: ViewMode,
    x: i32,
    y: i32,
    dx: i32,
    dy: i32,
    hex_known: bool,
    area: Option<(i32, i32)>,
) -> (decision: MoveDecision)
    requires
        i32::MIN <= x + dx <= i32::MAX,
        i32::MIN <= y + dy <= i32::MAX,
    ensures
        decision == decided_move(mode, x as int, y as int, dx as int, dy as int, hex_known, area),
{
    let nx: i32 = x + dx;
    let ny: i32 = y + dy;
    match mode {
        ViewMode::HexMap => {
            if hex_known {
                MoveDecision::Go { x: nx, y: ny }
            } else {
                MoveDecision::GenerateHexThenGo { x: nx, y: ny }
            }
        },
        _ => {
            match area {
                Some((width, height)) => {
                    if nx >= 0 && nx < width && ny >= 0 && ny < height {
                        MoveDecision::Go { x: nx, y: ny }
                    } else {
                        MoveDecision::Stay
                    }
                },
                None => MoveDecision::Go { x: nx, y: ny },
            }
        },
    }
}

/// Half of an extent, rounded towards zero.
pub open spec fn half(extent: int) -> int {
    if extent >= 0 {
        extent / 2
    } else {
        -((-extent) / 2)
    }
}

/// Where the player stands on entering an area of `width` by `height`
/// cells: in its middle.
pub fn entry_position(width: i32, height: i32) -> (place: (i32, i32))
    ensures
        place.0 == half(width as int),
        place.1 == half(height as int),
{
    (width / 2, height / 2)
}

} // verus!
