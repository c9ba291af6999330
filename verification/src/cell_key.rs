use vstd::prelude::*;

verus! {

/// Whether `(x, y)` is a pair of grid coordinates.
pub open spec fn is_cell(x: int, y: int) -> bool {
    i32::MIN <= x <= i32::MAX && i32::MIN <= y <= i32::MAX
}

/// The number under which what belongs to the cell `(x, y)` is stored: the
/// two coordinates, each moved into the unsigned range, side by side.
pub open spec fn cell_key(x: int, y: int) -> int {
    (x + 0x8000_0000) * 0x1_0000_0000 + (y + 0x8000_0000)
}

/// The cell that is stored under a number.
pub open spec fn cell_of_key(k: u64) -> (int, int) {
    (k as int / 0x1_0000_0000 - 0x8000_0000, k as int % 0x1_0000_0000 - 0x8000_0000)
}

/// Every cell has a number of its own, and every number is that of a cell.
pub proof fn lemma_keys_and_cells(x: int, y: int, k: u64)
    ensures
        is_cell(x, y) ==> 0 <= cell_key(x, y) <= u64::MAX && cell_of_key(cell_key(x, y) as u64) == (
            x,
            y,
        ),
        is_cell(cell_of_key(k).0, cell_of_key(k).1),
        cell_key(cell_of_key(k).0, cell_of_key(k).1) == k,
{
}

/// The number of the cell `(x, y)`.
pub fn key_of(x: i32, y: i32) -> (k: u64)
    ensures
        k == cell_key(x as int, y as int),
{
    let high: u64 = (x as i64 + 0x8000_0000) as u64;
    let low: u64 = (y as i64 + 0x8000_0000) as u64;
    high * 0x1_0000_0000 + low
}

} // verus!
