//! An obstacle for the player to fly through: a column of blocks with a gap.

use vstd::prelude::*;

verus! {

/// The column reaches from row `-WALL_REACH` to row `WALL_REACH`.
pub const WALL_REACH: i32 = 12;

/// The gap leaves this many rows free on each side of its middle row.
pub const GAP_REACH: i32 = 4;

/// Row `y` of the column holds a block when the gap's middle is row `gap_y`.
pub open spec fn is_wall_row(gap_y: int, y: int) -> bool {
    &&& -WALL_REACH <= y <= WALL_REACH
    &&& (y < gap_y - GAP_REACH || y > gap_y + GAP_REACH)
}

/// The rows below `top` that hold a block, ascending.
pub open spec fn wall_rows_below(gap_y: int, top: int) -> Seq<i32>
    decreases top + WALL_REACH,
{
    if top <= -WALL_REACH {
        Seq::empty()
    } else {
        let lower = wall_rows_below(gap_y, top - 1);
        if is_wall_row(gap_y, top - 1) {
            lower.push((top - 1) as i32)
        } else {
            lower
        }
    }
}

/// The rows of the column that hold a block, from the lowest up: every row
/// of the column but those within `GAP_REACH` of `gap_y`.
pub fn wall_rows(gap_y: i32) -> (rows: Vec<i32>)
    ensures
        rows@ == wall_rows_below(gap_y as int, WALL_REACH + 1),
{
    let mut rows: Vec<i32> = Vec::new();
    let mut y: i32 = -WALL_REACH;
    while y <= WALL_REACH
        invariant
            -WALL_REACH <= y <= WALL_REACH + 1,
            rows@ == wall_rows_below(gap_y as int, y as int),
        decreases WALL_REACH + 1 - y,
    {
        let gap: i64 = gap_y as i64;
        let row: i64 = y as i64;
        if row < gap - GAP_REACH as i64 || row > gap + GAP_REACH as i64 {
            rows.push(y);
        }
        y += 1;
    }
    rows
}

/// The rows that `wall_rows_below` lists are ascending, and a row below
/// `top` is listed exactly if it holds a block.
pub proof fn lemma_wall_rows(gap_y: int, top: int)
    requires
        -WALL_REACH <= top <= WALL_REACH + 1,
    ensures
        forall|k: int, l: int|
            0 <= k < l < wall_rows_below(gap_y, top).len() ==> wall_rows_below(gap_y, top)[k]
                < wall_rows_below(gap_y, top)[l],
        forall|k: int|
            0 <= k < wall_rows_below(gap_y, top).len() ==> #[trigger] wall_rows_below(
                gap_y,
                top,
            )[k] < top && is_wall_row(gap_y, wall_rows_below(gap_y, top)[k] as int),
        forall|y: int|
            y < top && is_wall_row(gap_y, y) ==> wall_rows_below(gap_y, top).contains(y as i32),
    decreases top + WALL_REACH,
{
    if top > -WALL_REACH {
        lemma_wall_rows(gap_y, top - 1);
        let lower = wall_rows_below(gap_y, top - 1);
        let rows = wall_rows_below(gap_y, top);
        assert forall|y: int| y < top && is_wall_row(gap_y, y) implies rows.contains(
            y as i32,
        ) by {
            if y < top - 1 {
                let k = choose|k: int| 0 <= k < lower.len() && lower[k] == y as i32;
                assert(rows[k] == y as i32);
            } else {
                assert(rows[rows.len() - 1] == y as i32);
            }
        }
    }
}

} // verus!
