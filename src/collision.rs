use vstd::prelude::*;

use crate::board::{Board, MAX_SIDE};
use crate::components::{Blocked, GridPos};

verus! {

/// The cells lie near enough to the board that every neighbour and drop
/// position the rules look at is an `isize`.
pub open spec fn cells_near(board: Board, cells: Seq<GridPos>) -> bool {
    forall|i: int|
        0 <= i < cells.len() ==> -(MAX_SIDE as int) <= (#[trigger] cells[i]).x <= 2 * MAX_SIDE && 0 <= cells[i].y
            <= 2 * MAX_SIDE
}

/// Some cell is at (or past) the left wall, or has a settled block on its left.
pub open spec fn blocked_left(board: Board, cells: Seq<GridPos>) -> bool {
    exists|i: int|
        0 <= i < cells.len() && ((#[trigger] cells[i]).x <= 0 || board.occupied(cells[i].x - 1, cells[i].y as int))
}

/// Some cell is at (or past) the right wall, or has a settled block on its right.
pub open spec fn blocked_right(board: Board, cells: Seq<GridPos>) -> bool {
    exists|i: int|
        0 <= i < cells.len() && ((#[trigger] cells[i]).x >= board.spec_width() - 1 || board.occupied(
            cells[i].x + 1,
            cells[i].y as int,
        ))
}

/// Moved down by `d` rows, some cell would rest on the floor (or lie past it)
/// or on a settled block.
pub open spec fn blocked_bottom_at(board: Board, cells: Seq<GridPos>, d: int) -> bool {
    exists|i: int|
        0 <= i < cells.len() && ((#[trigger] cells[i]).y + d >= board.spec_height() - 1 || board.occupied(
            cells[i].x as int,
            cells[i].y + d + 1,
        ))
}

/// `d` is the smallest depth at which the cells would be blocked below.
pub open spec fn is_drop_depth(board: Board, cells: Seq<GridPos>, d: int) -> bool {
    &&& d >= 0
    &&& blocked_bottom_at(board, cells, d)
    &&& forall|k: int| 0 <= k < d ==> !#[trigger] blocked_bottom_at(board, cells, k)
}

/// How far the cells fall in a hard drop.
pub open spec fn drop_depth(board: Board, cells: Seq<GridPos>) -> int {
    choose|d: int| is_drop_depth(board, cells, d)
}

/// At most one depth is the drop depth.
pub proof fn lemma_drop_depth_unique(board: Board, cells: Seq<GridPos>, d1: int, d2: int)
    requires
        is_drop_depth(board, cells, d1),
        is_drop_depth(board, cells, d2),
    ensures
        d1 == d2,
{
    if d1 < d2 {
        assert(!blocked_bottom_at(board, cells, d1));
    } else if d2 < d1 {
        assert(!blocked_bottom_at(board, cells, d2));
    }
}

/// A taller board whose extra rows lie below the old floor and hold no block
/// never shortens a drop: with the same settled blocks in the rows both
/// boards share, the drop depth on the taller board is at least the depth on
/// the shorter one.
pub proof fn lemma_drop_depth_monotonic(short: Board, tall: Board, cells: Seq<GridPos>, d_short: int, d_tall: int)
    requires
        short.wf(),
        tall.wf(),
        tall.spec_width() == short.spec_width(),
        tall.spec_height() >= short.spec_height(),
        forall|y: int| 0 <= y < short.spec_height() ==> #[trigger] tall.grid()[y] == short.grid()[y],
        forall|y: int, x: int| short.spec_height() <= y < tall.spec_height() && 0 <= x < tall.spec_width() ==> !#[trigger] tall.grid()[y][x],
        is_drop_depth(short, cells, d_short),
        is_drop_depth(tall, cells, d_tall),
    ensures
        d_short <= d_tall,
{
    if d_tall < d_short {
        assert(!blocked_bottom_at(short, cells, d_tall));
        assert(blocked_bottom_at(tall, cells, d_tall));
        let i = choose|i: int|
            0 <= i < cells.len() && ((#[trigger] cells[i]).y + d_tall >= tall.spec_height() - 1 || tall.occupied(
                cells[i].x as int,
                cells[i].y + d_tall + 1,
            ));
        assert(!(cells[i].y + d_tall >= short.spec_height() - 1 || short.occupied(
            cells[i].x as int,
            cells[i].y + d_tall + 1,
        )));
        assert(tall.grid()[cells[i].y + d_tall + 1] == short.grid()[cells[i].y + d_tall + 1]);
    }
}

/// Whether the cells, moved down by `d`, would be blocked below.
fn bottom_blocked_at(board: &Board, cells: &Vec<GridPos>, d: usize) -> (r: bool)
    requires
        board.wf(),
        cells_near(*board, cells@),
        d <= 4 * MAX_SIDE,
    ensures
        r == blocked_bottom_at(*board, cells@, d as int),
{
    let floor = board.height() as isize - 1;
    let di = d as isize;
    let mut i: usize = 0;
    while i < cells.len()
        invariant
            board.wf(),
            cells_near(*board, cells@),
            d <= 4 * MAX_SIDE,
            di == d,
            floor == board.spec_height() - 1,
            i <= cells@.len(),
            forall|k: int|
                0 <= k < i ==> !((#[trigger] cells@[k]).y + d >= board.spec_height() - 1 || board.occupied(
                    cells@[k].x as int,
                    cells@[k].y + d + 1,
                )),
        decreases cells.len() - i,
    {
        let c = cells[i];
        assert(cells_near(*board, cells@) ==> 0 <= cells@[i as int].y <= 2 * MAX_SIDE);
        if c.y + di >= floor || board.is_occupied(c.x, c.y + di + 1) {
            assert(blocked_bottom_at(*board, cells@, d as int) == true) by {
                assert(0 <= i < cells@.len());
            }
            return true;
        }
        i = i + 1;
    }
    false
}

/// Which sides of the cells are blocked, tested afresh against the board.
pub fn blocked(board: &Board, cells: &Vec<GridPos>) -> (r: Blocked)
    requires
        board.wf(),
        cells_near(*board, cells@),
    ensures
        r.left == blocked_left(*board, cells@),
        r.right == blocked_right(*board, cells@),
        r.bottom == blocked_bottom_at(*board, cells@, 0),
{
    let last = board.width() as isize - 1;
    let mut left = false;
    let mut right = false;
    let mut i: usize = 0;
    while i < cells.len()
        invariant
            board.wf(),
            cells_near(*board, cells@),
            last == board.spec_width() - 1,
            i <= cells@.len(),
            left == exists|k: int|
                0 <= k < i && ((#[trigger] cells@[k]).x <= 0 || board.occupied(cells@[k].x - 1, cells@[k].y as int)),
            right == exists|k: int|
                0 <= k < i && ((#[trigger] cells@[k]).x >= board.spec_width() - 1 || board.occupied(
                    cells@[k].x + 1,
                    cells@[k].y as int,
                )),
        decreases cells.len() - i,
    {
        let c = cells[i];
        assert(cells_near(*board, cells@) ==> -(MAX_SIDE as int) <= cells@[i as int].x <= 2 * MAX_SIDE);
        if c.x <= 0 || board.is_occupied(c.x - 1, c.y) {
            left = true;
        }
        if c.x >= last || board.is_occupied(c.x + 1, c.y) {
            right = true;
        }
        i = i + 1;
    }
    let bottom = bottom_blocked_at(board, cells, 0);
    Blocked { left, right, bottom }
}

/// The hard-drop depth: the smallest `d >= 0` at which the cells, moved down
/// by `d`, would be blocked below.
pub fn compute_drop_height(board: &Board, cells: &Vec<GridPos>) -> (r: usize)
    requires
        board.wf(),
        cells@.len() > 0,
        cells_near(*board, cells@),
    ensures
        is_drop_depth(*board, cells@, r as int),
        r as int == drop_depth(*board, cells@),
        r < board.spec_height(),
{
    let c0 = cells[0];
    assert(cells_near(*board, cells@) ==> 0 <= cells@[0].y <= 2 * MAX_SIDE);
    let floor = board.height() as isize - 1;
    let bound: usize = if c0.y >= floor { 0 } else { (floor - c0.y) as usize };
    assert(blocked_bottom_at(*board, cells@, bound as int)) by {
        assert(cells@[0].y + bound >= board.spec_height() - 1);
    }
    let mut d: usize = 0;
    loop
        invariant
            board.wf(),
            cells@.len() > 0,
            cells_near(*board, cells@),
            d <= bound,
            bound < board.spec_height(),
            blocked_bottom_at(*board, cells@, bound as int),
            forall|k: int| 0 <= k < d ==> !#[trigger] blocked_bottom_at(*board, cells@, k),
        decreases bound - d,
    {
        if bottom_blocked_at(board, cells, d) {
            proof {
                assert(is_drop_depth(*board, cells@, d as int));
                let w = drop_depth(*board, cells@);
                lemma_drop_depth_unique(*board, cells@, d as int, w);
            }
            return d;
        }
        d = d + 1;
    }
}

} // verus!
