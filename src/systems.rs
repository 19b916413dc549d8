use vstd::prelude::*;

use crate::board::{
    as_ints, compacted, empty_row, full_rows, lemma_clear_bottom_row, row_full, row_set, with_cells, Board,
    CommitError,
};
use crate::collision::{
    blocked, blocked_bottom_at, blocked_left, blocked_right, compute_drop_height, drop_depth,
};
use crate::components::{BlocPosition, GridPos};
use crate::constants::Tetromino;
use crate::resources::{
    cleared, fires, landed, ticked, lemma_cells_near, ControlTimer, Movement, Piece,
    PieceStatus, SpeedTimer, Status,
};

verus! {

/// The piece is on the board and answers to control.
pub open spec fn in_play(s: PieceStatus) -> bool {
    !(s is WaitingSpawn) && !(s is GameOver)
}

/// The piece after one control tick that applies the intents `m`. Blocking
/// and the drop depth are tested once, on the position before the tick. A
/// piece found resting advances through its lock cycle (see `landed`); the
/// intents apply on every tick, the one where the piece locks included:
/// `Left` and `Right` shift it unless blocked, `Rotation` turns it whatever
/// lies around it, `Down` lowers it one row unless blocked, and `Drop` lowers
/// it by the drop depth. Lowering by both takes the larger. A hard drop
/// always marks the piece dropped, even on a tick where it already rests:
/// the piece then locks at the next control tick that brings no new hard
/// drop, so marking the drop takes precedence over locking.
pub open spec fn moved(board: Board, p: Piece, m: Set<Movement>) -> Piece {
    let cells = p.cells();
    let bottom = blocked_bottom_at(board, cells, 0);
    let status = if bottom { landed(p.status) } else { p.status };
    let left: int = if m.contains(Movement::Left) && !blocked_left(board, cells) { 1 } else { 0 };
    let right: int = if m.contains(Movement::Right) && !blocked_right(board, cells) { 1 } else { 0 };
    let hard: int = if m.contains(Movement::Drop) { drop_depth(board, cells) } else { 0 };
    let soft: int = if m.contains(Movement::Down) && !bottom { 1 } else { 0 };
    Piece {
        rotation: if m.contains(Movement::Rotation) { ((p.rotation + 1) % 4) as usize } else { p.rotation },
        x: (p.x - left + right) as isize,
        y: (p.y + if hard >= soft { hard } else { soft }) as isize,
        piece: p.piece,
        status: if m.contains(Movement::Drop) { PieceStatus::JustDropped } else { status },
    }
}

/// The board cells covered by the piece.
pub fn bloc_global_position(piece: &Piece, board: &Board) -> (r: Vec<GridPos>)
    requires
        piece.within(*board),
    ensures
        r@ == piece.cells(),
{
    let mut out: Vec<GridPos> = Vec::new();
    let mut i: usize = 0;
    while i < 4
        invariant
            piece.within(*board),
            i <= 4,
            out@ == piece.cells().take(i as int),
        decreases 4 - i,
    {
        out.push(piece.block_position(board, BlocPosition(i)));
        i = i + 1;
        assert(out@ =~= piece.cells().take(i as int));
    }
    assert(piece.cells().take(4) =~= piece.cells());
    out
}

/// Lets the gravity timer run; when it fires, a `Down` intent is queued.
pub fn drop(timer: &mut SpeedTimer, delta_ms: u64, status: &mut Status)
    requires
        old(timer).0.period_ms > 0,
    ensures
        final(timer).0 == ticked(old(timer).0, delta_ms as int),
        final(status).next_movements@ == if fires(old(timer).0, delta_ms as int) {
            old(status).next_movements@.insert(Movement::Down)
        } else {
            old(status).next_movements@
        },
        final(status).score == old(status).score,
        final(status).level == old(status).level,
        final(status).lines == old(status).lines,
{
    if timer.0.tick(delta_ms) {
        status.queue(Movement::Down);
    }
}

/// Lets the control timer run. Each time it fires the pending intents are
/// drained; when a piece is in play they are applied to it (see `moved`).
pub fn apply_movement(
    timer: &mut ControlTimer,
    delta_ms: u64,
    board: &Board,
    status: &mut Status,
    piece: &mut Piece,
)
    requires
        old(timer).0.period_ms > 0,
        old(piece).within(*board),
    ensures
        final(timer).0 == ticked(old(timer).0, delta_ms as int),
        final(piece).within(*board),
        final(status).score == old(status).score,
        final(status).level == old(status).level,
        final(status).lines == old(status).lines,
        fires(old(timer).0, delta_ms as int) ==> final(status).next_movements@ == Set::<Movement>::empty(),
        !fires(old(timer).0, delta_ms as int) ==> final(status).next_movements == old(status).next_movements,
        fires(old(timer).0, delta_ms as int) && in_play(old(piece).status) ==> *final(piece) == moved(
            *board,
            *old(piece),
            old(status).next_movements@,
        ),
        !(fires(old(timer).0, delta_ms as int) && in_play(old(piece).status)) ==> *final(piece) == *old(piece),
{
    if !timer.0.tick(delta_ms) {
        return;
    }
    let pending = status.next_movements;
    status.next_movements.clear();
    if piece.status == PieceStatus::WaitingSpawn || piece.status == PieceStatus::GameOver {
        return;
    }
    let ghost p0 = *piece;
    proof {
        lemma_cells_near(*piece, *board);
    }
    let cells = bloc_global_position(piece, board);
    let b = blocked(board, &cells);
    let depth = compute_drop_height(board, &cells);
    if b.bottom {
        piece.status = match piece.status {
            PieceStatus::Falling => PieceStatus::JustTouchedBottom(0),
            PieceStatus::JustTouchedBottom(n) => if n == 0 {
                PieceStatus::JustTouchedBottom(1)
            } else {
                PieceStatus::WaitingSpawn
            },
            _ => PieceStatus::WaitingSpawn,
        };
    }
    proof {
        // Facts on one cell bound the anchor after each move.
        lemma_cells_near(p0, *board);
        assert(cells@[0] == p0.cells()[0]);
    }
    if pending.contains(Movement::Left) && !b.left {
        assert(!blocked_left(*board, cells@) ==> cells@[0].x > 0);
        piece.x = piece.x - 1;
    }
    if pending.contains(Movement::Right) && !b.right {
        assert(!blocked_right(*board, cells@) ==> cells@[0].x < board.spec_width() - 1);
        piece.x = piece.x + 1;
    }
    if pending.contains(Movement::Rotation) {
        piece.rotate();
    }
    let mut down: usize = 0;
    if pending.contains(Movement::Drop) {
        down = depth;
        piece.status = PieceStatus::JustDropped;
    }
    if pending.contains(Movement::Down) && !b.bottom && down < 1 {
        down = 1;
    }
    proof {
        if down > 0 {
            assert(!blocked_bottom_at(*board, cells@, down - 1));
            assert(cells@[0].y + down - 1 < board.spec_height() - 1);
        }
    }
    piece.y = piece.y + down as isize;
}

/// Locks the piece: `cells`, the cells it covered when it came to rest,
/// become settled blocks. When they cannot be committed (a cell outside the
/// board or on a settled block) the game ends and the board is left as it was.
pub fn remove_piece(board: &mut Board, piece: &mut Piece, cells: &Vec<GridPos>) -> (r: Result<(), CommitError>)
    requires
        old(board).wf(),
    ensures
        final(board).wf(),
        final(board).spec_width() == old(board).spec_width(),
        final(board).spec_height() == old(board).spec_height(),
        r is Ok <==> (forall|i: int|
            0 <= i < cells@.len() ==> old(board).in_bounds(#[trigger] cells@[i].x as int, cells@[i].y as int)
                && !old(board).occupied(cells@[i].x as int, cells@[i].y as int)),
        r is Ok ==> final(board).grid() == with_cells(old(board).grid(), cells@) && *final(piece) == *old(piece),
        r is Err ==> final(board).grid() == old(board).grid() && *final(piece) == (Piece {
            status: PieceStatus::GameOver,
            ..*old(piece)
        }),
{
    let r = board.commit(cells);
    proof {
        if r is Ok {
            assert forall|i: int| 0 <= i < cells@.len() implies old(board).in_bounds(
                #[trigger] cells@[i].x as int,
                cells@[i].y as int,
            ) && !old(board).occupied(cells@[i].x as int, cells@[i].y as int) by {
                assert(!(r == Err::<(), CommitError>(CommitError::OutOfBounds)));
            }
        } else {
            match r {
                Ok(_) => {},
                Err(e) => {
                    match e {
                        CommitError::OutOfBounds => {},
                        CommitError::Occupied => {},
                    }
                },
            }
        }
    }
    if r.is_err() {
        piece.status = PieceStatus::GameOver;
    }
    r
}

/// Clears the full rows, lets the rows above settle, and scores them.
pub fn completed_line(board: &mut Board, status: &mut Status)
    requires
        old(board).wf(),
    ensures
        final(board).wf(),
        final(board).spec_width() == old(board).spec_width(),
        final(board).spec_height() == old(board).spec_height(),
        final(board).grid() == compacted(
            old(board).grid(),
            full_rows(old(board).grid(), old(board).spec_height()).to_set(),
            old(board).spec_width(),
        ),
        *final(status) == cleared(*old(status), full_rows(old(board).grid(), old(board).spec_height()).len() as int),
{
    let rows = board.completed_rows();
    proof {
        let full = full_rows(board.grid(), board.spec_height());
        assert(row_set(rows@) =~= full.to_set()) by {
            assert forall|y: int| row_set(rows@).contains(y) implies full.to_set().contains(y) by {
                let i = choose|i: int| 0 <= i < rows@.len() && rows@[i] as int == y;
                assert(as_ints(rows@)[i] == y);
            }
            assert forall|y: int| full.to_set().contains(y) implies row_set(rows@).contains(y) by {
                let i = choose|i: int| 0 <= i < full.len() && full[i] == y;
                assert(as_ints(rows@)[i] == y);
            }
        }
        assert(rows@.len() == as_ints(rows@).len());
    }
    board.clear_and_compact(&rows);
    status.record_clear(rows.len());
}

/// Clearing a board whose only full row is the bottom one: `completed_line`
/// removes that row, moves every other row down by one, and scores 100
/// points times the level for one line (when score and lines are far from
/// their limit).
pub proof fn lemma_bottom_row_clear_scores(board: Board, status: Status)
    requires
        board.wf(),
        row_full(board.grid()[board.spec_height() - 1]),
        forall|y: int| 0 <= y < board.spec_height() - 1 ==> !row_full(#[trigger] board.grid()[y]),
        status.score + 100 * status.level <= usize::MAX,
        status.lines + 1 <= usize::MAX,
    ensures
        ({
            let g = board.grid();
            let h = board.spec_height();
            let full = full_rows(g, h);
            &&& compacted(g, full.to_set(), board.spec_width()) == seq![empty_row(board.spec_width())] + g.take(h - 1)
            &&& cleared(status, full.len() as int).score == status.score + 100 * status.level
            &&& cleared(status, full.len() as int).lines == status.lines + 1
        }),
{
    lemma_clear_bottom_row(board);
}

/// The stack reaches the top row.
pub open spec fn topped_out(board: Board) -> bool {
    exists|x: int| board.occupied(x, 0)
}

/// Ends the game once a settled block lies in the top row.
pub fn game_over(board: &Board, piece: &mut Piece)
    requires
        board.wf(),
    ensures
        *final(piece) == if topped_out(*board) {
            Piece { status: PieceStatus::GameOver, ..*old(piece) }
        } else {
            *old(piece)
        },
{
    let mut x: usize = 0;
    while x < board.width()
        invariant
            board.wf(),
            x <= board.spec_width(),
            *piece == *old(piece),
            forall|k: int| 0 <= k < x ==> !#[trigger] board.occupied(k, 0),
        decreases board.spec_width() - x,
    {
        if board.is_occupied(x as isize, 0) {
            piece.status = PieceStatus::GameOver;
            return;
        }
        x = x + 1;
    }
}

/// The anchor column of a new piece: the middle column, rounding down (4 on
/// a board 10 wide).
pub open spec fn spawn_column(board: Board) -> int {
    (board.spec_width() - 1) / 2
}

/// When no piece is in play, puts `next` at the top of the board, unrotated,
/// and drops the intents left from the previous piece.
pub fn spawn_new_piece(status: &mut Status, piece: &mut Piece, board: &Board, next: Tetromino)
    requires
        board.wf(),
        next.wf(),
    ensures
        old(piece).status is WaitingSpawn ==> {
            &&& *final(piece) == (Piece {
                rotation: 0,
                x: spawn_column(*board) as isize,
                y: 0,
                piece: next,
                status: PieceStatus::Falling,
            })
            &&& final(status).next_movements@ == Set::<Movement>::empty()
        },
        !(old(piece).status is WaitingSpawn) ==> *final(piece) == *old(piece) && final(status).next_movements
            == old(status).next_movements,
        final(status).score == old(status).score,
        final(status).level == old(status).level,
        final(status).lines == old(status).lines,
{
    if piece.status == PieceStatus::WaitingSpawn {
        status.next_movements.clear();
        *piece = Piece {
            rotation: 0,
            x: ((board.width() - 1) / 2) as isize,
            y: 0,
            piece: next,
            status: PieceStatus::Falling,
        };
    }
}

/// Milliseconds between two gravity steps at `level`: one second, 50 ms
/// shorter for each level, and never under 10 ms.
pub open spec fn gravity_period(level: int) -> int {
    if 1000 - 50 * level < 10 { 10 } else { 1000 - 50 * level }
}

/// Sets the gravity timer's period from the level.
pub fn update_speed(timer: &mut SpeedTimer, status: &Status)
    ensures
        final(timer).0.period_ms == gravity_period(status.level as int),
        final(timer).0.elapsed_ms == old(timer).0.elapsed_ms,
{
    if status.level >= 20 {
        timer.0.period_ms = 10;
    } else {
        let p = 1000 - 50 * (status.level as u64);
        timer.0.period_ms = if p < 10 { 10 } else { p };
    }
}

/// The cells where the piece would land in a hard drop.
pub fn move_shadow(board: &Board, piece: &Piece) -> (r: Vec<GridPos>)
    requires
        piece.within(*board),
    ensures
        r@.len() == 4,
        forall|i: int|
            0 <= i < 4 ==> (#[trigger] r@[i]).x == piece.cells()[i].x && r@[i].y == piece.cells()[i].y
                + drop_depth(*board, piece.cells()),
{
    proof {
        lemma_cells_near(*piece, *board);
    }
    let cells = bloc_global_position(piece, board);
    let depth = compute_drop_height(board, &cells);
    let mut out: Vec<GridPos> = Vec::new();
    let mut i: usize = 0;
    while i < 4
        invariant
            piece.within(*board),
            cells@ == piece.cells(),
            depth == drop_depth(*board, piece.cells()),
            depth < board.spec_height(),
            i <= 4,
            out@.len() == i,
            forall|k: int| 0 <= k < i ==> (#[trigger] out@[k]).x == cells@[k].x && out@[k].y == cells@[k].y + depth,
        decreases 4 - i,
    {
        proof {
            lemma_cells_near(*piece, *board);
        }
        let c = cells[i];
        out.push(GridPos { x: c.x, y: c.y + depth as isize });
        i = i + 1;
    }
    out
}

} // verus!
