use vstd::prelude::*;

use crate::board::{compacted, full_rows, with_cells, Board, MAX_SIDE};
use crate::constants::{rand_tetromino, Shape, Tetromino};
use crate::resources::{
    cleared, fires, ticked, ControlTimer, Movement, Piece, PieceStatus, SpeedTimer, Status, Timer,
};
use crate::systems::{
    apply_movement, bloc_global_position, completed_line, drop, game_over, gravity_period, in_play,
    moved, remove_piece, spawn_column, spawn_new_piece, topped_out, update_speed,
};

verus! {

/// Milliseconds between two control ticks.
pub const CONTROL_PERIOD_MS: u64 = 200;

/// Milliseconds between two gravity steps when a game starts.
pub const START_SPEED_MS: u64 = 800;

/// The whole state of a game.
pub struct Game {
    pub board: Board,
    pub status: Status,
    pub piece: Piece,
    pub control: ControlTimer,
    pub speed: SpeedTimer,
}

/// The intents of a frame once the gravity timer has had its say.
pub open spec fn intents_after_gravity(g: Game, delta: int) -> Set<Movement> {
    if fires(g.speed.0, delta) {
        g.status.next_movements@.insert(Movement::Down)
    } else {
        g.status.next_movements@
    }
}

/// The piece after the control tick of a frame, if the control timer fires.
pub open spec fn piece_after_control(g: Game, delta: int) -> Piece {
    if fires(g.control.0, delta) && in_play(g.piece.status) {
        moved(g.board, g.piece, intents_after_gravity(g, delta))
    } else {
        g.piece
    }
}

/// The piece locks in this frame.
pub open spec fn locks(g: Game, delta: int) -> bool {
    fires(g.control.0, delta) && in_play(g.piece.status) && piece_after_control(g, delta).status is WaitingSpawn
}

/// Every cell of the piece is on the board and free.
pub open spec fn fits(board: Board, p: Piece) -> bool {
    forall|i: int|
        0 <= i < 4 ==> {
            let c = #[trigger] p.cells()[i];
            board.in_bounds(c.x as int, c.y as int) && !board.occupied(c.x as int, c.y as int)
        }
}

/// A new piece `next` at the top of `board`.
pub open spec fn spawned(board: Board, next: Tetromino) -> Piece {
    Piece { rotation: 0, x: spawn_column(board) as isize, y: 0, piece: next, status: PieceStatus::Falling }
}

/// `after` is the state one frame of `delta` milliseconds after `before`,
/// with `next` as the piece to spawn if one is needed. A finished game does
/// not change. Otherwise gravity may queue `Down`, the control tick drains
/// and applies the intents, and a piece that locks is committed on the cells
/// where it came to rest, before the intents of its last tick: a piece that
/// does not fit there ends the game; one that fits has its full rows cleared
/// and scored, and ends the game if the stack then reaches the top row. When no piece is in
/// play and the game goes on, `next` spawns.
pub open spec fn step_result(before: Game, after: Game, delta: int, next: Tetromino) -> bool {
    let p1 = piece_after_control(before, delta);
    let g1 = with_cells(before.board.grid(), before.piece.cells());
    let full = full_rows(g1, before.board.spec_height());
    if before.piece.status is GameOver {
        after == before
    } else {
        &&& after.board.spec_width() == before.board.spec_width()
        &&& after.board.spec_height() == before.board.spec_height()
        &&& after.control.0 == ticked(before.control.0, delta)
        &&& after.speed.0.period_ms == gravity_period(after.status.level as int)
        &&& after.speed.0.elapsed_ms == ticked(before.speed.0, delta).elapsed_ms
        &&& after.status.next_movements@ == if fires(before.control.0, delta) || p1.status is WaitingSpawn {
            Set::<Movement>::empty()
        } else {
            intents_after_gravity(before, delta)
        }
        &&& !locks(before, delta) ==> {
            &&& after.board.grid() == before.board.grid()
            &&& after.status.score == before.status.score
            &&& after.status.level == before.status.level
            &&& after.status.lines == before.status.lines
            &&& after.piece == if p1.status is WaitingSpawn { spawned(before.board, next) } else { p1 }
        }
        &&& locks(before, delta) && !fits(before.board, before.piece) ==> {
            &&& after.board.grid() == before.board.grid()
            &&& after.status.score == before.status.score
            &&& after.status.level == before.status.level
            &&& after.status.lines == before.status.lines
            &&& after.piece == (Piece { status: PieceStatus::GameOver, ..p1 })
        }
        &&& locks(before, delta) && fits(before.board, before.piece) ==> {
            &&& after.board.grid() == compacted(g1, full.to_set(), before.board.spec_width())
            &&& after.status.score == cleared(before.status, full.len() as int).score
            &&& after.status.level == cleared(before.status, full.len() as int).level
            &&& after.status.lines == cleared(before.status, full.len() as int).lines
            &&& after.piece == if topped_out(after.board) {
                Piece { status: PieceStatus::GameOver, ..p1 }
            } else {
                spawned(before.board, next)
            }
        }
    }
}

impl Game {
    pub open spec fn wf(&self) -> bool {
        &&& self.board.wf()
        &&& self.piece.within(self.board)
        &&& self.status.wf()
        &&& self.control.0.period_ms > 0
        &&& self.speed.0.period_ms > 0
    }

    /// A game on an empty board of the given size, waiting for its first
    /// piece.
    pub fn new(width: usize, height: usize) -> (r: Game)
        requires
            1 <= width <= MAX_SIDE,
            1 <= height <= MAX_SIDE,
        ensures
            r.wf(),
            r.board.spec_width() == width,
            r.board.spec_height() == height,
            r.board.is_empty_grid(),
            r.piece.status is WaitingSpawn,
            r.control.0 == (Timer { period_ms: CONTROL_PERIOD_MS, elapsed_ms: 0 }),
            r.speed.0 == (Timer { period_ms: START_SPEED_MS, elapsed_ms: 0 }),
            r.status.score == 0,
            r.status.level == 1,
            r.status.lines == 0,
            r.status.next_movements@ == Set::<Movement>::empty(),
    {
        let board = Board::new(width, height);
        let piece = Piece {
            rotation: 0,
            x: ((width - 1) / 2) as isize,
            y: 0,
            piece: Tetromino::of_shape(Shape::T),
            status: PieceStatus::WaitingSpawn,
        };
        Game {
            board,
            status: Status::new(),
            piece,
            control: ControlTimer(Timer::new(CONTROL_PERIOD_MS)),
            speed: SpeedTimer(Timer::new(START_SPEED_MS)),
        }
    }

    /// Records a player intent for the next control tick. Intents are
    /// accepted in any state, a finished game included.
    pub fn queue(&mut self, m: Movement)
        requires
            old(self).wf(),
        ensures
            final(self).wf(),
            final(self).status.next_movements@ == old(self).status.next_movements@.insert(m),
            final(self).board == old(self).board,
            final(self).piece == old(self).piece,
            final(self).status.score == old(self).status.score,
            final(self).status.level == old(self).status.level,
            final(self).status.lines == old(self).status.lines,
    {
        self.status.queue(m);
    }

    /// Runs one frame of `delta_ms` milliseconds; `next` spawns if a new
    /// piece is needed.
    pub fn step(&mut self, delta_ms: u64, next: Tetromino)
        requires
            old(self).wf(),
            next.wf(),
        ensures
            final(self).wf(),
            step_result(*old(self), *final(self), delta_ms as int, next),
    {
        if self.piece.status == PieceStatus::GameOver {
            return;
        }
        let ghost g0 = *self;
        drop(&mut self.speed, delta_ms, &mut self.status);
        let in_play_before = self.piece.status != PieceStatus::WaitingSpawn;
        // A piece that locks is committed where it came to rest, before the
        // intents of its last tick.
        let resting = bloc_global_position(&self.piece, &self.board);
        apply_movement(&mut self.control, delta_ms, &self.board, &mut self.status, &mut self.piece);
        let ghost p1 = self.piece;
        assert(p1 == piece_after_control(g0, delta_ms as int));
        if in_play_before && self.piece.status == PieceStatus::WaitingSpawn {
            match remove_piece(&mut self.board, &mut self.piece, &resting) {
                Ok(()) => {
                    completed_line(&mut self.board, &mut self.status);
                    game_over(&self.board, &mut self.piece);
                },
                Err(_) => {},
            }
        }
        update_speed(&mut self.speed, &self.status);
        spawn_new_piece(&mut self.status, &mut self.piece, &self.board, next);
    }

    /// Runs one frame of `delta_ms` milliseconds; a new piece, when needed,
    /// is drawn at random from the catalog.
    pub fn tick(&mut self, delta_ms: u64)
        requires
            old(self).wf(),
        ensures
            final(self).wf(),
            exists|t: Tetromino| t.wf() && step_result(*old(self), *final(self), delta_ms as int, t),
    {
        let next = rand_tetromino();
        self.step(delta_ms, next);
    }
}

} // verus!
