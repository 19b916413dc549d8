use vstd::prelude::*;

use crate::board::Board;
use crate::collision::cells_near;
use crate::components::{BlocPosition, GridPos};
use crate::constants::{lemma_offsets_bounded, Tetromino};

verus! {

/// A player or timer intent, applied at the next control tick.
#[derive(Debug, Clone, Copy, PartialEq, Eq, Hash, Structural)]
pub enum Movement {
    Left,
    Right,
    Rotation,
    Down,
    Drop,
}

/// The pending intents: a set, so an intent issued twice before a control
/// tick is applied once.
#[derive(Debug, Clone, Copy, PartialEq, Eq, Structural)]
pub struct MovementSet {
    left: bool,
    right: bool,
    rotation: bool,
    down: bool,
    drop: bool,
}

impl View for MovementSet {
    type V = Set<Movement>;

    closed spec fn view(&self) -> Set<Movement> {
        Set::new(
            |m: Movement|
                match m {
                    Movement::Left => self.left,
                    Movement::Right => self.right,
                    Movement::Rotation => self.rotation,
                    Movement::Down => self.down,
                    Movement::Drop => self.drop,
                },
        )
    }
}

impl MovementSet {
    /// No pending intent.
    pub fn new() -> (r: MovementSet)
        ensures
            r@ == Set::<Movement>::empty(),
    {
        let r = MovementSet { left: false, right: false, rotation: false, down: false, drop: false };
        assert(r@ =~= Set::<Movement>::empty());
        r
    }

    /// Adds `m`; adding an intent already pending changes nothing.
    pub fn insert(&mut self, m: Movement)
        ensures
            final(self)@ == old(self)@.insert(m),
    {
        match m {
            Movement::Left => self.left = true,
            Movement::Right => self.right = true,
            Movement::Rotation => self.rotation = true,
            Movement::Down => self.down = true,
            Movement::Drop => self.drop = true,
        }
        assert(self@ =~= old(self)@.insert(m));
    }

    pub fn contains(&self, m: Movement) -> (r: bool)
        ensures
            r == self@.contains(m),
    {
        match m {
            Movement::Left => self.left,
            Movement::Right => self.right,
            Movement::Rotation => self.rotation,
            Movement::Down => self.down,
            Movement::Drop => self.drop,
        }
    }

    /// Removes every pending intent.
    pub fn clear(&mut self)
        ensures
            final(self)@ == Set::<Movement>::empty(),
    {
        *self = MovementSet::new();
    }
}

/// Points for clearing `lines` rows at once, before the level multiplier.
pub open spec fn line_points(lines: int) -> int {
    if lines == 1 {
        100
    } else if lines == 2 {
        250
    } else if lines == 3 {
        500
    } else if lines == 4 {
        1000
    } else {
        0
    }
}

/// `a`, held at `usize::MAX`.
pub open spec fn sat(a: int) -> int {
    if a > usize::MAX { usize::MAX as int } else { a }
}

/// The score gained by clearing `lines` rows at `level`.
pub open spec fn score_spec(lines: int, level: int) -> int {
    sat(level * line_points(lines))
}

/// The level reached after `lines` cleared rows.
pub open spec fn level_for(lines: int) -> int {
    1 + lines / 10
}

/// Score, level and cleared lines, with the intents waiting for the next
/// control tick.
#[derive(Debug, Clone, Copy, PartialEq, Eq, Structural)]
pub struct Status {
    pub next_movements: MovementSet,
    pub score: usize,
    pub level: usize,
    pub lines: usize,
}

/// The status after clearing `count` rows at once: the lines and the score
/// grow (held at `usize::MAX`), and the level follows the lines but never drops.
pub open spec fn cleared(s: Status, count: int) -> Status {
    let lines = sat(s.lines + count);
    Status {
        next_movements: s.next_movements,
        score: sat(s.score + score_spec(count, s.level as int)) as usize,
        level: if s.level >= level_for(lines) { s.level } else { level_for(lines) as usize },
        lines: lines as usize,
    }
}

impl Status {
    /// The level matches the cleared lines.
    pub open spec fn wf(&self) -> bool {
        self.level == if 1 > level_for(self.lines as int) { 1 } else { level_for(self.lines as int) }
    }

    /// A new game: no score, level 1, no line and no pending intent.
    pub fn new() -> (r: Status)
        ensures
            r.wf(),
            r.score == 0,
            r.level == 1,
            r.lines == 0,
            r.next_movements@ == Set::<Movement>::empty(),
    {
        Status { next_movements: MovementSet::new(), score: 0, level: 1, lines: 0 }
    }

    /// Records an intent for the next control tick.
    pub fn queue(&mut self, m: Movement)
        ensures
            final(self).next_movements@ == old(self).next_movements@.insert(m),
            final(self).score == old(self).score,
            final(self).level == old(self).level,
            final(self).lines == old(self).lines,
    {
        self.next_movements.insert(m);
    }

    /// Counts `count` rows cleared at once.
    pub fn record_clear(&mut self, count: usize)
        ensures
            *final(self) == cleared(*old(self), count as int),
    {
        self.lines = self.lines.saturating_add(count);
        self.score = self.score.saturating_add(score(count, self.level));
        let next = 1 + self.lines / 10;
        if self.level < next {
            self.level = next;
        }
    }
}

/// The score gained by clearing `lines` rows at once at `level`: 100, 250,
/// 500 or 1000 points for one to four rows, times the level.
pub fn score(lines: usize, level: usize) -> (r: usize)
    ensures
        r == score_spec(lines as int, level as int),
{
    let points: usize = if lines == 1 {
        100
    } else if lines == 2 {
        250
    } else if lines == 3 {
        500
    } else if lines == 4 {
        1000
    } else {
        0
    };
    match level.checked_mul(points) {
        Some(v) => v,
        None => usize::MAX,
    }
}

/// Where the falling piece is in its life.
#[derive(Debug, Clone, Copy, PartialEq, Eq, Structural)]
pub enum PieceStatus {
    /// No piece is in play; the next one spawns.
    WaitingSpawn,
    /// The piece falls under gravity and player control.
    Falling,
    /// The piece rests on something; it locks after one more grace tick.
    JustTouchedBottom(u8),
    /// The piece was hard-dropped; it locks at the next control tick.
    JustDropped,
    /// The stack reached the top: nothing moves any more.
    GameOver,
}

/// The status after the piece was found resting on something.
pub open spec fn landed(s: PieceStatus) -> PieceStatus {
    match s {
        PieceStatus::Falling => PieceStatus::JustTouchedBottom(0),
        PieceStatus::JustTouchedBottom(n) => if n == 0 {
            PieceStatus::JustTouchedBottom(1)
        } else {
            PieceStatus::WaitingSpawn
        },
        _ => PieceStatus::WaitingSpawn,
    }
}

/// The falling piece: its tetromino, rotation, anchor and status.
#[derive(Debug, Clone, Copy, PartialEq, Eq)]
pub struct Piece {
    pub rotation: usize,
    pub x: isize,
    pub y: isize,
    pub piece: Tetromino,
    pub status: PieceStatus,
}

/// `p` turned one quarter turn clockwise; nothing else changes.
pub open spec fn rotated(p: Piece) -> Piece {
    Piece { rotation: ((p.rotation + 1) % 4) as usize, ..p }
}

impl Piece {
    /// The piece's anchor keeps its cells next to the board: columns from -3
    /// to the last column, rows from the top to the last row.
    pub open spec fn within(&self, board: Board) -> bool {
        &&& board.wf()
        &&& self.rotation < 4
        &&& self.piece.wf()
        &&& -3 <= self.x <= board.spec_width() - 1
        &&& 0 <= self.y <= board.spec_height() - 1
    }

    /// The board cells covered by the piece.
    pub open spec fn cells(&self) -> Seq<GridPos> {
        Seq::new(
            4,
            |i: int|
                GridPos {
                    x: (self.x + self.piece.offsets(self.rotation as int)[i].0) as isize,
                    y: (self.y + self.piece.offsets(self.rotation as int)[i].1) as isize,
                },
        )
    }

    /// The board cell of one block of the piece.
    pub fn block_position(&self, board: &Board, block: BlocPosition) -> (r: GridPos)
        requires
            self.within(*board),
            block.0 < 4,
        ensures
            r == self.cells()[block.0 as int],
    {
        proof {
            lemma_cells_near(*self, *board);
        }
        let (dx, dy) = self.piece.orientations[self.rotation].0[block.0];
        GridPos { x: self.x + dx, y: self.y + dy }
    }

    /// Turns the piece one quarter turn. No wall kick: whether the new
    /// position fits is not checked.
    pub fn rotate(&mut self)
        requires
            old(self).rotation < 4,
        ensures
            *final(self) == rotated(*old(self)),
    {
        self.rotation = (self.rotation + 1) % 4;
    }
}

/// The cells of a piece within the board's reach are near the board, with
/// exact coordinates.
pub proof fn lemma_cells_near(p: Piece, board: Board)
    requires
        p.within(board),
    ensures
        cells_near(board, p.cells()),
        p.cells().len() == 4,
        forall|i: int|
            0 <= i < 4 ==> (#[trigger] p.cells()[i]).x == p.x + p.piece.offsets(p.rotation as int)[i].0
                && p.cells()[i].y == p.y + p.piece.offsets(p.rotation as int)[i].1,
{
    lemma_offsets_bounded(p.piece.shape, p.rotation as int);
    assert(p.piece.offsets(p.rotation as int) == crate::constants::offsets_of(p.piece.shape, p.rotation as int));
}

/// Four quarter turns bring a piece back to where it was.
pub proof fn lemma_rotate_four_times(p: Piece)
    requires
        p.rotation < 4,
    ensures
        rotated(rotated(rotated(rotated(p)))) == p,
{
}

/// Clearing one to four rows at level 1 scores 100, 250, 500 or 1000 points,
/// and at level 2 twice as much (when the score is far from its limit).
pub proof fn lemma_score_deltas(first: Status, second: Status, count: int)
    requires
        first.level == 1,
        second.level == 2,
        1 <= count <= 4,
        first.score <= usize::MAX - 2000,
        second.score <= usize::MAX - 2000,
    ensures
        cleared(first, count).score - first.score == if count == 1 {
            100
        } else if count == 2 {
            250
        } else if count == 3 {
            500
        } else {
            1000int
        },
        cleared(second, count).score - second.score == 2 * (cleared(first, count).score - first.score),
{
}

/// Clears add up: the status after clearing `counts[0]`, then `counts[1]`
/// and so on.
pub open spec fn after_clears(s: Status, counts: Seq<int>) -> Status
    decreases counts.len(),
{
    if counts.len() == 0 {
        s
    } else {
        after_clears(cleared(s, counts[0]), counts.drop_first())
    }
}

/// Over any sequence of clears the level never decreases, and after each
/// clear it is `max(1, 1 + lines / 10)`.
pub proof fn lemma_level_never_decreases(s: Status, counts: Seq<int>)
    requires
        s.wf(),
        forall|i: int| 0 <= i < counts.len() ==> #[trigger] counts[i] >= 0,
    ensures
        after_clears(s, counts).level >= s.level,
        after_clears(s, counts).wf(),
    decreases counts.len(),
{
    if counts.len() > 0 {
        let next = cleared(s, counts[0]);
        let lines = sat(s.lines + counts[0]);
        assert(lines / 10 >= s.lines / 10) by (nonlinear_arith)
            requires
                lines >= s.lines,
                s.lines >= 0,
        ;
        assert(next.wf());
        let rest = counts.drop_first();
        assert forall|i: int| 0 <= i < rest.len() implies #[trigger] rest[i] >= 0 by {
            assert(rest[i] == counts[i + 1]);
        }
        lemma_level_never_decreases(next, rest);
    }
}

/// A repeating timer over milliseconds.
#[derive(Debug, Clone, Copy, PartialEq, Eq, Structural)]
pub struct Timer {
    pub period_ms: u64,
    pub elapsed_ms: u64,
}

/// Whether `t` fires when `delta` milliseconds pass.
pub open spec fn fires(t: Timer, delta: int) -> bool {
    t.elapsed_ms + delta >= t.period_ms
}

/// `t` after `delta` milliseconds: on firing, the elapsed time restarts from
/// what exceeds the period.
pub open spec fn ticked(t: Timer, delta: int) -> Timer {
    let total = sat_u64(t.elapsed_ms + delta);
    Timer {
        period_ms: t.period_ms,
        elapsed_ms: (if fires(t, delta) { total % (t.period_ms as int) } else { total }) as u64,
    }
}

impl Timer {
    /// A timer that fires every `period_ms` milliseconds.
    pub fn new(period_ms: u64) -> (r: Timer)
        requires
            period_ms > 0,
        ensures
            r.period_ms == period_ms,
            r.elapsed_ms == 0,
    {
        Timer { period_ms, elapsed_ms: 0 }
    }

    /// Lets `delta_ms` pass. Fires at most once, however long the delay; on
    /// firing the elapsed time restarts from what exceeds the period.
    pub fn tick(&mut self, delta_ms: u64) -> (r: bool)
        requires
            old(self).period_ms > 0,
        ensures
            r == fires(*old(self), delta_ms as int),
            *final(self) == ticked(*old(self), delta_ms as int),
    {
        let total = self.elapsed_ms.saturating_add(delta_ms);
        if total >= self.period_ms {
            self.elapsed_ms = total % self.period_ms;
            true
        } else {
            self.elapsed_ms = total;
            false
        }
    }
}

/// `a`, held at `u64::MAX`.
pub open spec fn sat_u64(a: int) -> int {
    if a > u64::MAX { u64::MAX as int } else { a }
}

/// The timer that gates player control.
#[derive(Debug, Clone, Copy, PartialEq, Eq, Structural)]
pub struct ControlTimer(pub Timer);

/// The timer that makes the piece fall.
#[derive(Debug, Clone, Copy, PartialEq, Eq, Structural)]
pub struct SpeedTimer(pub Timer);

} // verus!
