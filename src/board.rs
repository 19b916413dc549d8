use vstd::prelude::*;

use crate::components::GridPos;

verus! {

/// Largest width or height of a board. It keeps every coordinate the rules
/// compute (a cell beside the board, a row plus a drop depth) within `isize`.
pub const MAX_SIDE: usize = 0x1000_0000;

/// A row is full when every one of its cells is occupied.
pub open spec fn row_full(row: Seq<bool>) -> bool {
    forall|x: int| 0 <= x < row.len() ==> #[trigger] row[x]
}

/// Number of occupied cells in a row.
pub open spec fn row_count(row: Seq<bool>) -> nat
    decreases row.len(),
{
    if row.len() == 0 {
        0
    } else {
        row_count(row.drop_last()) + if row.last() { 1nat } else { 0nat }
    }
}

/// Number of occupied cells in the first `n` rows.
pub open spec fn grid_count(grid: Seq<Seq<bool>>, n: int) -> nat
    decreases n,
{
    if n <= 0 {
        0
    } else {
        grid_count(grid, n - 1) + row_count(grid[n - 1])
    }
}

/// Indices of the full rows among the first `n`, in ascending order.
pub open spec fn full_rows(grid: Seq<Seq<bool>>, n: int) -> Seq<int>
    decreases n,
{
    if n <= 0 {
        Seq::empty()
    } else if row_full(grid[n - 1]) {
        full_rows(grid, n - 1).push(n - 1)
    } else {
        full_rows(grid, n - 1)
    }
}

/// The rows among the first `n` whose index is not in `cleared`, in order.
pub open spec fn kept_rows(grid: Seq<Seq<bool>>, cleared: Set<int>, n: int) -> Seq<Seq<bool>>
    decreases n,
{
    if n <= 0 {
        Seq::empty()
    } else if cleared.contains(n - 1) {
        kept_rows(grid, cleared, n - 1)
    } else {
        kept_rows(grid, cleared, n - 1).push(grid[n - 1])
    }
}

pub open spec fn empty_row(width: int) -> Seq<bool> {
    Seq::new(width as nat, |x: int| false)
}

/// The grid after removing the rows in `cleared`: the kept rows keep their
/// order and settle at the bottom, and empty rows fill the top.
pub open spec fn compacted(grid: Seq<Seq<bool>>, cleared: Set<int>, width: int) -> Seq<Seq<bool>> {
    let kept = kept_rows(grid, cleared, grid.len() as int);
    Seq::new((grid.len() - kept.len()) as nat, |y: int| empty_row(width)) + kept
}

/// The row indices of a sequence, as a set of integers.
pub open spec fn row_set(rows: Seq<usize>) -> Set<int> {
    Set::new(|y: int| exists|i: int| 0 <= i < rows.len() && rows[i] as int == y)
}

/// The grid with each of `cells` marked occupied.
pub open spec fn with_cells(grid: Seq<Seq<bool>>, cells: Seq<GridPos>) -> Seq<Seq<bool>> {
    Seq::new(
        grid.len(),
        |y: int|
            Seq::new(
                grid[y].len(),
                |x: int| grid[y][x] || exists|i: int| 0 <= i < cells.len() && cells[i].x == x && cells[i].y == y,
            ),
    )
}

/// A sequence of row indices, as integers.
pub open spec fn as_ints(rows: Seq<usize>) -> Seq<int> {
    rows.map_values(|v: usize| v as int)
}

/// Why cells could not be committed to the board.
#[derive(Debug, Clone, Copy, PartialEq, Eq, Structural)]
pub enum CommitError {
    /// A cell lies outside the board.
    OutOfBounds,
    /// A cell is already occupied.
    Occupied,
}

/// The settled cells of a game, on a grid of fixed width and height.
pub struct Board {
    width: usize,
    height: usize,
    rows: Vec<Vec<bool>>,
}

impl Board {
    pub closed spec fn spec_width(&self) -> int {
        self.width as int
    }

    pub closed spec fn spec_height(&self) -> int {
        self.height as int
    }

    /// The occupancy grid, indexed by row (`y`) then column (`x`).
    pub closed spec fn grid(&self) -> Seq<Seq<bool>> {
        self.rows@.map_values(|r: Vec<bool>| r@)
    }

    pub open spec fn wf(&self) -> bool {
        &&& 1 <= self.spec_width() <= MAX_SIDE
        &&& 1 <= self.spec_height() <= MAX_SIDE
        &&& self.grid().len() == self.spec_height()
        &&& forall|y: int| 0 <= y < self.spec_height() ==> (#[trigger] self.grid()[y]).len() == self.spec_width()
    }

    pub open spec fn in_bounds(&self, x: int, y: int) -> bool {
        0 <= x < self.spec_width() && 0 <= y < self.spec_height()
    }

    /// Whether the cell `(x, y)` holds a settled block; no cell outside the
    /// board does.
    pub open spec fn occupied(&self, x: int, y: int) -> bool {
        self.in_bounds(x, y) && self.grid()[y][x]
    }

    pub open spec fn is_empty_grid(&self) -> bool {
        forall|y: int, x: int| #![trigger self.grid()[y][x]] self.in_bounds(x, y) ==> !self.grid()[y][x]
    }

    /// An empty board of the given size.
    pub fn new(width: usize, height: usize) -> (r: Board)
        requires
            1 <= width <= MAX_SIDE,
            1 <= height <= MAX_SIDE,
        ensures
            r.wf(),
            r.spec_width() == width,
            r.spec_height() == height,
            r.grid() == Seq::new(height as nat, |y: int| empty_row(width as int)),
    {
        let mut rows: Vec<Vec<bool>> = Vec::new();
        let mut y: usize = 0;
        while y < height
            invariant
                y <= height,
                rows@.len() == y,
                forall|k: int| 0 <= k < y ==> (#[trigger] rows@[k])@ == empty_row(width as int),
            decreases height - y,
        {
            let row = empty_row_vec(width);
            rows.push(row);
            y = y + 1;
        }
        let r = Board { width, height, rows };
        assert(r.grid() =~= Seq::new(height as nat, |y: int| empty_row(width as int)));
        r
    }

    pub fn width(&self) -> (r: usize)
        ensures
            r == self.spec_width(),
    {
        self.width
    }

    pub fn height(&self) -> (r: usize)
        ensures
            r == self.spec_height(),
    {
        self.height
    }

    /// Whether every cell of row `y` is occupied.
    pub fn row_is_full(&self, y: usize) -> (r: bool)
        requires
            self.wf(),
            y < self.spec_height(),
        ensures
            r == row_full(self.grid()[y as int]),
    {
        let row = &self.rows[y];
        assert(row@ == self.grid()[y as int]);
        let mut x: usize = 0;
        while x < self.width
            invariant
                self.wf(),
                row@ == self.grid()[y as int],
                row@.len() == self.spec_width(),
                x <= self.spec_width(),
                forall|k: int| 0 <= k < x ==> #[trigger] row@[k],
            decreases self.width - x,
        {
            if !row[x] {
                return false;
            }
            x = x + 1;
        }
        true
    }

    /// The indices of the full rows, from top to bottom.
    pub fn completed_rows(&self) -> (r: Vec<usize>)
        requires
            self.wf(),
        ensures
            as_ints(r@) == full_rows(self.grid(), self.spec_height()),
    {
        let mut out: Vec<usize> = Vec::new();
        let mut y: usize = 0;
        while y < self.height
            invariant
                self.wf(),
                y <= self.spec_height(),
                as_ints(out@) == full_rows(self.grid(), y as int),
            decreases self.height - y,
        {
            if self.row_is_full(y) {
                out.push(y);
            }
            assert(as_ints(out@) =~= full_rows(self.grid(), y + 1));
            y = y + 1;
        }
        out
    }

    /// Removes the rows whose index is in `rows`, lets the rows above them
    /// settle down by one for each removed row below, and leaves empty rows at
    /// the top. Indices outside the board are ignored.
    pub fn clear_and_compact(&mut self, rows: &Vec<usize>)
        requires
            old(self).wf(),
        ensures
            final(self).wf(),
            final(self).spec_width() == old(self).spec_width(),
            final(self).spec_height() == old(self).spec_height(),
            final(self).grid() == compacted(old(self).grid(), row_set(rows@), old(self).spec_width()),
    {
        let ghost g = self.grid();
        let ghost cleared = row_set(rows@);
        let mut kept: Vec<Vec<bool>> = Vec::new();
        let mut y: usize = 0;
        while y < self.height
            invariant
                self.wf(),
                self.grid() == g,
                cleared == row_set(rows@),
                y <= self.spec_height(),
                kept@.len() == kept_rows(g, cleared, y as int).len(),
                kept@.len() <= y,
                forall|k: int| 0 <= k < kept@.len() ==> (#[trigger] kept@[k])@ == kept_rows(g, cleared, y as int)[k],
            decreases self.height - y,
        {
            let listed = contains_index(rows, y);
            if !listed {
                assert(self.rows@[y as int]@ == g[y as int]);
                let row = copy_row(&self.rows[y]);
                kept.push(row);
            }
            y = y + 1;
        }
        let n_empty = self.height - kept.len();
        let mut new_rows: Vec<Vec<bool>> = Vec::new();
        let mut k: usize = 0;
        while k < n_empty
            invariant
                k <= n_empty,
                new_rows@.len() == k,
                forall|j: int| 0 <= j < k ==> (#[trigger] new_rows@[j])@ == empty_row(self.spec_width()),
            decreases n_empty - k,
        {
            new_rows.push(empty_row_vec(self.width));
            k = k + 1;
        }
        let mut j: usize = 0;
        while j < kept.len()
            invariant
                j <= kept@.len(),
                new_rows@.len() == n_empty + j,
                forall|i: int| 0 <= i < n_empty ==> (#[trigger] new_rows@[i])@ == empty_row(self.spec_width()),
                forall|i: int| 0 <= i < j ==> (#[trigger] new_rows@[n_empty + i])@ == kept@[i]@,
            decreases kept@.len() - j,
        {
            new_rows.push(copy_row(&kept[j]));
            j = j + 1;
        }
        proof {
            lemma_kept_rows_shape(g, cleared, g.len() as int, self.spec_width());
        }
        let ghost kept_spec = kept_rows(g, cleared, g.len() as int);
        assert forall|i: int| n_empty <= i < new_rows@.len() implies (#[trigger] new_rows@[i])@ == kept_spec[i - n_empty] by {
            assert(new_rows@[n_empty + (i - n_empty)]@ == kept@[i - n_empty]@);
        }
        self.rows = new_rows;
        assert(self.grid() =~= compacted(g, cleared, self.spec_width()));
    }

    /// Marks `cells` occupied. Fails, leaving the board unchanged, when a cell
    /// lies outside the board (`OutOfBounds`) or, all inside, when one is
    /// already occupied (`Occupied`).
    pub fn commit(&mut self, cells: &Vec<GridPos>) -> (r: Result<(), CommitError>)
        requires
            old(self).wf(),
        ensures
            final(self).wf(),
            final(self).spec_width() == old(self).spec_width(),
            final(self).spec_height() == old(self).spec_height(),
            r == Err::<(), CommitError>(CommitError::OutOfBounds) <==> exists|i: int|
                0 <= i < cells@.len() && !old(self).in_bounds(#[trigger] cells@[i].x as int, cells@[i].y as int),
            r == Err::<(), CommitError>(CommitError::Occupied) <==> (forall|i: int|
                0 <= i < cells@.len() ==> old(self).in_bounds(#[trigger] cells@[i].x as int, cells@[i].y as int))
                && exists|i: int| 0 <= i < cells@.len() && old(self).occupied(#[trigger] cells@[i].x as int, cells@[i].y as int),
            r is Ok ==> final(self).grid() == with_cells(old(self).grid(), cells@),
            r is Err ==> final(self).grid() == old(self).grid(),
    {
        let mut i: usize = 0;
        while i < cells.len()
            invariant
                self.wf(),
                i <= cells@.len(),
                forall|k: int| 0 <= k < i ==> self.in_bounds(#[trigger] cells@[k].x as int, cells@[k].y as int),
            decreases cells.len() - i,
        {
            let c = cells[i];
            if c.x < 0 || c.y < 0 || c.x as usize >= self.width || c.y as usize >= self.height {
                assert(!self.in_bounds(cells@[i as int].x as int, cells@[i as int].y as int));
                return Err(CommitError::OutOfBounds);
            }
            i = i + 1;
        }
        i = 0;
        while i < cells.len()
            invariant
                self.wf(),
                i <= cells@.len(),
                forall|k: int| 0 <= k < cells@.len() ==> self.in_bounds(#[trigger] cells@[k].x as int, cells@[k].y as int),
                forall|k: int| 0 <= k < i ==> !self.occupied(#[trigger] cells@[k].x as int, cells@[k].y as int),
            decreases cells.len() - i,
        {
            let c = cells[i];
            if self.is_occupied(c.x, c.y) {
                return Err(CommitError::Occupied);
            }
            i = i + 1;
        }
        let ghost g = self.grid();
        assert(with_cells(g, cells@.take(0)) =~~= g);
        i = 0;
        while i < cells.len()
            invariant
                self.wf(),
                self.spec_width() == old(self).spec_width(),
                self.spec_height() == old(self).spec_height(),
                g == old(self).grid(),
                i <= cells@.len(),
                forall|k: int| 0 <= k < cells@.len() ==> old(self).in_bounds(#[trigger] cells@[k].x as int, cells@[k].y as int),
                self.grid() == with_cells(g, cells@.take(i as int)),
            decreases cells.len() - i,
        {
            let c = cells[i];
            assert(old(self).in_bounds(cells@[i as int].x as int, cells@[i as int].y as int));
            self.set_cell(c.x as usize, c.y as usize);
            i = i + 1;
            let ghost prev = cells@.take(i - 1);
            let ghost cur = cells@.take(i as int);
            assert forall|k: int| 0 <= k < i - 1 implies cur[k] == #[trigger] prev[k] by {}
            assert(cur[i - 1] == cells@[i - 1]);
            assert(self.grid() =~~= with_cells(g, cur));
        }
        assert(cells@.take(cells@.len() as int) =~= cells@);
        Ok(())
    }

    fn set_cell(&mut self, x: usize, y: usize)
        requires
            old(self).wf(),
            x < old(self).spec_width(),
            y < old(self).spec_height(),
        ensures
            final(self).wf(),
            final(self).spec_width() == old(self).spec_width(),
            final(self).spec_height() == old(self).spec_height(),
            final(self).grid() == old(self).grid().update(y as int, old(self).grid()[y as int].update(x as int, true)),
    {
        let ghost g = self.grid();
        assert(self.rows@[y as int]@ == g[y as int]);
        let mut row = copy_row(&self.rows[y]);
        row.set(x, true);
        self.rows.set(y, row);
        assert(self.grid() =~= g.update(y as int, g[y as int].update(x as int, true)));
    }

    /// Whether the cell `(x, y)` holds a settled block.
    pub fn is_occupied(&self, x: isize, y: isize) -> (r: bool)
        requires
            self.wf(),
        ensures
            r == self.occupied(x as int, y as int),
    {
        if x < 0 || y < 0 || x as usize >= self.width || y as usize >= self.height {
            false
        } else {
            assert(self.grid()[y as int] == self.rows@[y as int]@);
            self.rows[y as usize][x as usize]
        }
    }
}

/// Every kept row is a row of the grid, so it has the grid's width, and no
/// more rows are kept than there are.
proof fn lemma_kept_rows_shape(grid: Seq<Seq<bool>>, cleared: Set<int>, n: int, width: int)
    requires
        0 <= n <= grid.len(),
        forall|y: int| 0 <= y < grid.len() ==> (#[trigger] grid[y]).len() == width,
    ensures
        kept_rows(grid, cleared, n).len() <= n,
        forall|k: int| 0 <= k < kept_rows(grid, cleared, n).len() ==> (#[trigger] kept_rows(grid, cleared, n)[k]).len() == width,
    decreases n,
{
    if n > 0 {
        lemma_kept_rows_shape(grid, cleared, n - 1, width);
    }
}

fn contains_index(rows: &Vec<usize>, y: usize) -> (r: bool)
    ensures
        r == row_set(rows@).contains(y as int),
{
    let mut i: usize = 0;
    while i < rows.len()
        invariant
            i <= rows@.len(),
            forall|k: int| 0 <= k < i ==> rows@[k] != y,
        decreases rows.len() - i,
    {
        if rows[i] == y {
            return true;
        }
        i = i + 1;
    }
    false
}

fn copy_row(row: &Vec<bool>) -> (r: Vec<bool>)
    ensures
        r@ == row@,
{
    let mut out: Vec<bool> = Vec::new();
    let mut x: usize = 0;
    while x < row.len()
        invariant
            x <= row@.len(),
            out@ == row@.take(x as int),
        decreases row.len() - x,
    {
        out.push(row[x]);
        x = x + 1;
        assert(out@ =~= row@.take(x as int));
    }
    assert(row@.take(row@.len() as int) =~= row@);
    out
}

fn empty_row_vec(width: usize) -> (r: Vec<bool>)
    ensures
        r@ == empty_row(width as int),
{
    let mut row: Vec<bool> = Vec::new();
    let mut x: usize = 0;
    while x < width
        invariant
            x <= width,
            row@ == Seq::new(x as nat, |k: int| false),
        decreases width - x,
    {
        row.push(false);
        x = x + 1;
        assert(row@ =~= Seq::new(x as nat, |k: int| false));
    }
    row
}

} // verus!

verus! {

proof fn lemma_row_count_bound(row: Seq<bool>)
    ensures
        row_count(row) <= row.len(),
        row_count(row) == row.len() <==> row_full(row),
    decreases row.len(),
{
    if row.len() > 0 {
        lemma_row_count_bound(row.drop_last());
        if row_full(row) {
            assert forall|x: int| 0 <= x < row.drop_last().len() implies #[trigger] row.drop_last()[x] by {
                assert(row[x]);
            }
        }
        if row_full(row.drop_last()) && row.last() {
            assert forall|x: int| 0 <= x < row.len() implies #[trigger] row[x] by {
                if x < row.len() - 1 {
                    assert(row.drop_last()[x]);
                }
            }
        }
    }
}

proof fn lemma_empty_row_count(width: int)
    requires
        width >= 0,
    ensures
        row_count(empty_row(width)) == 0,
    decreases width,
{
    if width > 0 {
        assert(empty_row(width).drop_last() =~= empty_row(width - 1));
        lemma_empty_row_count(width - 1);
    }
}

/// The count of the first `n` rows reads only those rows.
proof fn lemma_grid_count_prefix(a: Seq<Seq<bool>>, b: Seq<Seq<bool>>, n: int)
    requires
        0 <= n <= a.len(),
        n <= b.len(),
        forall|y: int| 0 <= y < n ==> a[y] == b[y],
    ensures
        grid_count(a, n) == grid_count(b, n),
    decreases n,
{
    if n > 0 {
        lemma_grid_count_prefix(a, b, n - 1);
    }
}

proof fn lemma_grid_count_concat(a: Seq<Seq<bool>>, b: Seq<Seq<bool>>)
    ensures
        grid_count(a + b, (a.len() + b.len()) as int) == grid_count(a, a.len() as int) + grid_count(b, b.len() as int),
    decreases b.len(),
{
    if b.len() == 0 {
        lemma_grid_count_prefix(a + b, a, a.len() as int);
    } else {
        let b1 = b.drop_last();
        lemma_grid_count_concat(a, b1);
        lemma_grid_count_prefix(a + b, a + b1, (a.len() + b1.len()) as int);
        lemma_grid_count_prefix(b, b1, b1.len() as int);
        assert((a + b)[a.len() + b.len() - 1] == b.last());
    }
}

proof fn lemma_full_rows_members(grid: Seq<Seq<bool>>, n: int)
    requires
        0 <= n <= grid.len(),
    ensures
        forall|y: int| #[trigger] full_rows(grid, n).contains(y) <==> 0 <= y < n && row_full(grid[y]),
        forall|k: int| 0 <= k < full_rows(grid, n).len() ==> 0 <= #[trigger] full_rows(grid, n)[k] < n,
    decreases n,
{
    if n > 0 {
        lemma_full_rows_members(grid, n - 1);
        let prev = full_rows(grid, n - 1);
        let cur = full_rows(grid, n);
        assert forall|y: int| #[trigger] cur.contains(y) <==> 0 <= y < n && row_full(grid[y]) by {
            if 0 <= y < n - 1 && row_full(grid[y]) {
                assert(prev.contains(y));
                let k = choose|k: int| 0 <= k < prev.len() && prev[k] == y;
                assert(cur[k] == y);
            }
            if y == n - 1 && row_full(grid[y]) {
                assert(cur[prev.len() as int] == y);
            }
            if cur.contains(y) {
                let k = choose|k: int| 0 <= k < cur.len() && cur[k] == y;
                if k < prev.len() {
                    assert(prev[k] == y);
                    assert(prev.contains(y));
                }
            }
        }
        assert forall|k: int| 0 <= k < cur.len() implies 0 <= #[trigger] cur[k] < n by {
            if k < prev.len() {
                assert(cur[k] == prev[k]);
            }
        }
    }
}

/// Rows not cleared are kept and counted; cleared rows are full and counted
/// among the full rows.
proof fn lemma_kept_count(grid: Seq<Seq<bool>>, cleared: Set<int>, n: int, width: int)
    requires
        0 <= n <= grid.len(),
        forall|y: int| 0 <= y < grid.len() ==> (#[trigger] grid[y]).len() == width,
        forall|y: int| 0 <= y < grid.len() ==> (cleared.contains(y) <==> row_full(#[trigger] grid[y])),
    ensures
        grid_count(grid, n) == grid_count(kept_rows(grid, cleared, n), kept_rows(grid, cleared, n).len() as int)
            + width * full_rows(grid, n).len(),
        forall|k: int| 0 <= k < kept_rows(grid, cleared, n).len() ==> !row_full(#[trigger] kept_rows(grid, cleared, n)[k]),
    decreases n,
{
    if n > 0 {
        lemma_kept_count(grid, cleared, n - 1, width);
        let prev = kept_rows(grid, cleared, n - 1);
        lemma_row_count_bound(grid[n - 1]);
        if !cleared.contains(n - 1) {
            let cur = kept_rows(grid, cleared, n);
            lemma_grid_count_prefix(cur, prev, prev.len() as int);
            assert(cur[prev.len() as int] == grid[n - 1]);
            assert forall|k: int| 0 <= k < cur.len() implies !row_full(#[trigger] cur[k]) by {
                if k < prev.len() {
                    assert(cur[k] == prev[k]);
                }
            }
        }
        assert(width * full_rows(grid, n).len() == width * full_rows(grid, n - 1).len() + if row_full(grid[n - 1]) {
            width
        } else {
            0
        }) by (nonlinear_arith)
            requires
                full_rows(grid, n).len() == full_rows(grid, n - 1).len() + if row_full(grid[n - 1]) { 1int } else { 0int },
        ;
    }
}

proof fn lemma_no_full_rows(grid: Seq<Seq<bool>>, n: int)
    requires
        0 <= n <= grid.len(),
        forall|y: int| 0 <= y < n ==> !row_full(#[trigger] grid[y]),
    ensures
        full_rows(grid, n).len() == 0,
    decreases n,
{
    if n > 0 {
        lemma_no_full_rows(grid, n - 1);
    }
}

/// Clearing the completed rows: each of them holds exactly `width` blocks;
/// afterwards no row is full, and the board holds `width` blocks fewer for
/// each cleared row.
pub proof fn lemma_clear_completed_rows(board: Board)
    requires
        board.wf(),
    ensures
        ({
            let g = board.grid();
            let w = board.spec_width();
            let h = board.spec_height();
            let full = full_rows(g, h);
            let after = compacted(g, full.to_set(), w);
            &&& forall|k: int| 0 <= k < full.len() ==> 0 <= #[trigger] full[k] < h && row_count(g[full[k]]) == w
            &&& after.len() == h
            &&& full_rows(after, h).len() == 0
            &&& grid_count(after, h) + w * full.len() == grid_count(g, h)
        }),
{
    let g = board.grid();
    let w = board.spec_width();
    let h = board.spec_height();
    let full = full_rows(g, h);
    let s = full.to_set();
    lemma_full_rows_members(g, h);
    assert forall|k: int| 0 <= k < full.len() implies 0 <= #[trigger] full[k] < h && row_count(g[full[k]]) == w by {
        assert(full.contains(full[k]));
        lemma_row_count_bound(g[full[k]]);
    }
    assert forall|y: int| 0 <= y < g.len() implies (s.contains(y) <==> row_full(#[trigger] g[y])) by {}
    lemma_kept_count(g, s, h, w);
    lemma_kept_rows_shape(g, s, h, w);
    let kept = kept_rows(g, s, h);
    let empties = Seq::new((g.len() - kept.len()) as nat, |y: int| empty_row(w));
    let after = compacted(g, s, w);
    assert(after == empties + kept);
    // Empty rows hold no block, and are not full since the board has a column.
    assert forall|m: int| 0 <= m <= empties.len() implies grid_count(empties, m) == 0 by {
        lemma_empties_count(empties, m, w);
    }
    lemma_grid_count_concat(empties, kept);
    assert forall|y: int| 0 <= y < h implies !row_full(#[trigger] after[y]) by {
        if y < empties.len() {
            assert(!after[y][0]);
        } else {
            assert(after[y] == kept[y - empties.len()]);
        }
    }
    lemma_no_full_rows(after, h);
}

proof fn lemma_empties_count(empties: Seq<Seq<bool>>, m: int, w: int)
    requires
        w >= 0,
        0 <= m <= empties.len(),
        forall|y: int| 0 <= y < empties.len() ==> #[trigger] empties[y] == empty_row(w),
    ensures
        grid_count(empties, m) == 0,
    decreases m,
{
    if m > 0 {
        lemma_empties_count(empties, m - 1, w);
        lemma_empty_row_count(w);
    }
}

} // verus!

verus! {

proof fn lemma_kept_prefix(grid: Seq<Seq<bool>>, cleared: Set<int>, n: int)
    requires
        0 <= n <= grid.len(),
        forall|y: int| 0 <= y < n ==> !#[trigger] cleared.contains(y),
    ensures
        kept_rows(grid, cleared, n) == grid.take(n),
    decreases n,
{
    if n > 0 {
        lemma_kept_prefix(grid, cleared, n - 1);
        assert(grid.take(n - 1).push(grid[n - 1]) =~= grid.take(n));
    }
}

/// When the bottom row is the only full row, it is the one completed row;
/// clearing it moves every other row down by one and leaves an empty row at
/// the top, and the board holds `width` blocks fewer.
pub proof fn lemma_clear_bottom_row(board: Board)
    requires
        board.wf(),
        row_full(board.grid()[board.spec_height() - 1]),
        forall|y: int| 0 <= y < board.spec_height() - 1 ==> !row_full(#[trigger] board.grid()[y]),
    ensures
        ({
            let g = board.grid();
            let h = board.spec_height();
            let w = board.spec_width();
            let after = compacted(g, full_rows(g, h).to_set(), w);
            &&& full_rows(g, h) == seq![h - 1]
            &&& after == seq![empty_row(w)] + g.take(h - 1)
            &&& grid_count(after, h) + w == grid_count(g, h)
        }),
{
    let g = board.grid();
    let h = board.spec_height();
    let w = board.spec_width();
    lemma_no_full_rows(g, h - 1);
    assert(full_rows(g, h) =~= seq![h - 1]);
    let s = full_rows(g, h).to_set();
    assert(s.contains(h - 1)) by {
        assert(full_rows(g, h)[0] == h - 1);
    }
    assert forall|y: int| 0 <= y < h - 1 implies !#[trigger] s.contains(y) by {
        if s.contains(y) {
            let k = choose|k: int| 0 <= k < full_rows(g, h).len() && full_rows(g, h)[k] == y;
        }
    }
    lemma_kept_prefix(g, s, h - 1);
    assert(kept_rows(g, s, h) == g.take(h - 1));
    assert(compacted(g, s, w) =~= seq![empty_row(w)] + g.take(h - 1));
    lemma_clear_completed_rows(board);
}

} // verus!
