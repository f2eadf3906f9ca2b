use vstd::prelude::*;

use crate::pattern;
use crate::pattern::Pattern;

verus! {

/// One cell of the torus grid: whether it lives, and for how many
/// cycles it has survived in a row.
#[derive(Clone, Copy, Debug)]
pub struct Cell {
    pub state: Option<()>,
    pub cycles_alive: usize,
}

impl DeepView for Cell {
    type V = Cell;

    open spec fn deep_view(&self) -> Cell {
        *self
    }
}

/// A dead cell with no survival history.
pub open spec fn dead_cell() -> Cell {
    Cell { state: None, cycles_alive: 0 }
}

/// The same cell, brought (back) to life; its history is kept.
pub open spec fn revived(c: Cell) -> Cell {
    Cell { state: Some(()), ..c }
}

/// The same cell with its life toggled; its history is kept.
pub open spec fn toggled(c: Cell) -> Cell {
    if c.state is Some {
        Cell { state: None, ..c }
    } else {
        Cell { state: Some(()), ..c }
    }
}

/// 1 for a live cell, 0 for a dead one.
pub open spec fn alive01(c: Cell) -> nat {
    if c.state is Some {
        1
    } else {
        0
    }
}

impl Default for Cell {
    fn default() -> (c: Cell)
        ensures
            c == dead_cell(),
    {
        Cell { state: None, cycles_alive: 0 }
    }
}

impl Cell {
    #[allow(dead_code)]
    fn alive() -> (c: Cell)
        ensures
            c == revived(dead_cell()),
    {
        Cell { state: Some(()), cycles_alive: 0 }
    }

    fn revive(&mut self)
        ensures
            *final(self) == revived(*old(self)),
    {
        self.state = Some(());
    }

    fn declare_dead(&mut self)
        ensures
            final(self).cycles_alive == 0,
            final(self).state == old(self).state,
    {
        self.cycles_alive = 0;
    }

    fn declear_survival(&mut self)
        requires
            old(self).cycles_alive < usize::MAX,
        ensures
            final(self).cycles_alive == old(self).cycles_alive + 1,
            final(self).state == old(self).state,
    {
        self.cycles_alive = self.cycles_alive + 1;
    }

    /// The CSS color of the cell: plain white while dead, a blue whose
    /// lightness grows with age while alive, capped at its maximum.
    pub open spec fn color_spec(self) -> Seq<char> {
        if self.state is None {
            "hsl(0, 0%, 100%)"@
        } else if self.cycles_alive == 0 {
            "hsl(210, 100%, 0%)"@
        } else if self.cycles_alive == 1 {
            "hsl(210, 100%, 10%)"@
        } else if self.cycles_alive == 2 {
            "hsl(210, 100%, 20%)"@
        } else if self.cycles_alive == 3 {
            "hsl(210, 100%, 30%)"@
        } else if self.cycles_alive == 4 {
            "hsl(210, 100%, 40%)"@
        } else if self.cycles_alive == 5 {
            "hsl(210, 100%, 50%)"@
        } else if self.cycles_alive == 6 {
            "hsl(210, 100%, 60%)"@
        } else if self.cycles_alive == 7 {
            "hsl(210, 100%, 70%)"@
        } else if self.cycles_alive == 8 {
            "hsl(210, 100%, 80%)"@
        } else if self.cycles_alive == 9 {
            "hsl(210, 100%, 90%)"@
        } else {
            "hsl(210, 100%, 100%)"@
        }
    }

    pub fn color(&self) -> (s: String)
        ensures
            s@ == self.color_spec(),
    {
        let text = if self.state.is_none() {
            "hsl(0, 0%, 100%)"
        } else {
            match self.cycles_alive {
                0 => "hsl(210, 100%, 0%)",
                1 => "hsl(210, 100%, 10%)",
                2 => "hsl(210, 100%, 20%)",
                3 => "hsl(210, 100%, 30%)",
                4 => "hsl(210, 100%, 40%)",
                5 => "hsl(210, 100%, 50%)",
                6 => "hsl(210, 100%, 60%)",
                7 => "hsl(210, 100%, 70%)",
                8 => "hsl(210, 100%, 80%)",
                9 => "hsl(210, 100%, 90%)",
                _ => "hsl(210, 100%, 100%)",
            }
        };
        <String as vstd::string::StringExecFns>::from_str(text)
    }
}

/// The coordinates of one cell to toggle.
#[derive(Debug)]
pub struct SwitchOptions {
    pub i: usize,
    pub j: usize,
}

/// The index a signed offset lands on, wrapped around a dimension.
pub open spec fn wrap_index(i: int, d: int) -> int {
    (i + d) % d
}

/// Whether the pattern, anchored at `(sx, sy)`, revives the cell at
/// `(r, c)` of a `rows` by `cols` torus.
pub open spec fn pattern_covers(
    p: Seq<(usize, usize)>,
    sx: int,
    sy: int,
    rows: int,
    cols: int,
    r: int,
    c: int,
) -> bool {
    exists|k: int|
        #![trigger p[k]]
        0 <= k < p.len() && wrap_index(sx + p[k].0, rows) == r && wrap_index(sy + p[k].1, cols)
            == c
}

/// Wrap an offset around a dimension.
fn wrap(i: usize, dimension: usize) -> (r: usize)
    requires
        dimension > 0,
        i + dimension <= usize::MAX,
    ensures
        r == wrap_index(i as int, dimension as int),
        r < dimension,
{
    (i + dimension) % dimension
}

/// How many of the nine cells of the 3-by-3 block centered on
/// `(i, j)` are alive, the center itself included, wrapping around
/// the torus.
pub open spec fn block_count(g: Seq<Seq<Cell>>, i: int, j: int, rows: int, cols: int) -> nat {
    let rm = wrap_index(i - 1, rows);
    let r0 = wrap_index(i, rows);
    let rp = wrap_index(i + 1, rows);
    let cm = wrap_index(j - 1, cols);
    let c0 = wrap_index(j, cols);
    let cp = wrap_index(j + 1, cols);
    alive01(g[rm][cm]) + alive01(g[rm][c0]) + alive01(g[rm][cp]) + alive01(g[r0][cm]) + alive01(
        g[r0][c0],
    ) + alive01(g[r0][cp]) + alive01(g[rp][cm]) + alive01(g[rp][c0]) + alive01(g[rp][cp])
}

/// The fate of one cell, decided by its own 3-by-3 block: a count of
/// three makes or keeps it alive and ages it, a count of two keeps it
/// as it was, anything else kills it and resets its history.
pub open spec fn step_cell(c: Cell, count: nat) -> Cell {
    if count == 3 {
        Cell { state: Some(()), cycles_alive: (c.cycles_alive + 1) as usize }
    } else if count == 2 {
        c
    } else {
        dead_cell()
    }
}

/// The live cells of one row.
pub open spec fn row_alive(row: Seq<Cell>) -> nat
    decreases row.len(),
{
    if row.len() == 0 {
        0
    } else {
        row_alive(row.drop_last()) + alive01(row.last())
    }
}

/// The live cells of a whole grid.
pub open spec fn grid_alive(g: Seq<Seq<Cell>>) -> nat
    decreases g.len(),
{
    if g.len() == 0 {
        0
    } else {
        grid_alive(g.drop_last()) + row_alive(g.last())
    }
}

/// The game: a torus grid of cells, the number of cycles stepped so
/// far, and a live-cell counter.
#[derive(Debug)]
pub struct Game {
    pub state: Vec<Vec<Cell>>,
    pub cycles: usize,
    pub alive_cells: usize,
}

impl Game {
    /// The grid as a sequence of rows of cells.
    pub open spec fn grid(self) -> Seq<Seq<Cell>> {
        self.state.deep_view()
    }

    pub open spec fn rows(self) -> int {
        self.grid().len() as int
    }

    pub open spec fn cols(self) -> int {
        if self.grid().len() == 0 {
            0
        } else {
            self.grid()[0].len() as int
        }
    }

    /// A non-empty grid whose rows all have the same length.
    pub open spec fn well_formed(self) -> bool {
        &&& self.rows() > 0
        &&& self.cols() > 0
        &&& forall|i: int| 0 <= i < self.rows() ==> (#[trigger] self.grid()[i]).len() == self.cols()
    }

    /// An all-dead grid of the given dimensions.
    pub fn empty(rows: usize, cols: usize) -> (g: Game)
        ensures
            g.rows() == rows,
            forall|i: int| 0 <= i < rows ==> (#[trigger] g.grid()[i]).len() == cols,
            forall|i: int, j: int|
                0 <= i < rows && 0 <= j < cols ==> #[trigger] g.grid()[i][j] == dead_cell(),
            g.cycles == 0,
            g.alive_cells == 0,
    {
        let mut state: Vec<Vec<Cell>> = Vec::new();
        while state.len() < rows
            invariant
                state@.len() <= rows,
                forall|i: int| 0 <= i < state@.len()
                    ==> (#[trigger] state.deep_view()[i]).len() == cols,
                forall|i: int, j: int|
                    0 <= i < state@.len() && 0 <= j < cols
                        ==> #[trigger] state.deep_view()[i][j] == dead_cell(),
            decreases rows - state.len(),
        {
            let mut row: Vec<Cell> = Vec::new();
            while row.len() < cols
                invariant
                    row@.len() <= cols,
                    forall|j: int| 0 <= j < row@.len() ==> #[trigger] row@[j] == dead_cell(),
                decreases cols - row.len(),
            {
                row.push(Cell::default());
            }
            let ghost before = state.deep_view();
            state.push(row);
            proof {
                assert(row.deep_view() =~= row@);
                assert(state.deep_view() =~~= before.push(row.deep_view()));
            }
        }
        Game { state, cycles: 0, alive_cells: 0 }
    }

    /// Revive every cell the pattern covers when anchored at
    /// `(start_x, start_y)`; everything else is untouched.
    fn apply_pattern(&mut self, pattern: Pattern, start_x: usize, start_y: usize)
        requires
            old(self).well_formed(),
            forall|k: int|
                0 <= k < pattern@.len() ==> start_x + (#[trigger] pattern@[k]).0
                    + old(self).rows() <= usize::MAX && start_y + pattern@[k].1 + old(self).cols()
                    <= usize::MAX,
        ensures
            final(self).well_formed(),
            final(self).rows() == old(self).rows(),
            final(self).cols() == old(self).cols(),
            final(self).cycles == old(self).cycles,
            final(self).alive_cells == old(self).alive_cells,
            forall|r: int, c: int|
                0 <= r < old(self).rows() && 0 <= c < old(self).cols()
                    ==> #[trigger] final(self).grid()[r][c] == (if pattern_covers(
                    pattern@,
                    start_x as int,
                    start_y as int,
                    old(self).rows(),
                    old(self).cols(),
                    r,
                    c,
                ) {
                    revived(old(self).grid()[r][c])
                } else {
                    old(self).grid()[r][c]
                }),
    {
        let ghost g0 = self.grid();
        let ghost rows_s = self.rows();
        let ghost cols_s = self.cols();
        let rows = self.state.len();
        let cols = self.state[0].len();
        let mut k: usize = 0;
        while k < pattern.len()
            invariant
                0 <= k <= pattern@.len(),
                self.well_formed(),
                self.rows() == rows_s,
                self.cols() == cols_s,
                rows == rows_s,
                cols == cols_s,
                self.cycles == old(self).cycles,
                self.alive_cells == old(self).alive_cells,
                g0 == old(self).grid(),
                forall|t: int|
                    0 <= t < pattern@.len() ==> start_x + (#[trigger] pattern@[t]).0 + rows_s
                        <= usize::MAX && start_y + pattern@[t].1 + cols_s <= usize::MAX,
                forall|r: int, c: int|
                    0 <= r < rows_s && 0 <= c < cols_s ==> #[trigger] self.grid()[r][c] == (
                    if pattern_covers(
                        pattern@.take(k as int),
                        start_x as int,
                        start_y as int,
                        rows_s,
                        cols_s,
                        r,
                        c,
                    ) {
                        revived(g0[r][c])
                    } else {
                        g0[r][c]
                    }),
            decreases pattern@.len() - k,
        {
            let ghost before = self.grid();
            let entry = pattern[k];
            let r = wrap(start_x + entry.0, rows);
            let c = wrap(start_y + entry.1, cols);
            proof {
                assert(self.state@.len() == rows_s);
                assert(self.grid()[r as int].len() == cols_s);
                assert(self.state@[r as int]@.len() == cols_s);
            }
            let mut cell = self.state[r][c];
            cell.revive();
            self.state[r][c] = cell;
            proof {
                let rr = r as int;
                let cc = c as int;
                assert(self.grid() =~~= before.update(rr, before[rr].update(cc, revived(
                    before[rr][cc],
                ))));
                assert forall|pr: int, pc: int| 0 <= pr < rows_s && 0 <= pc < cols_s
                    implies #[trigger] self.grid()[pr][pc] == (if pattern_covers(
                        pattern@.take(k as int + 1),
                        start_x as int,
                        start_y as int,
                        rows_s,
                        cols_s,
                        pr,
                        pc,
                    ) {
                        revived(g0[pr][pc])
                    } else {
                        g0[pr][pc]
                    }) by {
                    assert(pattern@.take(k as int + 1)[k as int] == pattern@[k as int]);
                    if pr == rr && pc == cc {
                        assert(pattern_covers(pattern@.take(k as int + 1), start_x as int,
                            start_y as int, rows_s, cols_s, pr, pc));
                    } else {
                        assert(self.grid()[pr][pc] == before[pr][pc]);
                        if pattern_covers(pattern@.take(k as int + 1), start_x as int,
                            start_y as int, rows_s, cols_s, pr, pc) {
                            let t = choose|t: int|
                                #![trigger pattern@.take(k as int + 1)[t]]
                                0 <= t < k as int + 1 && wrap_index(
                                    start_x + pattern@.take(k as int + 1)[t].0,
                                    rows_s,
                                ) == pr && wrap_index(
                                    start_y + pattern@.take(k as int + 1)[t].1,
                                    cols_s,
                                ) == pc;
                            assert(t < k as int);
                            assert(pattern@.take(k as int)[t] == pattern@[t]);
                            assert(pattern_covers(pattern@.take(k as int), start_x as int,
                                start_y as int, rows_s, cols_s, pr, pc));
                        } else {
                            if pattern_covers(pattern@.take(k as int), start_x as int,
                                start_y as int, rows_s, cols_s, pr, pc) {
                                let t = choose|t: int|
                                    #![trigger pattern@.take(k as int)[t]]
                                    0 <= t < k as int && wrap_index(
                                        start_x + pattern@.take(k as int)[t].0,
                                        rows_s,
                                    ) == pr && wrap_index(
                                        start_y + pattern@.take(k as int)[t].1,
                                        cols_s,
                                    ) == pc;
                                assert(pattern@.take(k as int + 1)[t] == pattern@[t]);
                                assert(false);
                            }
                        }
                    }
                }
            }
            k = k + 1;
        }
        proof {
            assert(pattern@.take(pattern@.len() as int) =~= pattern@);
        }
    }

    /// A fresh game seeded with the copperhead pattern at the center.
    pub fn initialise_random(rows: usize, cols: usize) -> (g: Game)
        requires
            0 < rows <= usize::MAX / 2,
            0 < cols <= usize::MAX / 2,
        ensures
            g.well_formed(),
            g.rows() == rows,
            g.cols() == cols,
            g.cycles == 0,
            g.alive_cells == 0,
            forall|r: int, c: int|
                0 <= r < rows && 0 <= c < cols ==> #[trigger] g.grid()[r][c] == (if pattern_covers(
                    pattern::copperhead_coords(),
                    (rows / 2) as int,
                    (cols / 2) as int,
                    rows as int,
                    cols as int,
                    r,
                    c,
                ) {
                    revived(dead_cell())
                } else {
                    dead_cell()
                }),
    {
        let mut game = Game::empty(rows, cols);
        let seed = pattern::copperhead();
        proof {
            assert forall|k: int| 0 <= k < seed@.len() implies (#[trigger] seed@[k]).0 <= 7
                && seed@[k].1 <= 11 by {
            }
        }
        game.apply_pattern(seed, rows / 2, cols / 2);
        game
    }

    /// Throw the grid away for a fresh all-dead one with the
    /// dimensions swapped, seeded with the copperhead pattern at the
    /// center. The cycle and live-cell counters are left as they were.
    pub fn reset(&mut self)
        requires
            old(self).well_formed(),
            old(self).rows() <= usize::MAX / 2,
            old(self).cols() <= usize::MAX / 2,
        ensures
            final(self).well_formed(),
            final(self).rows() == old(self).cols(),
            final(self).cols() == old(self).rows(),
            final(self).cycles == old(self).cycles,
            final(self).alive_cells == old(self).alive_cells,
            forall|r: int, c: int|
                0 <= r < old(self).cols() && 0 <= c < old(self).rows()
                    ==> #[trigger] final(self).grid()[r][c] == (if pattern_covers(
                    pattern::copperhead_coords(),
                    old(self).cols() / 2,
                    old(self).rows() / 2,
                    old(self).cols(),
                    old(self).rows(),
                    r,
                    c,
                ) {
                    revived(dead_cell())
                } else {
                    dead_cell()
                }),
    {
        let old_rows = self.state.len();
        let old_cols = self.state[0].len();
        let fresh = Game::empty(old_cols, old_rows);
        self.state = fresh.state;
        let seed = pattern::copperhead();
        proof {
            assert forall|k: int| 0 <= k < seed@.len() implies (#[trigger] seed@[k]).0 <= 7
                && seed@[k].1 <= 11 by {
            }
        }
        self.apply_pattern(seed, old_cols / 2, old_rows / 2);
    }

    /// Toggle one cell by hand, keeping the live-cell counter in step;
    /// a decrement below zero is refused rather than wrapped.
    pub fn flip(&mut self, i: usize, j: usize)
        requires
            i < old(self).grid().len(),
            j < old(self).grid()[i as int].len(),
            old(self).alive_cells < usize::MAX,
        ensures
            final(self).grid() == old(self).grid().update(i as int,
                old(self).grid()[i as int].update(j as int, toggled(
                    old(self).grid()[i as int][j as int],
                ))),
            final(self).cycles == old(self).cycles,
            old(self).grid()[i as int][j as int].state is Some ==> final(self).alive_cells == (
            if old(self).alive_cells > 0 {
                (old(self).alive_cells - 1) as usize
            } else {
                0
            }),
            old(self).grid()[i as int][j as int].state is None ==> final(self).alive_cells == old(
                self,
            ).alive_cells + 1,
    {
        let mut cell = self.state[i][j];
        match cell.state {
            Some(_) => {
                cell.state = None;
                if self.alive_cells > 0 {
                    self.alive_cells = self.alive_cells - 1;
                }
            },
            None => {
                cell.state = Some(());
                self.alive_cells = self.alive_cells + 1;
            },
        }
        self.state[i][j] = cell;
        proof {
            assert(final(self).grid() =~~= old(self).grid().update(i as int,
                old(self).grid()[i as int].update(j as int, toggled(
                    old(self).grid()[i as int][j as int],
                ))));
        }
    }

    fn count_neigbours(&self, i: usize, j: usize) -> (count: usize)
        requires
            self.well_formed(),
            i < self.rows(),
            j < self.cols(),
            2 * self.rows() <= usize::MAX,
            2 * self.cols() <= usize::MAX,
        ensures
            count == block_count(self.grid(), i as int, j as int, self.rows(), self.cols()),
            count <= 9,
    {
        let rows = self.state.len();
        let cols = self.state[0].len();
        let rm = (i + rows - 1) % rows;
        let r0 = (i + rows) % rows;
        let rp = (i + rows + 1) % rows;
        let cm = (j + cols - 1) % cols;
        let c0 = (j + cols) % cols;
        let cp = (j + cols + 1) % cols;
        proof {
            assert(rm < rows && r0 < rows && rp < rows);
            assert(cm < cols && c0 < cols && cp < cols);
            assert(self.state@.len() == rows);
            assert(self.grid()[rm as int].len() == cols);
            assert(self.state@[rm as int]@.len() == cols);
            assert(self.grid()[r0 as int].len() == cols);
            assert(self.state@[r0 as int]@.len() == cols);
            assert(self.grid()[rp as int].len() == cols);
            assert(self.state@[rp as int]@.len() == cols);
        }
        let mut count: usize = 0;
        if self.state[rm][cm].state.is_some() {
            count = count + 1;
        }
        if self.state[rm][c0].state.is_some() {
            count = count + 1;
        }
        if self.state[rm][cp].state.is_some() {
            count = count + 1;
        }
        if self.state[r0][cm].state.is_some() {
            count = count + 1;
        }
        if self.state[r0][c0].state.is_some() {
            count = count + 1;
        }
        if self.state[r0][cp].state.is_some() {
            count = count + 1;
        }
        if self.state[rp][cm].state.is_some() {
            count = count + 1;
        }
        if self.state[rp][c0].state.is_some() {
            count = count + 1;
        }
        if self.state[rp][cp].state.is_some() {
            count = count + 1;
        }
        count
    }

    /// One synchronous step of the whole torus: every cell's fate is
    /// decided by its own 3-by-3 block of the old grid, the cycle
    /// counter advances, and the live cells of the new grid are
    /// counted.
    pub fn next_cycle(&self) -> (next: Game)
        requires
            self.well_formed(),
            self.cycles < usize::MAX,
            2 * self.rows() <= usize::MAX,
            2 * self.cols() <= usize::MAX,
            self.rows() * self.cols() <= usize::MAX,
            forall|r: int, c: int|
                0 <= r < self.rows() && 0 <= c < self.cols()
                    ==> (#[trigger] self.grid()[r][c]).cycles_alive < usize::MAX,
        ensures
            next.well_formed(),
            next.rows() == self.rows(),
            next.cols() == self.cols(),
            next.cycles == self.cycles + 1,
            forall|r: int, c: int|
                0 <= r < self.rows() && 0 <= c < self.cols() ==> #[trigger] next.grid()[r][c]
                    == step_cell(self.grid()[r][c], block_count(self.grid(), r, c, self.rows(),
                    self.cols())),
            next.alive_cells == grid_alive(next.grid()),
    {
        let rows = self.state.len();
        let cols = self.state[0].len();
        let mut state: Vec<Vec<Cell>> = Vec::new();
        let mut alive: usize = 0;
        let mut i: usize = 0;
        while i < rows
            invariant
                0 <= i <= rows,
                self.well_formed(),
                rows == self.rows(),
                cols == self.cols(),
                2 * rows <= usize::MAX,
                2 * cols <= usize::MAX,
                rows * cols <= usize::MAX,
                forall|r: int, c: int|
                    0 <= r < rows && 0 <= c < cols ==> (#[trigger] self.grid()[r][c]).cycles_alive
                        < usize::MAX,
                state@.len() == i,
                forall|r: int| 0 <= r < i ==> (#[trigger] state.deep_view()[r]).len() == cols,
                forall|r: int, c: int|
                    0 <= r < i && 0 <= c < cols ==> #[trigger] state.deep_view()[r][c]
                        == step_cell(self.grid()[r][c], block_count(self.grid(), r, c,
                        rows as int, cols as int)),
                alive == grid_alive(state.deep_view()),
                alive <= i * cols,
            decreases rows - i,
        {
            let mut row: Vec<Cell> = Vec::new();
            let mut row_live: usize = 0;
            let mut j: usize = 0;
            while j < cols
                invariant
                    0 <= j <= cols,
                    0 <= i < rows,
                    self.well_formed(),
                    rows == self.rows(),
                    cols == self.cols(),
                    2 * rows <= usize::MAX,
                    2 * cols <= usize::MAX,
                    forall|r: int, c: int|
                        0 <= r < rows && 0 <= c < cols
                            ==> (#[trigger] self.grid()[r][c]).cycles_alive < usize::MAX,
                    row@.len() == j,
                    forall|c: int|
                        0 <= c < j ==> #[trigger] row@[c] == step_cell(self.grid()[i as int][c],
                        block_count(self.grid(), i as int, c, rows as int, cols as int)),
                    row_live == row_alive(row.deep_view()),
                    row_live <= j,
                decreases cols - j,
            {
                let count = self.count_neigbours(i, j);
                proof {
                    assert(self.state@.len() == rows);
                    assert(self.grid()[i as int].len() == cols);
                    assert(self.state@[i as int]@.len() == cols);
                    assert(self.grid()[i as int][j as int].cycles_alive < usize::MAX);
                    assert(self.state@[i as int]@[j as int] == self.grid()[i as int][j as int]);
                }
                let mut cell = self.state[i][j];
                if count == 3 {
                    cell.revive();
                    cell.declear_survival();
                } else if count != 2 {
                    cell.state = None;
                    cell.declare_dead();
                }
                let ghost row_before = row.deep_view();
                row.push(cell);
                if cell.state.is_some() {
                    row_live = row_live + 1;
                }
                proof {
                    assert(row.deep_view() =~= row_before.push(cell));
                    assert(row.deep_view().drop_last() =~= row_before);
                }
                j = j + 1;
            }
            let ghost state_before = state.deep_view();
            state.push(row);
            proof {
                assert(state.deep_view() =~= state_before.push(row.deep_view()));
                assert(state.deep_view().drop_last() =~= state_before);
                assert(alive + row_live <= i * cols + cols) by {
                };
                assert((i + 1) * cols == i * cols + cols) by (nonlinear_arith);
                assert(i * cols + cols <= rows * cols) by (nonlinear_arith)
                    requires
                        0 <= i,
                        i + 1 <= rows,
                        0 <= cols,
                ;
            }
            alive = alive + row_live;
            i = i + 1;
        }
        let next = Game { state, cycles: self.cycles + 1, alive_cells: alive };
        proof {
            assert(next.rows() == self.rows());
            assert(next.grid()[0].len() == cols);
        }
        next
    }
}

} // verus!
