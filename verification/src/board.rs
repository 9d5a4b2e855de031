use vstd::prelude::*;
use vstd::arithmetic::div_mod::{lemma_mod_add_multiples_vanish, lemma_mod_twice, lemma_small_mod};
use crate::cell::{Cell, next_cell, toggled_spec, transition};

verus! {

/// Side length of the default board.
pub const BOARD_SIZE: usize = 50;

/// Non-negative (Euclidean) modulo: wraps any index offset by at most one
/// grid length into `[0, n)`, so that edge and corner cells find their
/// neighbors on the opposite side of the torus.
pub open spec fn wrap_spec(i: int, n: int) -> int
    recommends
        0 < n,
{
    ((i % n) + n) % n
}

/// For offsets within one grid length of `[0, n)`, wrapping is a single
/// add or subtract of `n`, and the result is always in range.
pub proof fn lemma_wrap_near(i: int, n: int)
    requires
        0 < n,
        -n <= i < 2 * n,
    ensures
        0 <= wrap_spec(i, n) < n,
        wrap_spec(i, n) == (if i < 0 {
            i + n
        } else if n <= i {
            i - n
        } else {
            i
        }),
{
    if i < 0 {
        lemma_mod_add_multiples_vanish(i, n);
        lemma_small_mod((n + i) as nat, n as nat);
        lemma_mod_add_multiples_vanish(n + i, n);
    } else if i < n {
        lemma_small_mod(i as nat, n as nat);
        lemma_mod_add_multiples_vanish(i, n);
    } else {
        lemma_mod_add_multiples_vanish(i - n, n);
        lemma_small_mod((i - n) as nat, n as nat);
    }
}

/// A well-formed grid is square and non-empty: every row is as long as the
/// column of rows itself.
pub open spec fn valid_grid(g: Seq<Seq<Cell>>) -> bool {
    &&& 1 <= g.len()
    &&& forall|i: int| 0 <= i < g.len() ==> (#[trigger] g[i]).len() == g.len()
}

/// 1 if the cell at toroidal position `(r, c)` is alive, else 0. The row
/// and column are wrapped into range first, so any offset off the edge
/// reads the opposite side.
pub open spec fn live_at(g: Seq<Seq<Cell>>, r: int, c: int) -> int
    recommends
        valid_grid(g),
{
    if g[wrap_spec(r, g.len() as int)][wrap_spec(c, g.len() as int)] is Alive {
        1
    } else {
        0
    }
}

/// The number of live cells among the 8 toroidally adjacent positions:
/// the offsets `{-1, 0, 1} × {-1, 0, 1}` minus `(0, 0)`.
pub open spec fn live_neighbors(g: Seq<Seq<Cell>>, r: int, c: int) -> int
    recommends
        valid_grid(g),
{
    live_at(g, r - 1, c - 1) + live_at(g, r - 1, c) + live_at(g, r - 1, c + 1)
        + live_at(g, r, c - 1) + live_at(g, r, c + 1)
        + live_at(g, r + 1, c - 1) + live_at(g, r + 1, c) + live_at(g, r + 1, c + 1)
}

/// One synchronous generation: every cell's successor is computed from the
/// previous generation's snapshot alone.
pub open spec fn step_spec(g: Seq<Seq<Cell>>) -> Seq<Seq<Cell>> {
    Seq::new(
        g.len(),
        |i: int| Seq::new(g.len(), |j: int| next_cell(g[i][j], live_neighbors(g, i, j))),
    )
}

/// Wrap one step backward on the torus: the index just before `i`.
fn dec_wrap(i: usize, n: usize) -> (wrapped: usize)
    requires
        0 < n,
        i < n,
    ensures
        wrapped < n,
        wrapped as int == wrap_spec(i as int - 1, n as int),
{
    proof {
        lemma_wrap_near(i as int - 1, n as int);
    }
    if i == 0 {
        n - 1
    } else {
        i - 1
    }
}

/// Wrap one step forward on the torus: the index just after `i`.
fn inc_wrap(i: usize, n: usize) -> (wrapped: usize)
    requires
        0 < n,
        i < n,
    ensures
        wrapped < n,
        wrapped as int == wrap_spec(i as int + 1, n as int),
{
    proof {
        lemma_wrap_near(i as int + 1, n as int);
    }
    if i + 1 == n {
        0
    } else {
        i + 1
    }
}

/// A square toroidal grid of cells: one generation of the simulation.
pub struct Board {
    cells: Vec<Vec<Cell>>,
}

impl View for Board {
    type V = Seq<Seq<Cell>>;

    closed spec fn view(&self) -> Seq<Seq<Cell>> {
        self.cells@.map_values(|row: Vec<Cell>| row@)
    }
}

impl Board {
    /// The board's internal invariant: its grid is square and non-empty.
    pub open spec fn well_formed(&self) -> bool {
        valid_grid(self@)
    }

    /// A square board of the given side, fully dead, every age at the
    /// maximum ("never been alive").
    pub fn with_size(side: usize) -> (board: Board)
        requires
            1 <= side,
        ensures
            board.well_formed(),
            board@.len() == side,
            forall|i: int, j: int|
                0 <= i < side && 0 <= j < side ==> board@[i][j] == Cell::Dead(u32::MAX),
    {
        let mut cells: Vec<Vec<Cell>> = Vec::new();
        let mut i: usize = 0;
        while i < side
            invariant
                i <= side,
                cells@.len() == i,
                forall|k: int| 0 <= k < i ==> (#[trigger] cells@[k])@.len() == side,
                forall|k: int, j: int|
                    0 <= k < i && 0 <= j < side ==> cells@[k]@[j] == Cell::Dead(u32::MAX),
            decreases side - i,
        {
            let mut row: Vec<Cell> = Vec::new();
            let mut j: usize = 0;
            while j < side
                invariant
                    j <= side,
                    row@.len() == j,
                    forall|k: int| 0 <= k < j ==> row@[k] == Cell::Dead(u32::MAX),
                decreases side - j,
            {
                row.push(Cell::Dead(u32::MAX));
                j += 1;
            }
            cells.push(row);
            i += 1;
        }
        Board { cells }
    }

    /// The default board: `BOARD_SIZE` by `BOARD_SIZE`, fully dead.
    pub fn new() -> (board: Board)
        ensures
            board.well_formed(),
            board@.len() == BOARD_SIZE,
            forall|i: int, j: int|
                0 <= i < BOARD_SIZE && 0 <= j < BOARD_SIZE ==> board@[i][j] == Cell::Dead(
                    u32::MAX,
                ),
    {
        Board::with_size(BOARD_SIZE)
    }

    /// The side length of the grid.
    pub fn side(&self) -> (n: usize)
        ensures
            n == self@.len(),
    {
        self.cells.len()
    }

    /// Read one cell. No side effects.
    pub fn cell_at(&self, row: usize, col: usize) -> (c: Cell)
        requires
            self.well_formed(),
            row < self@.len(),
            col < self@.len(),
        ensures
            c == self@[row as int][col as int],
    {
        self.cells[row][col]
    }

    /// Flip one cell's polarity, resetting its age to zero; every other
    /// cell is untouched.
    pub fn toggle(&mut self, row: usize, col: usize)
        requires
            old(self).well_formed(),
            row < old(self)@.len(),
            col < old(self)@.len(),
        ensures
            final(self).well_formed(),
            final(self)@.len() == old(self)@.len(),
            final(self)@[row as int][col as int] == toggled_spec(
                old(self)@[row as int][col as int],
            ),
            forall|i: int, j: int|
                0 <= i < final(self)@.len() && 0 <= j < final(self)@.len() && !(i == row && j
                    == col) ==> final(self)@[i][j] == old(self)@[i][j],
    {
        let flipped = self.cells[row][col].toggled();
        self.cells[row][col] = flipped;
        proof {
            assert forall|i: int|
                0 <= i < self@.len() && i != row implies self@[i] == old(self)@[i] by {};
        }
    }

    /// Count the live cells among the 8 toroidal neighbors of `(row, col)`.
    fn live_neighbor_count(&self, row: usize, col: usize) -> (count: u8)
        requires
            self.well_formed(),
            row < self@.len(),
            col < self@.len(),
        ensures
            count as int == live_neighbors(self@, row as int, col as int),
            count <= 8,
    {
        let n = self.cells.len();
        let rm = dec_wrap(row, n);
        let rp = inc_wrap(row, n);
        let cm = dec_wrap(col, n);
        let cp = inc_wrap(col, n);
        proof {
            lemma_wrap_near(row as int, n as int);
            lemma_wrap_near(col as int, n as int);
            assert(self@.len() == n);
            assert forall|k: int| 0 <= k < n implies (#[trigger] self.cells@[k])@.len() == n by {
                assert(self@[k] == self.cells@[k]@);
            };
        }
        let mut count: u8 = 0;
        if self.cells[rm][cm].is_alive() {
            count += 1;
        }
        if self.cells[rm][col].is_alive() {
            count += 1;
        }
        if self.cells[rm][cp].is_alive() {
            count += 1;
        }
        if self.cells[row][cm].is_alive() {
            count += 1;
        }
        if self.cells[row][cp].is_alive() {
            count += 1;
        }
        if self.cells[rp][cm].is_alive() {
            count += 1;
        }
        if self.cells[rp][col].is_alive() {
            count += 1;
        }
        if self.cells[rp][cp].is_alive() {
            count += 1;
        }
        count
    }
}

/// Advance one generation if `advance` is set, else hand the board back
/// unchanged (the pause side of a play/pause control). The new generation
/// is built into a fresh grid from a snapshot of the old one, so every
/// neighbor read observes the previous generation exclusively.
pub fn step(board: Board, advance: bool) -> (next: Board)
    requires
        board.well_formed(),
    ensures
        next.well_formed(),
        next@.len() == board@.len(),
        !advance ==> next@ == board@,
        advance ==> next@ == step_spec(board@),
{
    if !advance {
        return board;
    }
    let n = board.cells.len();
    let mut rows: Vec<Vec<Cell>> = Vec::new();
    let mut i: usize = 0;
    while i < n
        invariant
            board.well_formed(),
            n == board@.len(),
            i <= n,
            rows@.len() == i,
            forall|k: int| 0 <= k < i ==> (#[trigger] rows@[k])@ == step_spec(board@)[k],
        decreases n - i,
    {
        let mut row: Vec<Cell> = Vec::new();
        let mut j: usize = 0;
        while j < n
            invariant
                board.well_formed(),
                n == board@.len(),
                i < n,
                j <= n,
                row@.len() == j,
                forall|k: int|
                    0 <= k < j ==> #[trigger] row@[k] == next_cell(
                        board@[i as int][k],
                        live_neighbors(board@, i as int, k),
                    ),
            decreases n - j,
        {
            let count: u8 = board.live_neighbor_count(i, j);
            let cur: Cell = board.cells[i][j];
            row.push(transition(cur, count));
            j += 1;
        }
        proof {
            assert(row@ =~= step_spec(board@)[i as int]);
        }
        rows.push(row);
        i += 1;
    }
    let next = Board { cells: rows };
    proof {
        assert(next@ =~= step_spec(board@));
        assert forall|k: int| 0 <= k < next@.len() implies (#[trigger] next@[k]).len()
            == next@.len() by {
            assert(next@[k] == step_spec(board@)[k]);
        };
    }
    next
}

} // verus!
