use vstd::prelude::*;
use vstd::seq_lib::*;
use crate::board::{lemma_wrap_near, live_neighbors, step_spec, valid_grid, wrap_spec};
use crate::cell::{age_of, next_cell, sat_inc, toggled_spec, Cell};

verus! {

/// The 8 toroidal neighbor positions of `(r, c)` on a grid of side `n`,
/// one for each offset in `{-1, 0, 1} × {-1, 0, 1}` minus `(0, 0)`.
pub open spec fn neighbor_indices(n: int, r: int, c: int) -> Seq<(int, int)> {
    seq![
        (wrap_spec(r - 1, n), wrap_spec(c - 1, n)),
        (wrap_spec(r - 1, n), wrap_spec(c, n)),
        (wrap_spec(r - 1, n), wrap_spec(c + 1, n)),
        (wrap_spec(r, n), wrap_spec(c - 1, n)),
        (wrap_spec(r, n), wrap_spec(c + 1, n)),
        (wrap_spec(r + 1, n), wrap_spec(c - 1, n)),
        (wrap_spec(r + 1, n), wrap_spec(c, n)),
        (wrap_spec(r + 1, n), wrap_spec(c + 1, n)),
    ]
}

/// The same positions as a set: a cell's neighborhood on the torus.
pub open spec fn neighborhood(n: int, r: int, c: int) -> Set<(int, int)> {
    neighbor_indices(n, r, c).to_set()
}

/// Law: on a grid of side at least 3, every cell — edge and corner cells
/// included — has a neighborhood of exactly 8 distinct positions, and every
/// one of them is in range. No boundary special-casing is ever needed.
pub proof fn lemma_neighbor_wraparound(n: int, r: int, c: int)
    requires
        3 <= n,
        0 <= r < n,
        0 <= c < n,
    ensures
        neighbor_indices(n, r, c).len() == 8,
        neighbor_indices(n, r, c).no_duplicates(),
        neighborhood(n, r, c).len() == 8,
        forall|p: (int, int)|
            #[trigger] neighborhood(n, r, c).contains(p) ==> 0 <= p.0 < n && 0 <= p.1 < n,
{
    let s = neighbor_indices(n, r, c);
    lemma_wrap_near(r - 1, n);
    lemma_wrap_near(r, n);
    lemma_wrap_near(r + 1, n);
    lemma_wrap_near(c - 1, n);
    lemma_wrap_near(c, n);
    lemma_wrap_near(c + 1, n);
    assert(s.no_duplicates());
    s.unique_seq_to_set();
    assert forall|p: (int, int)| #[trigger]
        neighborhood(n, r, c).contains(p) implies 0 <= p.0 < n && 0 <= p.1 < n by {
        let k = choose|k: int| 0 <= k < s.len() && s[k] == p;
        assert(s[k] == p);
    };
}

/// Law (birth): a dead cell with exactly 3 live neighbors is alive, at age
/// zero, in the next generation.
pub proof fn lemma_birth_rule(g: Seq<Seq<Cell>>, r: int, c: int)
    requires
        valid_grid(g),
        0 <= r < g.len(),
        0 <= c < g.len(),
        g[r][c] is Dead,
        live_neighbors(g, r, c) == 3,
    ensures
        step_spec(g)[r][c] == Cell::Alive(0),
{
}

/// Law (survival): a live cell with 2 or 3 live neighbors is still alive in
/// the next generation, its age one higher (saturating).
pub proof fn lemma_survival_rule(g: Seq<Seq<Cell>>, r: int, c: int)
    requires
        valid_grid(g),
        0 <= r < g.len(),
        0 <= c < g.len(),
        g[r][c] is Alive,
        live_neighbors(g, r, c) == 2 || live_neighbors(g, r, c) == 3,
    ensures
        step_spec(g)[r][c] == Cell::Alive(sat_inc(age_of(g[r][c]))),
{
}

/// Law (death): a live cell with a neighbor count other than 2 or 3 is dead
/// at age zero in the next generation; a dead cell with a count other than 3
/// stays dead, its age one higher (saturating).
pub proof fn lemma_death_rule(g: Seq<Seq<Cell>>, r: int, c: int)
    requires
        valid_grid(g),
        0 <= r < g.len(),
        0 <= c < g.len(),
    ensures
        g[r][c] is Alive && !(live_neighbors(g, r, c) == 2 || live_neighbors(g, r, c) == 3)
            ==> step_spec(g)[r][c] == Cell::Dead(0),
        g[r][c] is Dead && live_neighbors(g, r, c) != 3 ==> step_spec(g)[r][c] == Cell::Dead(
            sat_inc(age_of(g[r][c])),
        ),
{
}

/// Law (age saturation): a cell that stays dead ages by exactly one until
/// the counter reaches `u32::MAX`, where it caps and stays; it never wraps.
pub proof fn lemma_age_saturation(c: Cell, count: int)
    requires
        c is Dead,
        count != 3,
    ensures
        next_cell(c, count) is Dead,
        age_of(c) < u32::MAX ==> age_of(next_cell(c, count)) == age_of(c) + 1,
        age_of(c) == u32::MAX ==> next_cell(c, count) == c,
{
}

/// Law (toggle as involution on polarity): one toggle flips the polarity
/// and zeroes the age; a second toggle restores the original polarity, the
/// age again zero either way.
pub proof fn lemma_toggle_involution(c: Cell)
    ensures
        (toggled_spec(c) is Alive) == !(c is Alive),
        age_of(toggled_spec(c)) == 0,
        (toggled_spec(toggled_spec(c)) is Alive) == (c is Alive),
        toggled_spec(toggled_spec(c)) == (if c is Alive {
            Cell::Alive(0)
        } else {
            Cell::Dead(0)
        }),
{
}

} // verus!
