use vstd::prelude::*;
use crate::cell::{Cell, next_cell};
use crate::grid::{Grid, lemma_idx_in_range, lemma_step_at};

verus! {

/// Any number of generations keeps the dimensions, and the buffer keeps
/// exactly `width * height` cells.
pub proof fn lemma_run_keeps_shape(g: Grid, t: nat)
    requires
        g.wf(),
    ensures
        g.run(t).wf(),
        g.run(t).width == g.width,
        g.run(t).height == g.height,
        g.run(t).cells.len() == g.width * g.height,
    decreases t,
{
    if t > 0 {
        lemma_run_keeps_shape(g, (t - 1) as nat);
    }
}

/// The rule: a live cell with fewer than two live neighbours dies, with two or
/// three it survives, with four or more it dies; a dead cell comes alive with
/// exactly three live neighbours and stays dead with any other count.
pub proof fn lemma_rule(c: Cell, n: int)
    requires
        0 <= n <= 8,
    ensures
        c == Cell::Alive && n < 2 ==> next_cell(c, n) == Cell::Dead,
        c == Cell::Alive && (n == 2 || n == 3) ==> next_cell(c, n) == Cell::Alive,
        c == Cell::Alive && n >= 4 ==> next_cell(c, n) == Cell::Dead,
        c == Cell::Dead ==> (next_cell(c, n) == Cell::Alive <==> n == 3),
{
}

/// Wrapping one step back or forward on a ring of size `n`.
proof fn lemma_wrap(x: int, n: int)
    requires
        n >= 2,
        0 <= x < n,
    ensures
        (x + (n - 1)) % n == if x == 0 { n - 1 } else { x - 1 },
        (x + 0) % n == x,
        (x + 1) % n == if x == n - 1 { 0 } else { x + 1 },
{
    vstd::arithmetic::div_mod::lemma_small_mod(x as nat, n as nat);
    if x == 0 {
        vstd::arithmetic::div_mod::lemma_small_mod((n - 1) as nat, n as nat);
    } else {
        vstd::arithmetic::div_mod::lemma_fundamental_div_mod_converse(x + (n - 1), n, 1, x - 1);
    }
    if x == n - 1 {
        vstd::arithmetic::div_mod::lemma_fundamental_div_mod_converse(x + 1, n, 1, 0);
    } else {
        vstd::arithmetic::div_mod::lemma_small_mod((x + 1) as nat, n as nat);
    }
}

/// With wraparound, the neighbours of the corner `(0, 0)` are the cells at
/// `(h-1, w-1)`, `(h-1, 0)`, `(h-1, 1)`, `(0, w-1)`, `(0, 1)`, `(1, w-1)`,
/// `(1, 0)` and `(1, 1)`.
pub proof fn lemma_corner_neighbors(g: Grid)
    requires
        g.wf(),
        g.width >= 2,
        g.height >= 2,
    ensures
        g.neighbor_count(0, 0) == g.alive(g.height - 1, g.width - 1) + g.alive(g.height - 1, 0)
            + g.alive(g.height - 1, 1) + g.alive(0, g.width - 1) + g.alive(0, 1) + g.alive(
            1,
            g.width - 1,
        ) + g.alive(1, 0) + g.alive(1, 1),
{
    lemma_wrap(0, g.height as int);
    lemma_wrap(0, g.width as int);
}

/// Stepping back by one on a ring of size `n`, written with -1 or with `n - 1`.
proof fn lemma_wrap_back(x: int, n: int)
    requires
        n >= 2,
        0 <= x < n,
    ensures
        (x - 1) % n == (x + (n - 1)) % n,
{
    lemma_wrap(x, n);
    if x == 0 {
        vstd::arithmetic::div_mod::lemma_fundamental_div_mod_converse(-1, n, -1, n - 1);
    } else {
        vstd::arithmetic::div_mod::lemma_small_mod((x - 1) as nat, n as nat);
    }
}

/// On a grid of at least 2 by 2, the offsets `height - 1` and `width - 1`
/// reach the same eight neighbours as the offsets -1, 0 and 1 taken modulo
/// the dimensions, the pair (0, 0) left out.
pub proof fn lemma_neighbors_signed_offsets(g: Grid, row: int, col: int)
    requires
        g.wf(),
        g.width >= 2,
        g.height >= 2,
        0 <= row < g.height,
        0 <= col < g.width,
    ensures
        ({
            let h = g.height as int;
            let w = g.width as int;
            g.neighbor_count(row, col) == g.alive((row - 1) % h, (col - 1) % w) + g.alive(
                (row - 1) % h,
                col % w,
            ) + g.alive((row - 1) % h, (col + 1) % w) + g.alive(row % h, (col - 1) % w)
                + g.alive(row % h, (col + 1) % w) + g.alive((row + 1) % h, (col - 1) % w)
                + g.alive((row + 1) % h, col % w) + g.alive((row + 1) % h, (col + 1) % w)
        }),
{
    lemma_wrap_back(row, g.height as int);
    lemma_wrap_back(col, g.width as int);
}

/// Two grids of the same dimensions that agree at every position are equal.
proof fn lemma_grid_ext(a: Grid, b: Grid)
    requires
        a.wf(),
        b.wf(),
        a.width == b.width,
        a.height == b.height,
        forall|row: int, col: int|
            0 <= row < a.height && 0 <= col < a.width ==> #[trigger] a.at(row, col) == b.at(
                row,
                col,
            ),
    ensures
        a == b,
{
    let w = a.width as int;
    let h = a.height as int;
    assert forall|k: int| 0 <= k < a.cells.len() implies a.cells[k] == b.cells[k] by {
        let row = k / w;
        let col = k % w;
        vstd::arithmetic::div_mod::lemma_fundamental_div_mod(k, w);
        assert(0 <= row < h) by (nonlinear_arith)
            requires
                k == w * row + col,
                0 <= col < w,
                0 <= k < w * h,
        ;
        assert(a.at(row, col) == b.at(row, col));
    }
    assert(a.cells =~= b.cells);
}

/// Whether `g` holds a 2 by 2 block with its top-left cell at `(r, c)` and no
/// other live cell.
pub open spec fn is_block(g: Grid, r: int, c: int) -> bool {
    forall|row: int, col: int|
        0 <= row < g.height && 0 <= col < g.width ==> #[trigger] g.at(row, col) == if r <= row
            <= r + 1 && c <= col <= c + 1 {
            Cell::Alive
        } else {
            Cell::Dead
        }
}

/// A 2 by 2 block alone on a grid of at least 4 by 4 is a still life: it is
/// unchanged by one generation and by any number of them.
pub proof fn lemma_block_still_life(g: Grid, r: int, c: int)
    requires
        g.wf(),
        g.width >= 4,
        g.height >= 4,
        0 <= r,
        r + 1 < g.height,
        0 <= c,
        c + 1 < g.width,
        is_block(g, r, c),
    ensures
        g.step() == g,
        forall|t: nat| #[trigger] g.run(t) == g,
{
    let h = g.height as int;
    let w = g.width as int;
    assert forall|row: int, col: int| 0 <= row < h && 0 <= col < w implies #[trigger] g.step().at(
        row,
        col,
    ) == g.at(row, col) by {
        lemma_step_at(g, row, col);
        lemma_wrap(row, h);
        lemma_wrap(col, w);
    }
    lemma_step_at(g, 0, 0);
    lemma_grid_ext(g.step(), g);
    assert forall|t: nat| #[trigger] g.run(t) == g by {
        lemma_run_fixed(g, t);
    }
}

/// A grid equal to its own next generation stays so for any number of them.
proof fn lemma_run_fixed(g: Grid, t: nat)
    requires
        g.step() == g,
    ensures
        g.run(t) == g,
    decreases t,
{
    if t > 0 {
        lemma_run_fixed(g, (t - 1) as nat);
    }
}

/// Whether `g` holds three live cells in a row, at `(r, c)`, `(r, c+1)` and
/// `(r, c+2)`, and no other.
pub open spec fn is_row_blinker(g: Grid, r: int, c: int) -> bool {
    forall|row: int, col: int|
        0 <= row < g.height && 0 <= col < g.width ==> #[trigger] g.at(row, col) == if row == r
            && c <= col <= c + 2 {
            Cell::Alive
        } else {
            Cell::Dead
        }
}

/// Whether `g` holds three live cells in a column, at `(r-1, c+1)`, `(r, c+1)`
/// and `(r+1, c+1)`, and no other.
pub open spec fn is_column_blinker(g: Grid, r: int, c: int) -> bool {
    forall|row: int, col: int|
        0 <= row < g.height && 0 <= col < g.width ==> #[trigger] g.at(row, col) == if r - 1
            <= row <= r + 1 && col == c + 1 {
            Cell::Alive
        } else {
            Cell::Dead
        }
}

/// A blinker alone on a grid of at least 5 by 5 turns from a row into a
/// column, so it differs after one generation, and is back to its original
/// state after exactly two.
pub proof fn lemma_blinker_period_two(g: Grid, r: int, c: int)
    requires
        g.wf(),
        g.width >= 5,
        g.height >= 5,
        1 <= r,
        r + 1 < g.height,
        0 <= c,
        c + 2 < g.width,
        is_row_blinker(g, r, c),
    ensures
        is_column_blinker(g.step(), r, c),
        g.run(1) != g,
        g.run(2) == g,
{
    let h = g.height as int;
    let w = g.width as int;
    let g1 = g.step();
    lemma_step_at(g, 0, 0);
    assert forall|row: int, col: int| 0 <= row < h && 0 <= col < w implies #[trigger] g1.at(
        row,
        col,
    ) == (if r - 1 <= row <= r + 1 && col == c + 1 {
        Cell::Alive
    } else {
        Cell::Dead
    }) by {
        lemma_step_at(g, row, col);
        lemma_wrap(row, h);
        lemma_wrap(col, w);
    }
    let g2 = g1.step();
    lemma_step_at(g1, 0, 0);
    assert forall|row: int, col: int| 0 <= row < h && 0 <= col < w implies #[trigger] g2.at(
        row,
        col,
    ) == g.at(row, col) by {
        lemma_step_at(g1, row, col);
        lemma_wrap(row, h);
        lemma_wrap(col, w);
    }
    lemma_grid_ext(g2, g);
    assert(g1.at(r - 1, c + 1) != g.at(r - 1, c + 1));
    reveal_with_fuel(Grid::run, 3);
}

} // verus!
