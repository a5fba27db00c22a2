use vstd::prelude::*;
use crate::cell::{Cell, next_cell};

verus! {

/// The row offset (or column offset) of a neighbour, for `k` in 0..3: the
/// offset `n - 1` stands for -1 on a ring of size `n`.
pub open spec fn offset(k: int, n: nat) -> int {
    if k == 0 {
        n - 1
    } else if k == 1 {
        0
    } else {
        1
    }
}

/// The mathematical state of a universe: its dimensions and its cells in
/// row-major order.
pub struct Grid {
    pub width: nat,
    pub height: nat,
    pub cells: Seq<Cell>,
}

impl Grid {
    pub open spec fn wf(self) -> bool {
        &&& self.width >= 1
        &&& self.height >= 1
        &&& self.cells.len() == self.width * self.height
    }

    /// Position of the cell at `(row, col)` in the row-major sequence.
    pub open spec fn idx(self, row: int, col: int) -> int {
        row * self.width + col
    }

    pub open spec fn at(self, row: int, col: int) -> Cell {
        self.cells[self.idx(row, col)]
    }

    pub open spec fn alive(self, row: int, col: int) -> int {
        self.at(row, col).value()
    }

    /// What the neighbour at offsets number `di`, `dj` adds to the count of
    /// `(row, col)`: the pair of offsets (0, 0) is the cell itself and adds nothing.
    pub open spec fn term(self, row: int, col: int, di: int, dj: int) -> int {
        let dr = offset(di, self.height);
        let dc = offset(dj, self.width);
        if dr == 0 && dc == 0 {
            0
        } else {
            self.alive((row + dr) % (self.height as int), (col + dc) % (self.width as int))
        }
    }

    /// Number of live cells in the Moore neighbourhood of `(row, col)`, on the torus.
    pub open spec fn neighbor_count(self, row: int, col: int) -> int {
        self.term(row, col, 0, 0) + self.term(row, col, 0, 1) + self.term(row, col, 0, 2)
            + self.term(row, col, 1, 0) + self.term(row, col, 1, 1) + self.term(row, col, 1, 2)
            + self.term(row, col, 2, 0) + self.term(row, col, 2, 1) + self.term(row, col, 2, 2)
    }

    /// Sum of the first `k` terms of the count, the pairs of offsets taken in
    /// row-major order.
    pub open spec fn partial_count(self, row: int, col: int, k: nat) -> int
        decreases k,
    {
        if k == 0 {
            0
        } else {
            self.partial_count(row, col, (k - 1) as nat) + self.term(
                row,
                col,
                (k - 1) / 3,
                (k - 1) % 3,
            )
        }
    }

    /// The next generation: every cell updated from the counts of this one.
    pub open spec fn step(self) -> Grid {
        Grid {
            width: self.width,
            height: self.height,
            cells: Seq::new(
                self.cells.len(),
                |k: int|
                    next_cell(
                        self.cells[k],
                        self.neighbor_count(k / (self.width as int), k % (self.width as int)),
                    ),
            ),
        }
    }

    /// The grid after `t` generations.
    pub open spec fn run(self, t: nat) -> Grid
        decreases t,
    {
        if t == 0 {
            self
        } else {
            self.run((t - 1) as nat).step()
        }
    }

    /// The first `col` glyphs of row `row`.
    pub open spec fn row_glyphs(self, row: int, col: nat) -> Seq<char> {
        Seq::new(col, |c: int| self.at(row, c).glyph())
    }

    /// The text of the first `n` rows, each row's glyphs followed by a newline.
    pub open spec fn text_upto(self, n: nat) -> Seq<char>
        decreases n,
    {
        if n == 0 {
            Seq::empty()
        } else {
            self.text_upto((n - 1) as nat) + self.row_glyphs(n - 1, self.width).push('\n')
        }
    }

    /// The rendering of the whole grid.
    pub open spec fn text(self) -> Seq<char> {
        self.text_upto(self.height)
    }
}

/// A cell of an in-range position lies in the sequence.
pub proof fn lemma_idx_in_range(g: Grid, row: int, col: int)
    requires
        g.wf(),
        0 <= row < g.height,
        0 <= col < g.width,
    ensures
        0 <= g.idx(row, col) < g.cells.len(),
        g.idx(row, col) / (g.width as int) == row,
        g.idx(row, col) % (g.width as int) == col,
{
    let w = g.width as int;
    let h = g.height as int;
    assert(0 <= row * w + col < w * h) by (nonlinear_arith)
        requires
            0 <= row < h,
            0 <= col < w,
    ;
    vstd::arithmetic::div_mod::lemma_fundamental_div_mod_converse(row * w + col, w, row, col);
}

/// The cell at `(row, col)` of the next generation follows the rule from the
/// cell's state and its count of live neighbours.
pub proof fn lemma_step_at(g: Grid, row: int, col: int)
    requires
        g.wf(),
        0 <= row < g.height,
        0 <= col < g.width,
    ensures
        g.step().wf(),
        g.step().at(row, col) == next_cell(g.at(row, col), g.neighbor_count(row, col)),
{
    lemma_idx_in_range(g, row, col);
}

/// The nine terms summed one by one give the count.
pub proof fn lemma_partial_count_full(g: Grid, row: int, col: int)
    ensures
        g.partial_count(row, col, 9) == g.neighbor_count(row, col),
{
    reveal_with_fuel(Grid::partial_count, 10);
}

} // verus!
