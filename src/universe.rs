use vstd::prelude::*;
use vstd::string::StringExecFns;
use crate::cell::{Cell, next_state};
use crate::grid::{Grid, offset, lemma_idx_in_range, lemma_partial_count_full};

verus! {

/// A Game of Life on a fixed-size toroidal grid.
pub struct Universe {
    width: u32,
    height: u32,
    cells: Vec<Cell>,
}

/// Width of the universe that `Universe::new` builds.
pub const WIDTH: u32 = 512;

/// Height of the universe that `Universe::new` builds.
pub const HEIGHT: u32 = 256;

/// The seed pattern: the cell at position `i` starts alive when `i` is a
/// multiple of 2 or of 7.
pub open spec fn seed_cell(i: int) -> Cell {
    if i % 2 == 0 || i % 7 == 0 {
        Cell::Alive
    } else {
        Cell::Dead
    }
}

/// The grid that `Universe::new` builds.
pub open spec fn initial_grid() -> Grid {
    Grid {
        width: WIDTH as nat,
        height: HEIGHT as nat,
        cells: Seq::new((WIDTH * HEIGHT) as nat, |i: int| seed_cell(i)),
    }
}

impl View for Universe {
    type V = Grid;

    closed spec fn view(&self) -> Grid {
        Grid { width: self.width as nat, height: self.height as nat, cells: self.cells@ }
    }
}

impl Universe {
    /// Both dimensions are positive and the buffer holds exactly one cell per position.
    pub open spec fn wf(&self) -> bool {
        self@.wf()
    }

    /// Position in the buffer of the cell at `(row, column)`.
    pub fn get_index(&self, row: u32, column: u32) -> (r: usize)
        requires
            self.wf(),
            row < self@.height,
            column < self@.width,
        ensures
            r == self@.idx(row as int, column as int),
            r < self@.cells.len(),
    {
        let len = self.cells.len();
        proof {
            lemma_idx_in_range(self@, row as int, column as int);
            assert(row * self.width <= row * self.width + column < len);
        }
        row as usize * self.width as usize + column as usize
    }

    /// Number of live cells among the eight neighbours of `(row, column)`,
    /// with wraparound at the edges.
    pub fn live_neighbor_count(&self, row: u32, column: u32) -> (r: u8)
        requires
            self.wf(),
            row < self@.height,
            column < self@.width,
        ensures
            r as int == self@.neighbor_count(row as int, column as int),
    {
        let ghost g = self@;
        let mut count: u8 = 0;
        let mut di: usize = 0;
        while di < 3
            invariant
                self.wf(),
                g == self@,
                row < g.height,
                column < g.width,
                di <= 3,
                count <= di * 3,
                count as int == g.partial_count(row as int, column as int, (di * 3) as nat),
            decreases 3 - di,
        {
            let dr: u32 = if di == 0 {
                self.height - 1
            } else if di == 1 {
                0
            } else {
                1
            };
            let mut dj: usize = 0;
            while dj < 3
                invariant
                    self.wf(),
                    g == self@,
                    row < g.height,
                    column < g.width,
                    di < 3,
                    dj <= 3,
                    dr as int == offset(di as int, g.height),
                    count <= di * 3 + dj,
                    count as int == g.partial_count(row as int, column as int, (di * 3 + dj) as nat),
                decreases 3 - dj,
            {
                let dc: u32 = if dj == 0 {
                    self.width - 1
                } else if dj == 1 {
                    0
                } else {
                    1
                };
                let k: usize = di * 3 + dj;
                assert(k / 3 == di && k % 3 == dj);
                if !(dr == 0 && dc == 0) {
                    let row_idx = ((row as u64 + dr as u64) % (self.height as u64)) as u32;
                    let col_idx = ((column as u64 + dc as u64) % (self.width as u64)) as u32;
                    let idx = self.get_index(row_idx, col_idx);
                    if self.cells[idx] == Cell::Alive {
                        count = count + 1;
                    }
                }
                dj = dj + 1;
            }
            di = di + 1;
        }
        proof {
            lemma_partial_count_full(g, row as int, column as int);
        }
        count
    }

    /// Advances the universe by one generation: every cell of the next
    /// generation is computed from the current one before any is replaced.
    pub fn tick(&mut self)
        requires
            old(self).wf(),
        ensures
            final(self).wf(),
            final(self)@ == old(self)@.step(),
    {
        let ghost g = self@;
        let mut next = self.cells.clone();
        let mut row: u32 = 0;
        while row < self.height
            invariant
                self.wf(),
                g == self@,
                row <= g.height,
                next@.len() == g.cells.len(),
                forall|k: int| 0 <= k < row * g.width ==> next@[k] == #[trigger] g.step().cells[k],
            decreases g.height - row,
        {
            let mut col: u32 = 0;
            while col < self.width
                invariant
                    self.wf(),
                    g == self@,
                    row < g.height,
                    col <= g.width,
                    next@.len() == g.cells.len(),
                    forall|k: int|
                        0 <= k < row * g.width + col ==> next@[k] == #[trigger] g.step().cells[k],
                decreases g.width - col,
            {
                let idx = self.get_index(row, col);
                let live_neighbors = self.live_neighbor_count(row, col);
                let next_cell = next_state(self.cells[idx], live_neighbors);
                proof {
                    lemma_idx_in_range(g, row as int, col as int);
                }
                next.set(idx, next_cell);
                col = col + 1;
            }
            assert(row * g.width + g.width == (row + 1) * g.width) by (nonlinear_arith);
            row = row + 1;
        }
        assert(row * g.width == g.cells.len()) by (nonlinear_arith)
            requires
                row == g.height,
                g.cells.len() == g.width * g.height,
        ;
        assert(next@ =~= g.step().cells);
        self.cells = next;
    }

    /// Builds the 512 by 256 universe seeded with `seed_cell`.
    pub fn new() -> (r: Universe)
        ensures
            r.wf(),
            r@ == initial_grid(),
    {
        let width: u32 = WIDTH;
        let height: u32 = HEIGHT;
        let total: u32 = width * height;
        let mut cells: Vec<Cell> = Vec::new();
        let mut i: u32 = 0;
        while i < total
            invariant
                total == WIDTH * HEIGHT,
                i <= total,
                cells@ =~= Seq::new(i as nat, |j: int| seed_cell(j)),
            decreases total - i,
        {
            let c = if i % 2 == 0 || i % 7 == 0 {
                Cell::Alive
            } else {
                Cell::Dead
            };
            cells.push(c);
            i = i + 1;
        }
        Universe { width, height, cells }
    }

    /// Builds a universe of the given dimensions from its cells in row-major
    /// order; `None` when a dimension is zero or the number of cells is not
    /// `width * height`.
    pub fn from_cells(width: u32, height: u32, cells: Vec<Cell>) -> (r: Option<Universe>)
        ensures
            r is Some <==> (width >= 1 && height >= 1 && cells@.len() == width * height),
            r matches Some(u) ==> u.wf() && u@ == (Grid {
                width: width as nat,
                height: height as nat,
                cells: cells@,
            }),
    {
        if width == 0 || height == 0 {
            return None;
        }
        assert(width as int * height as int <= 0xffff_ffff * 0xffff_ffff) by (nonlinear_arith)
            requires
                width <= 0xffff_ffff,
                height <= 0xffff_ffff,
        ;
        if cells.len() as u64 != width as u64 * height as u64 {
            return None;
        }
        Some(Universe { width, height, cells })
    }

    /// Number of columns, fixed for the universe's lifetime.
    pub fn width(&self) -> (r: u32)
        ensures
            r == self@.width,
    {
        self.width
    }

    /// Number of rows, fixed for the universe's lifetime.
    pub fn height(&self) -> (r: u32)
        ensures
            r == self@.height,
    {
        self.height
    }

    /// A read-only view of the cells in row-major order.
    pub fn cells(&self) -> (r: &[Cell])
        ensures
            r@ == self@.cells,
    {
        self.cells.as_slice()
    }

    /// The grid as text: one line per row, one glyph per cell (◻ for a dead
    /// cell, ◼ for a live one), each line ended by a newline.
    pub fn render(&self) -> (r: String)
        requires
            self.wf(),
        ensures
            r@ == self@.text(),
    {
        let ghost g = self@;
        let mut s = String::new();
        let mut row: u32 = 0;
        while row < self.height
            invariant
                self.wf(),
                g == self@,
                row <= g.height,
                s@ == g.text_upto(row as nat),
            decreases g.height - row,
        {
            let mut col: u32 = 0;
            while col < self.width
                invariant
                    self.wf(),
                    g == self@,
                    row < g.height,
                    col <= g.width,
                    s@ == g.text_upto(row as nat) + g.row_glyphs(row as int, col as nat),
                decreases g.width - col,
            {
                let idx = self.get_index(row, col);
                proof {
                    reveal_strlit("◻");
                    reveal_strlit("◼");
                }
                if self.cells[idx] == Cell::Dead {
                    s.append("◻");
                } else {
                    s.append("◼");
                }
                assert(g.row_glyphs(row as int, (col + 1) as nat) =~= g.row_glyphs(
                    row as int,
                    col as nat,
                ).push(g.at(row as int, col as int).glyph()));
                col = col + 1;
            }
            proof {
                reveal_strlit("\n");
            }
            s.append("\n");
            assert(g.text_upto((row + 1) as nat) =~= g.text_upto(row as nat) + g.row_glyphs(
                row as int,
                g.width,
            ).push('\n'));
            row = row + 1;
        }
        s
    }
}

} // verus!
