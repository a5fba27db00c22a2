use vstd::prelude::*;

verus! {

/// The state of one cell of the grid.
#[derive(Clone, Copy, Debug, PartialEq, Eq, Structural)]
pub enum Cell {
    Dead,
    Alive,
}

impl Cell {
    /// The cell's weight when neighbours are counted: 1 when alive, 0 when dead.
    pub open spec fn value(self) -> int {
        match self {
            Cell::Dead => 0,
            Cell::Alive => 1,
        }
    }

    /// The character that stands for the cell in a rendering.
    pub open spec fn glyph(self) -> char {
        match self {
            Cell::Dead => '◻',
            Cell::Alive => '◼',
        }
    }
}

/// The update rule, as a chain of cases where the first that matches wins.
pub open spec fn next_cell(c: Cell, n: int) -> Cell {
    if c == Cell::Alive && n < 2 {
        Cell::Dead
    } else if c == Cell::Alive && (n == 2 || n == 3) {
        Cell::Alive
    } else if c == Cell::Alive && n > 3 {
        Cell::Dead
    } else if c == Cell::Dead && n == 3 {
        Cell::Alive
    } else {
        c
    }
}

/// Applies the update rule to a cell with `n` live neighbours.
pub fn next_state(c: Cell, n: u8) -> (r: Cell)
    ensures
        r == next_cell(c, n as int),
{
    match c {
        Cell::Alive => {
            if n < 2 {
                Cell::Dead
            } else if n == 2 || n == 3 {
                Cell::Alive
            } else {
                Cell::Dead
            }
        },
        Cell::Dead => {
            if n == 3 {
                Cell::Alive
            } else {
                Cell::Dead
            }
        },
    }
}

} // verus!
