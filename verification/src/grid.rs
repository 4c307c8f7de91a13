//! The mathematical model of the grid: its dimensions, its cells in row-major
//! order, and what one generation does to them.

use vstd::prelude::*;
use crate::cell::Cell;

verus! {

/// The coordinate before `value` on an axis of `size` positions whose two ends
/// are adjacent.
pub open spec fn wrap_prev(value: int, size: int) -> int {
    if value == 0 {
        size - 1
    } else {
        value - 1
    }
}

/// The coordinate after `value` on an axis of `size` positions whose two ends
/// are adjacent.
pub open spec fn wrap_next(value: int, size: int) -> int {
    if value == size - 1 {
        0
    } else {
        value + 1
    }
}

/// A grid as a mathematical value.
pub struct Grid {
    pub width: nat,
    pub height: nat,
    pub cells: Seq<Cell>,
}

impl Grid {
    /// A grid has at least one row and one column, and exactly one cell for
    /// each coordinate pair.
    pub open spec fn wf(self) -> bool {
        &&& self.width > 0
        &&& self.height > 0
        &&& self.cells.len() == self.width * self.height
    }

    /// Whether `(row, col)` names a cell of the grid.
    pub open spec fn contains(self, row: int, col: int) -> bool {
        0 <= row < self.height && 0 <= col < self.width
    }

    /// The position of `(row, col)` in the row-major cell sequence.
    pub open spec fn index(self, row: int, col: int) -> int {
        row * self.width + col
    }

    /// The cell at `(row, col)`.
    pub open spec fn cell(self, row: int, col: int) -> Cell {
        self.cells[self.index(row, col)]
    }

    /// What the cell at `(r, c)` adds to the neighbour count of `(row, col)`:
    /// its value, unless it is `(row, col)` itself.
    pub open spec fn counted(self, row: int, col: int, r: int, c: int) -> nat {
        if r == row && c == col {
            0
        } else {
            self.cell(r, c).spec_value()
        }
    }

    /// What row `r` adds to the neighbour count of `(row, col)`: the cells of
    /// that row in the column before `col`, in `col` and in the column after.
    pub open spec fn counted_in_row(self, row: int, col: int, r: int) -> nat {
        let w = self.width as int;
        self.counted(row, col, r, wrap_prev(col, w)) + self.counted(row, col, r, col)
            + self.counted(row, col, r, wrap_next(col, w))
    }

    /// The number of live cells around `(row, col)`: over the row before, the
    /// row itself and the row after, each taken in the column before, the
    /// column itself and the column after, with both axes wrapping and the
    /// cell `(row, col)` left out.
    pub open spec fn live_neighbor_count(self, row: int, col: int) -> nat {
        let h = self.height as int;
        self.counted_in_row(row, col, wrap_prev(row, h)) + self.counted_in_row(row, col, row)
            + self.counted_in_row(row, col, wrap_next(row, h))
    }

    /// The grid one generation later: every cell follows the rule, applied to
    /// its state and its live neighbours in this generation.
    pub open spec fn tick(self) -> Grid {
        let w = self.width as int;
        Grid {
            width: self.width,
            height: self.height,
            cells: Seq::new(
                self.cells.len(),
                |i: int| self.cells[i].spec_next(self.live_neighbor_count(i / w, i % w)),
            ),
        }
    }

    /// The grid as text: one line for each row, made of one glyph for each
    /// cell of the row and a line break.
    pub open spec fn render(self) -> Seq<char> {
        let line = self.width as int + 1;
        Seq::new(
            self.height * (self.width + 1),
            |i: int|
                if i % line == self.width as int {
                    '\n'
                } else {
                    self.cell(i / line, i % line).spec_symbol()
                },
        )
    }

    /// Row `row` as text: one glyph for each of its cells, then a line break.
    pub open spec fn row_text(self, row: int) -> Seq<char> {
        Seq::new(self.width, |col: int| self.cell(row, col).spec_symbol()).push('\n')
    }

    /// The part of the rendering that stands for row `row`.
    pub open spec fn rendered_line(self, row: int) -> Seq<char> {
        let line = self.width as int + 1;
        self.render().subrange(row * line, row * line + line)
    }
}

/// A coordinate pair inside a grid has its position inside the cell sequence.
pub proof fn lemma_index_in_bounds(width: int, height: int, row: int, col: int)
    requires
        0 <= row < height,
        0 <= col < width,
    ensures
        0 <= row * width + col < width * height,
        (row * width + col) / width == row,
        (row * width + col) % width == col,
{
    assert(0 <= row * width && (row + 1) * width <= height * width) by (nonlinear_arith)
        requires
            0 <= row < height,
            0 < width,
    ;
    assert((row + 1) * width == row * width + width) by (nonlinear_arith);
    assert(height * width == width * height) by (nonlinear_arith);
    vstd::arithmetic::div_mod::lemma_fundamental_div_mod_converse(
        row * width + col,
        width,
        row,
        col,
    );
}

} // verus!
