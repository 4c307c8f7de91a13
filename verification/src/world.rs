//! The grid itself: it owns the cells, counts live neighbours across the
//! wrapping edges, and advances generation by generation.

use vstd::prelude::*;
use vstd::string::StringExecFns;
use crate::cell::Cell;
use crate::grid::{lemma_index_in_bounds, wrap_next, wrap_prev, Grid};

verus! {

/// The coordinate before `val`, `val` itself and the coordinate after it, on
/// an axis of `size` positions whose two ends are adjacent.
///
/// With a single position, that position is its own neighbour on both sides.
pub fn wrapped_neighbor_values(val: u32, size: u32) -> (triple: [u32; 3])
    requires
        val < size,
    ensures
        triple[0] == wrap_prev(val as int, size as int),
        triple[1] == val,
        triple[2] == wrap_next(val as int, size as int),
        triple[0] < size,
        triple[1] < size,
        triple[2] < size,
{
    if val == 0 {
        if size == 1 {
            [0, 0, 0]
        } else {
            [size - 1, 0, 1]
        }
    } else if val == size - 1 {
        [size - 2, size - 1, 0]
    } else {
        [val - 1, val, val + 1]
    }
}

/// What the first `n` rows of `rows` add to the neighbour count of
/// `(row, col)`.
spec fn rows_counted(g: Grid, row: int, col: int, rows: Seq<u32>, n: int) -> nat {
    (if n >= 1 {
        g.counted_in_row(row, col, rows[0] as int)
    } else {
        0
    }) + (if n >= 2 {
        g.counted_in_row(row, col, rows[1] as int)
    } else {
        0
    }) + (if n >= 3 {
        g.counted_in_row(row, col, rows[2] as int)
    } else {
        0
    })
}

/// What the cells of row `r` in the first `n` columns of `cols` add to the
/// neighbour count of `(row, col)`.
spec fn cols_counted(g: Grid, row: int, col: int, r: int, cols: Seq<u32>, n: int) -> nat {
    (if n >= 1 {
        g.counted(row, col, r, cols[0] as int)
    } else {
        0
    }) + (if n >= 2 {
        g.counted(row, col, r, cols[1] as int)
    } else {
        0
    }) + (if n >= 3 {
        g.counted(row, col, r, cols[2] as int)
    } else {
        0
    })
}

/// A grid of cells on a torus. Its dimensions are fixed when it is made.
pub struct World {
    width: u32,
    height: u32,
    cells: Vec<Cell>,
}

impl View for World {
    type V = Grid;

    closed spec fn view(&self) -> Grid {
        Grid { width: self.width as nat, height: self.height as nat, cells: self.cells@ }
    }
}

impl World {
    #[verifier::type_invariant]
    spec fn inv(self) -> bool {
        self@.wf()
    }

    /// Makes a grid of `width` columns and `height` rows from its cells in
    /// row-major order. There is no grid without a row or a column, and none
    /// whose number of cells differs from `width * height`.
    pub fn new(width: u32, height: u32, cells: Vec<Cell>) -> (world: Option<World>)
        ensures
            world is Some <==> width > 0 && height > 0 && cells@.len() == width * height,
            world is Some ==> world->Some_0@ == (Grid {
                width: width as nat,
                height: height as nat,
                cells: cells@,
            }),
            world is Some ==> world->Some_0@.wf(),
    {
        if width == 0 || height == 0 {
            return None;
        }
        assert(width * height <= 0xffff_ffff * 0xffff_ffff) by (nonlinear_arith)
            requires
                width <= 0xffff_ffff,
                height <= 0xffff_ffff,
        ;
        let wanted: u64 = (width as u64) * (height as u64);
        if cells.len() as u64 != wanted {
            return None;
        }
        Some(World { width, height, cells })
    }

    /// The number of columns.
    pub fn width(&self) -> (w: u32)
        ensures
            w == self@.width,
            self@.wf(),
    {
        proof {
            use_type_invariant(self);
        }
        self.width
    }

    /// The number of rows.
    pub fn height(&self) -> (h: u32)
        ensures
            h == self@.height,
            self@.wf(),
    {
        proof {
            use_type_invariant(self);
        }
        self.height
    }

    /// The position of `(row, col)` in the row-major cell buffer. The pair
    /// must name a cell of the grid: direct access never wraps.
    pub fn get_index(&self, row: u32, col: u32) -> (i: usize)
        requires
            self@.contains(row as int, col as int),
        ensures
            i == self@.index(row as int, col as int),
            i == row * self@.width + col,
            i < self@.cells.len(),
    {
        proof {
            use_type_invariant(self);
            lemma_index_in_bounds(self.width as int, self.height as int, row as int, col as int);
            assert(0 <= row * self.width) by (nonlinear_arith);
            assert(self.cells.len() == self.cells@.len());
        }
        (row as usize) * (self.width as usize) + (col as usize)
    }

    /// The cell at `(row, col)`. The pair must name a cell of the grid:
    /// direct access never wraps.
    pub fn get_cell(&self, row: u32, col: u32) -> (cell: Cell)
        requires
            self@.contains(row as int, col as int),
        ensures
            cell == self@.cell(row as int, col as int),
    {
        let i = self.get_index(row, col);
        self.cells[i]
    }

    /// The number of live cells among the neighbours of `(row, col)`, with
    /// both axes wrapping. The rows around `row` come from the row coordinate
    /// and the columns around `col` from the column coordinate, so the two
    /// axes wrap independently of each other.
    pub fn live_neighbor_count(&self, row: u32, col: u32) -> (count: u8)
        requires
            self@.contains(row as int, col as int),
        ensures
            count == self@.live_neighbor_count(row as int, col as int),
            count <= 8,
    {
        let rows = wrapped_neighbor_values(row, self.height);
        let cols = wrapped_neighbor_values(col, self.width);
        let ghost g = self@;
        let ghost (r, c) = (row as int, col as int);
        let mut count: u8 = 0;
        let mut i: usize = 0;
        while i < 3
            invariant
                i <= 3,
                g == self@,
                r == row,
                c == col,
                rows[0] == wrap_prev(r, g.height as int),
                rows[1] == row,
                rows[2] == wrap_next(r, g.height as int),
                cols[0] == wrap_prev(c, g.width as int),
                cols[1] == col,
                cols[2] == wrap_next(c, g.width as int),
                forall|k: int| 0 <= k < 3 ==> g.contains(#[trigger] rows[k] as int, col as int),
                forall|k: int| 0 <= k < 3 ==> g.contains(row as int, #[trigger] cols[k] as int),
                count == rows_counted(g, r, c, rows@, i as int),
                count <= 3 * i,
                i >= 2 ==> count <= 3 * i - 1,
            decreases 3 - i,
        {
            let row2 = rows[i];
            let ghost before = count;
            let mut j: usize = 0;
            while j < 3
                invariant
                    i < 3,
                    j <= 3,
                    g == self@,
                    r == row,
                    c == col,
                    row2 == rows[i as int],
                    rows[1] == row,
                    cols[1] == col,
                    g.contains(row2 as int, col as int),
                    forall|k: int| 0 <= k < 3 ==> g.contains(row as int, #[trigger] cols[k] as int),
                    before <= 3 * i,
                    i >= 2 ==> before <= 3 * i - 1,
                    count == before + cols_counted(g, r, c, row2 as int, cols@, j as int),
                    count <= before + j,
                    i == 1 && j >= 2 ==> count <= before + j - 1,
                decreases 3 - j,
            {
                let col2 = cols[j];
                if !(row2 == row && col2 == col) {
                    count = count + self.get_cell(row2, col2).value();
                }
                j = j + 1;
            }
            i = i + 1;
        }
        count
    }

    /// Advances the grid by one generation. Every cell of the new generation
    /// is computed from the old one alone; the dimensions stay as they are.
    pub fn tick(&mut self)
        ensures
            final(self)@ == old(self)@.tick(),
            final(self)@.width == old(self)@.width,
            final(self)@.height == old(self)@.height,
            final(self)@.cells.len() == old(self)@.cells.len(),
    {
        proof {
            use_type_invariant(&*self);
        }
        let ghost g = self@;
        let mut next_cells = self.cells.clone();
        let mut row: u32 = 0;
        while row < self.height
            invariant
                self@ == g,
                g.wf(),
                row <= g.height,
                next_cells@.len() == g.cells.len(),
                forall|k: int| 0 <= k < row * g.width ==> next_cells@[k] == g.tick().cells[k],
            decreases g.height - row,
        {
            let mut col: u32 = 0;
            while col < self.width
                invariant
                    self@ == g,
                    g.wf(),
                    row < g.height,
                    col <= g.width,
                    next_cells@.len() == g.cells.len(),
                    forall|k: int|
                        0 <= k < row * g.width + col ==> next_cells@[k] == g.tick().cells[k],
                decreases g.width - col,
            {
                let live_count = self.live_neighbor_count(row, col);
                let i = self.get_index(row, col);
                let old_cell_state = self.cells[i];
                proof {
                    lemma_index_in_bounds(
                        g.width as int,
                        g.height as int,
                        row as int,
                        col as int,
                    );
                }
                next_cells.set(i, old_cell_state.next(live_count));
                col = col + 1;
            }
            proof {
                assert((row + 1) * g.width == row * g.width + g.width) by (nonlinear_arith);
            }
            row = row + 1;
        }
        proof {
            assert(row * g.width == g.width * g.height) by (nonlinear_arith)
                requires
                    row == g.height,
            ;
            assert(next_cells@ =~= g.tick().cells);
        }
        self.cells = next_cells;
    }

    /// The grid as text: one line for each row, from the first row down, each
    /// made of one glyph for each cell of the row and a line break.
    pub fn render(&self) -> (text: String)
        ensures
            text@ == self@.render(),
            text@.len() == self@.height * (self@.width + 1),
    {
        proof {
            use_type_invariant(self);
        }
        let ghost g = self@;
        let ghost line = g.width as int + 1;
        let mut text = String::new();
        let mut row: u32 = 0;
        while row < self.height
            invariant
                self@ == g,
                g.wf(),
                line == g.width + 1,
                row <= g.height,
                text@ == g.render().take(row * line),
            decreases g.height - row,
        {
            proof {
                assert(0 <= row * line && (row + 1) * line <= g.height * line) by (nonlinear_arith)
                    requires
                        0 <= row < g.height,
                        line > 0,
                ;
                assert((row + 1) * line == row * line + line) by (nonlinear_arith);
                assert(g.height * line == g.height * (g.width + 1));
            }
            let mut col: u32 = 0;
            while col < self.width
                invariant
                    self@ == g,
                    g.wf(),
                    line == g.width + 1,
                    row < g.height,
                    col <= g.width,
                    0 <= row * line,
                    row * line + line <= g.render().len(),
                    text@ == g.render().take(row * line + col),
                decreases g.width - col,
            {
                let glyph = self.get_cell(row, col).symbol();
                proof {
                    vstd::arithmetic::div_mod::lemma_fundamental_div_mod_converse(
                        row * line + col,
                        line,
                        row as int,
                        col as int,
                    );
                    assert(g.render().take(row * line + col) + glyph@ =~= g.render().take(
                        row * line + col + 1,
                    ));
                }
                text.append(glyph);
                col = col + 1;
            }
            proof {
                vstd::arithmetic::div_mod::lemma_fundamental_div_mod_converse(
                    row * line + col,
                    line,
                    row as int,
                    col as int,
                );
                reveal_strlit("\n");
                assert("\n"@ =~= seq!['\n']);
                assert(g.render().take(row * line + col) + "\n"@ =~= g.render().take(
                    row * line + line,
                ));
            }
            text.append("\n");
            row = row + 1;
        }
        proof {
            assert(g.render().take(row * line) =~= g.render());
        }
        text
    }
}

} // verus!
