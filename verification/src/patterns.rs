//! Well-known patterns and what one generation does to them: a lone cell
//! dies, a block stands still, a line of three turns about its middle.

use vstd::prelude::*;
use crate::cell::Cell;
use crate::grid::{wrap_next, wrap_prev, Grid};
use crate::laws::{lemma_cell_of_index, lemma_neighbors_on_torus, lemma_tick_cell};

verus! {

/// The only live cell of `g` is the one at `(row, col)`.
pub open spec fn is_lone_cell(g: Grid, row: int, col: int) -> bool {
    &&& g.contains(row, col)
    &&& forall|r: int, c: int|
        g.contains(r, c) ==> (#[trigger] g.cell(r, c) == Cell::Alive <==> r == row && c == col)
}

/// No cell of `g` is alive.
pub open spec fn is_empty(g: Grid) -> bool {
    forall|r: int, c: int| g.contains(r, c) ==> #[trigger] g.cell(r, c) == Cell::Dead
}

/// The live cells of `g` are the four of the square whose upper left corner
/// is `(row, col)`; the square may lie across an edge.
pub open spec fn is_block(g: Grid, row: int, col: int) -> bool {
    &&& g.contains(row, col)
    &&& forall|r: int, c: int|
        g.contains(r, c) ==> (#[trigger] g.cell(r, c) == Cell::Alive <==> (r == row || r
            == wrap_next(row, g.height as int)) && (c == col || c == wrap_next(
            col,
            g.width as int,
        )))
}

/// The live cells of `g` are `(row, col)` and the two beside it in its row.
pub open spec fn is_row_of_three(g: Grid, row: int, col: int) -> bool {
    &&& g.contains(row, col)
    &&& forall|r: int, c: int|
        g.contains(r, c) ==> (#[trigger] g.cell(r, c) == Cell::Alive <==> r == row && (c
            == wrap_prev(col, g.width as int) || c == col || c == wrap_next(
            col,
            g.width as int,
        )))
}

/// The live cells of `g` are `(row, col)` and the two beside it in its
/// column.
pub open spec fn is_column_of_three(g: Grid, row: int, col: int) -> bool {
    &&& g.contains(row, col)
    &&& forall|r: int, c: int|
        g.contains(r, c) ==> (#[trigger] g.cell(r, c) == Cell::Alive <==> c == col && (r
            == wrap_prev(row, g.height as int) || r == row || r == wrap_next(
            row,
            g.height as int,
        )))
}

/// Two grids of the same dimensions that agree at every coordinate pair are
/// the same grid.
pub proof fn lemma_grids_equal(a: Grid, b: Grid)
    requires
        a.wf(),
        b.wf(),
        a.width == b.width,
        a.height == b.height,
        forall|r: int, c: int| a.contains(r, c) ==> a.cell(r, c) == b.cell(r, c),
    ensures
        a == b,
{
    assert forall|i: int| 0 <= i < a.cells.len() implies a.cells[i] == b.cells[i] by {
        lemma_cell_of_index(a, i);
        lemma_cell_of_index(b, i);
    }
    assert(a.cells =~= b.cells);
}

/// A live cell alone on a grid of at least three rows and three columns dies
/// of underpopulation, and nothing is born: after one generation no cell is
/// alive.
pub proof fn lemma_lone_cell_dies(g: Grid, row: int, col: int)
    requires
        g.wf(),
        g.height >= 3,
        g.width >= 3,
        is_lone_cell(g, row, col),
    ensures
        is_empty(g.tick()),
        forall|i: int| 0 <= i < g.cells.len() ==> g.tick().cells[i] == Cell::Dead,
{
    assert forall|r: int, c: int| g.contains(r, c) implies #[trigger] g.tick().cell(r, c)
        == Cell::Dead by {
        lemma_tick_cell(g, r, c);
        lemma_neighbors_on_torus(g, r, c);
    }
    assert forall|i: int| 0 <= i < g.cells.len() implies g.tick().cells[i] == Cell::Dead by {
        lemma_cell_of_index(g.tick(), i);
    }
}

/// A square of four live cells on a grid of at least three rows and three
/// columns is a still life: each of its cells has exactly three live
/// neighbours, no dead cell has, and one generation leaves the grid as it is.
pub proof fn lemma_block_is_still(g: Grid, row: int, col: int)
    requires
        g.wf(),
        g.height >= 3,
        g.width >= 3,
        is_block(g, row, col),
    ensures
        g.tick() == g,
{
    assert forall|r: int, c: int| g.contains(r, c) implies g.tick().cell(r, c) == g.cell(
        r,
        c,
    ) by {
        lemma_tick_cell(g, r, c);
        lemma_neighbors_on_torus(g, r, c);
    }
    lemma_grids_equal(g.tick(), g);
}

/// One generation turns a row of three live cells into the column of three
/// about the same middle, on a grid of at least four rows and four columns.
pub proof fn lemma_row_of_three_turns(g: Grid, row: int, col: int)
    requires
        g.wf(),
        g.height >= 4,
        g.width >= 4,
        is_row_of_three(g, row, col),
    ensures
        is_column_of_three(g.tick(), row, col),
{
    assert forall|r: int, c: int| g.contains(r, c) implies (#[trigger] g.tick().cell(r, c)
        == Cell::Alive <==> c == col && (r == wrap_prev(row, g.height as int) || r == row || r
        == wrap_next(row, g.height as int))) by {
        lemma_tick_cell(g, r, c);
        lemma_neighbors_on_torus(g, r, c);
    }
}

/// One generation turns a column of three live cells into the row of three
/// about the same middle, on a grid of at least four rows and four columns.
pub proof fn lemma_column_of_three_turns(g: Grid, row: int, col: int)
    requires
        g.wf(),
        g.height >= 4,
        g.width >= 4,
        is_column_of_three(g, row, col),
    ensures
        is_row_of_three(g.tick(), row, col),
{
    assert forall|r: int, c: int| g.contains(r, c) implies (#[trigger] g.tick().cell(r, c)
        == Cell::Alive <==> r == row && (c == wrap_prev(col, g.width as int) || c == col || c
        == wrap_next(col, g.width as int))) by {
        lemma_tick_cell(g, r, c);
        lemma_neighbors_on_torus(g, r, c);
    }
}

/// A row of three live cells is an oscillator of period two: after two
/// generations the grid is what it was.
pub proof fn lemma_blinker_has_period_two(g: Grid, row: int, col: int)
    requires
        g.wf(),
        g.height >= 4,
        g.width >= 4,
        is_row_of_three(g, row, col),
    ensures
        g.tick().tick() == g,
        g.tick() != g,
{
    lemma_row_of_three_turns(g, row, col);
    lemma_column_of_three_turns(g.tick(), row, col);
    let again = g.tick().tick();
    assert forall|r: int, c: int| g.contains(r, c) implies again.cell(r, c) == g.cell(r, c) by {
        assert(again.cell(r, c) == Cell::Alive <==> g.cell(r, c) == Cell::Alive);
    }
    lemma_grids_equal(again, g);
    let left = wrap_prev(col, g.width as int);
    assert(g.cell(row, left) == Cell::Alive);
    assert(g.tick().cell(row, left) != Cell::Alive);
}

} // verus!
