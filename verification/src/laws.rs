//! What holds of every grid: facts about the wrapping neighbourhood, about one
//! generation, and about a few well-known patterns.

use vstd::prelude::*;
use crate::grid::{lemma_index_in_bounds, wrap_next, wrap_prev, Grid};

verus! {

/// Both neighbours of a coordinate on a wrapping axis are coordinates of that
/// axis. On an axis of two or more positions they differ from the coordinate
/// itself, and on one of three or more they differ from each other.
pub proof fn lemma_wrap_in_range(value: int, size: int)
    requires
        0 <= value < size,
    ensures
        0 <= wrap_prev(value, size) < size,
        0 <= wrap_next(value, size) < size,
        size >= 2 ==> wrap_prev(value, size) != value && wrap_next(value, size) != value,
        size >= 3 ==> wrap_prev(value, size) != wrap_next(value, size),
        wrap_next(wrap_prev(value, size), size) == value,
        wrap_prev(wrap_next(value, size), size) == value,
{
}

/// Every position of the cell sequence belongs to one coordinate pair of the
/// grid: its row is the position divided by the width, its column the
/// remainder.
pub proof fn lemma_cell_of_index(g: Grid, i: int)
    requires
        g.wf(),
        0 <= i < g.cells.len(),
    ensures
        g.contains(i / (g.width as int), i % (g.width as int)),
        g.index(i / (g.width as int), i % (g.width as int)) == i,
        g.cell(i / (g.width as int), i % (g.width as int)) == g.cells[i],
{
    let w = g.width as int;
    let h = g.height as int;
    vstd::arithmetic::div_mod::lemma_fundamental_div_mod(i, w);
    vstd::arithmetic::div_mod::lemma_mod_bound(i, w);
    assert(i == (i / w) * w + i % w) by (nonlinear_arith)
        requires
            i == w * (i / w) + i % w,
    ;
    assert(0 <= i / w < h) by (nonlinear_arith)
        requires
            0 <= i < w * h,
            i == (i / w) * w + i % w,
            0 <= i % w < w,
    ;
}

/// One generation keeps the dimensions and the number of cells, and a valid
/// grid stays valid.
pub proof fn lemma_tick_preserves_shape(g: Grid)
    ensures
        g.tick().width == g.width,
        g.tick().height == g.height,
        g.tick().cells.len() == g.cells.len(),
        g.wf() ==> g.tick().wf(),
{
}

/// One generation applies the rule to every cell at once: the new state of
/// the cell at `(row, col)` depends on its old state and on the number of its
/// live neighbours in the old generation, and on nothing else.
pub proof fn lemma_tick_cell(g: Grid, row: int, col: int)
    requires
        g.wf(),
        g.contains(row, col),
    ensures
        g.tick().cell(row, col) == g.cell(row, col).spec_next(g.live_neighbor_count(row, col)),
{
    lemma_index_in_bounds(g.width as int, g.height as int, row, col);
}

/// No cell has more than eight live neighbours, whatever the grid holds.
pub proof fn lemma_live_neighbor_count_bounded(g: Grid, row: int, col: int)
    ensures
        0 <= g.live_neighbor_count(row, col) <= 8,
{
}

/// On a grid of at least two rows and two columns the neighbour count of
/// `(row, col)` is the sum over the eight cells around it, where the row
/// before the first is the last, the column before the first is the last, and
/// the other way round.
pub proof fn lemma_neighbors_on_torus(g: Grid, row: int, col: int)
    requires
        g.wf(),
        g.contains(row, col),
        g.height >= 2,
        g.width >= 2,
    ensures
        ({
            let up = wrap_prev(row, g.height as int);
            let down = wrap_next(row, g.height as int);
            let left = wrap_prev(col, g.width as int);
            let right = wrap_next(col, g.width as int);
            g.live_neighbor_count(row, col) == g.cell(up, left).spec_value() + g.cell(
                up,
                col,
            ).spec_value() + g.cell(up, right).spec_value() + g.cell(row, left).spec_value()
                + g.cell(row, right).spec_value() + g.cell(down, left).spec_value() + g.cell(
                down,
                col,
            ).spec_value() + g.cell(down, right).spec_value()
        }),
{
}

/// The neighbours of the corner `(0, 0)` lie across both edges: they are the
/// cells of the last row, of row 0 and of row 1, in the last column, in column
/// 0 and in column 1, without the corner itself.
pub proof fn lemma_corner_neighbors(g: Grid)
    requires
        g.wf(),
        g.height >= 2,
        g.width >= 2,
    ensures
        ({
            let last_row = g.height - 1;
            let last_col = g.width - 1;
            g.live_neighbor_count(0, 0) == g.cell(last_row, last_col).spec_value() + g.cell(
                last_row,
                0,
            ).spec_value() + g.cell(last_row, 1).spec_value() + g.cell(0, last_col).spec_value()
                + g.cell(0, 1).spec_value() + g.cell(1, last_col).spec_value() + g.cell(
                1,
                0,
            ).spec_value() + g.cell(1, 1).spec_value()
        }),
{
}

/// A rendering is made of as many lines as the grid has rows, one after the
/// other: each holds one glyph for each cell of its row and ends in a line
/// break, and there is no line break anywhere else.
pub proof fn lemma_render_lines(g: Grid)
    requires
        g.wf(),
    ensures
        g.render().len() == g.height * (g.width + 1),
        forall|row: int| 0 <= row < g.height ==> #[trigger] g.rendered_line(row) == g.row_text(row),
        forall|row: int| 0 <= row < g.height ==> (#[trigger] g.row_text(row)).len() == g.width + 1,
        forall|i: int|
            0 <= i < g.render().len() ==> (#[trigger] g.render()[i] == '\n' <==> i % (g.width as int
                + 1) == g.width),
{
    let line = g.width as int + 1;
    assert forall|row: int| 0 <= row < g.height implies #[trigger] g.rendered_line(row)
        == g.row_text(row) by {
        assert(0 <= row * line && (row + 1) * line <= g.height * line) by (nonlinear_arith)
            requires
                0 <= row < g.height,
                line > 0,
        ;
        assert((row + 1) * line == row * line + line) by (nonlinear_arith);
        assert forall|k: int| 0 <= k < line implies g.rendered_line(row)[k] == g.row_text(
            row,
        )[k] by {
            vstd::arithmetic::div_mod::lemma_fundamental_div_mod_converse(
                row * line + k,
                line,
                row,
                k,
            );
        }
        assert(g.rendered_line(row) =~= g.row_text(row));
    }
    assert forall|i: int| 0 <= i < g.render().len() implies (#[trigger] g.render()[i] == '\n'
        <==> i % line == g.width) by {
        let cell = g.cell(i / line, i % line);
        assert(cell.spec_symbol() != '\n');
    }
}

} // verus!
