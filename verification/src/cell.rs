//! The state of one cell and the rule by which it changes.

use vstd::prelude::*;

verus! {

/// The state of one cell of the grid.
#[derive(Clone, Copy, Debug, PartialEq, Eq, Structural)]
pub enum Cell {
    Alive,
    Dead,
}

impl Cell {
    /// What a cell adds to a count of live cells: 1 if alive, 0 if dead.
    pub open spec fn spec_value(self) -> nat {
        match self {
            Cell::Alive => 1,
            Cell::Dead => 0,
        }
    }

    /// The state of a cell in the next generation, given how many of its
    /// neighbours are alive now: a cell is alive next if it has exactly three
    /// live neighbours, or if it is alive and has exactly two.
    pub open spec fn spec_next(self, live_neighbors: nat) -> Cell {
        if live_neighbors == 3 || (self == Cell::Alive && live_neighbors == 2) {
            Cell::Alive
        } else {
            Cell::Dead
        }
    }

    /// The glyph that stands for a cell in a rendering.
    pub open spec fn spec_symbol(self) -> char {
        match self {
            Cell::Alive => '\u{25FC}',
            Cell::Dead => '\u{25FB}',
        }
    }

    /// The number that encodes this state: 1 for `Alive`, 0 for `Dead`.
    pub fn value(self) -> (v: u8)
        ensures
            v as nat == self.spec_value(),
    {
        match self {
            Cell::Alive => 1,
            Cell::Dead => 0,
        }
    }

    /// Applies the rule of the game to one cell.
    ///
    /// A live cell with fewer than two live neighbours dies, one with two or
    /// three lives on, one with more than three dies; a dead cell with exactly
    /// three live neighbours comes alive, and any other dead cell stays dead.
    pub fn next(self, live_neighbors: u8) -> (next: Cell)
        ensures
            next == self.spec_next(live_neighbors as nat),
    {
        match self {
            Cell::Alive => {
                if live_neighbors < 2 {
                    Cell::Dead
                } else if live_neighbors <= 3 {
                    Cell::Alive
                } else {
                    Cell::Dead
                }
            },
            Cell::Dead => {
                if live_neighbors == 3 {
                    Cell::Alive
                } else {
                    Cell::Dead
                }
            },
        }
    }

    /// The glyph that stands for this cell in a rendering, as text of one
    /// character.
    pub fn symbol(self) -> (glyph: &'static str)
        ensures
            glyph@ == seq![self.spec_symbol()],
    {
        proof {
            reveal_strlit("\u{25FC}");
            reveal_strlit("\u{25FB}");
        }
        match self {
            Cell::Alive => {
                assert("\u{25FC}"@ =~= seq!['\u{25FC}']);
                "\u{25FC}"
            },
            Cell::Dead => {
                assert("\u{25FB}"@ =~= seq!['\u{25FB}']);
                "\u{25FB}"
            },
        }
    }
}

} // verus!
