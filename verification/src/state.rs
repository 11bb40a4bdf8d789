//! The mathematical model of a grid of cells on a torus, and of the rule that
//! takes one generation to the next.

use vstd::prelude::*;

verus! {

/// The state of a grid: its dimensions and, in row-major order, whether each
/// cell is alive.
pub struct GridState {
    pub width: nat,
    pub height: nat,
    pub cells: Seq<bool>,
}

/// The classic rule: a live cell stays alive with two or three live
/// neighbours, a dead cell comes alive with exactly three.
pub open spec fn next_state(alive: bool, live_neighbors: nat) -> bool {
    if alive {
        live_neighbors == 2 || live_neighbors == 3
    } else {
        live_neighbors == 3
    }
}

impl GridState {
    /// The grid of the given dimensions in which every cell is dead.
    pub open spec fn dead(width: nat, height: nat) -> GridState {
        GridState { width, height, cells: Seq::new(width * height, |i: int| false) }
    }

    /// Both dimensions are positive and there is one cell per position.
    pub open spec fn wf(self) -> bool {
        &&& self.width > 0
        &&& self.height > 0
        &&& self.cells.len() == self.width * self.height
    }

    /// Whether `(row, col)` is a position of the grid.
    pub open spec fn in_bounds(self, row: int, col: int) -> bool {
        0 <= row < self.height && 0 <= col < self.width
    }

    /// The place of `(row, col)` in row-major order.
    pub open spec fn index(self, row: int, col: int) -> int {
        row * self.width + col
    }

    /// Whether the cell at `(row, col)` is alive, the row taken modulo the
    /// height and the column modulo the width.
    pub open spec fn alive(self, row: int, col: int) -> bool {
        self.cells[self.index(row % (self.height as int), col % (self.width as int))]
    }

    /// This state with one cell replaced.
    pub open spec fn with_cell(self, position: int, alive: bool) -> GridState {
        GridState { cells: self.cells.update(position, alive), ..self }
    }

    /// What the cell at the offset `(delta_row, delta_col)` from `(row, col)`
    /// adds to the count of live neighbours. The offset `(0, 0)` is the cell
    /// itself and adds nothing.
    pub open spec fn contribution(self, row: int, col: int, delta_row: int, delta_col: int) -> nat {
        if delta_row == 0 && delta_col == 0 {
            0
        } else if self.alive(row + delta_row, col + delta_col) {
            1
        } else {
            0
        }
    }

    /// The sum of the contributions at one row offset, over the column
    /// offsets `width - 1` (one to the left on the torus), `0` and `1`.
    pub open spec fn row_contribution(self, row: int, col: int, delta_row: int) -> nat {
        self.contribution(row, col, delta_row, self.width - 1)
            + self.contribution(row, col, delta_row, 0)
            + self.contribution(row, col, delta_row, 1)
    }

    /// The number of live neighbours of `(row, col)`: the sum of the
    /// contributions over the row offsets `height - 1` (one up on the torus),
    /// `0` and `1`.
    pub open spec fn live_neighbors(self, row: int, col: int) -> nat {
        self.row_contribution(row, col, self.height - 1)
            + self.row_contribution(row, col, 0)
            + self.row_contribution(row, col, 1)
    }

    /// The next generation: the rule applied to every cell at once, each
    /// count taken in this generation.
    pub open spec fn step(self) -> GridState {
        GridState {
            cells: Seq::new(
                self.cells.len(),
                |i: int|
                    next_state(
                        self.cells[i],
                        self.live_neighbors(i / (self.width as int), i % (self.width as int)),
                    ),
            ),
            ..self
        }
    }

    /// The state after the given number of generations.
    pub open spec fn after(self, generations: nat) -> GridState
        decreases generations,
    {
        if generations == 0 {
            self
        } else {
            self.step().after((generations - 1) as nat)
        }
    }

    /// Whether `(row, col)` occurs among the coordinates.
    pub open spec fn listed(coordinates: Seq<(u32, u32)>, row: int, col: int) -> bool {
        exists|k: int|
            0 <= k < coordinates.len() && (#[trigger] coordinates[k]).0 == row && coordinates[k].1
                == col
    }

    /// The state of the same dimensions in which exactly the cells at the
    /// given coordinates are alive.
    pub open spec fn seeded(self, coordinates: Seq<(u32, u32)>) -> GridState {
        GridState {
            cells: Seq::new(
                self.cells.len(),
                |i: int|
                    Self::listed(coordinates, i / (self.width as int), i % (self.width as int)),
            ),
            ..self
        }
    }

    /// A position of the grid has a place among the cells, and the place
    /// gives the position back: its quotient by the width is the row, its
    /// remainder the column.
    pub proof fn lemma_index_of_position(self, row: int, col: int)
        requires
            self.wf(),
            self.in_bounds(row, col),
        ensures
            0 <= self.index(row, col) < self.cells.len(),
            self.index(row, col) / (self.width as int) == row,
            self.index(row, col) % (self.width as int) == col,
    {
        let width = self.width as int;
        let height = self.height as int;
        assert(0 <= row * width && row * width + col < width * height) by (nonlinear_arith)
            requires
                0 <= row < height,
                0 <= col < width,
        ;
        vstd::arithmetic::div_mod::lemma_fundamental_div_mod_converse(
            row * width + col,
            width,
            row,
            col,
        );
    }

    /// Every place among the cells is the place of one position of the grid.
    pub proof fn lemma_position_of_index(self, i: int)
        requires
            self.wf(),
            0 <= i < self.cells.len(),
        ensures
            self.in_bounds(i / (self.width as int), i % (self.width as int)),
            self.index(i / (self.width as int), i % (self.width as int)) == i,
    {
        let width = self.width as int;
        let height = self.height as int;
        vstd::arithmetic::div_mod::lemma_fundamental_div_mod(i, width);
        vstd::arithmetic::div_mod::lemma_mod_pos_bound(i, width);
        let row = i / width;
        assert(width * row == row * width) by (nonlinear_arith);
        assert(0 <= row < height) by (nonlinear_arith)
            requires
                0 <= i < width * height,
                0 < width,
                i == row * width + i % width,
                0 <= i % width < width,
        ;
    }

    /// The side of a cell's square, in pixels, on a drawing surface of the
    /// given size: the smaller of the widths and heights left per cell once
    /// two pixels per column and per row are set aside.
    pub open spec fn cell_size(self, surface_width: int, surface_height: int) -> int {
        vstd::math::min(
            (surface_width - 2 * self.width) / (self.width as int),
            (surface_height - 2 * self.height) / (self.height as int),
        )
    }
}

} // verus!
