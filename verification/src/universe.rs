//! The simulation: a grid of cells and the step from one generation to the
//! next.

use crate::grid::Grid;
use crate::packing::{packs, spare_bits_clear};
use crate::state::{next_state, GridState};
use vstd::prelude::*;

verus! {

/// A universe of cells on a torus.
pub struct Universe {
    grid: Grid,
}

impl View for Universe {
    type V = GridState;

    closed spec fn view(&self) -> GridState {
        self.grid@
    }
}

/// The state of a cell in the next generation, given its state and the number
/// of its live neighbours in this one.
pub fn apply_rule(cell: bool, live_neighbors: u8) -> (next: bool)
    ensures
        next == next_state(cell, live_neighbors as nat),
{
    match (cell, live_neighbors) {
        // A live cell with fewer than two live neighbours dies.
        (true, x) if x < 2 => false,
        // A live cell with two or three live neighbours lives on.
        (true, 2) | (true, 3) => true,
        // A live cell with more than three live neighbours dies.
        (true, x) if x > 3 => false,
        // A dead cell with exactly three live neighbours comes alive.
        (false, 3) => true,
        // Every other cell stays as it is.
        (otherwise, _) => otherwise,
    }
}

impl Universe {
    /// Whether no bit is set in the storage beyond the last cell.
    pub closed spec fn trimmed(&self) -> bool {
        self.grid.trimmed()
    }

    /// The state is well formed, the number of cells fits a `usize`, and the
    /// storage is trimmed.
    pub open spec fn wf(&self) -> bool {
        &&& self@.wf()
        &&& self@.cells.len() <= usize::MAX
        &&& self.trimmed()
    }

    /// A universe of the given dimensions whose cells are alive as `seed`
    /// says, row by row.
    pub fn new(width: u32, height: u32, seed: &[bool]) -> (universe: Universe)
        requires
            width > 0,
            height > 0,
            seed@.len() == width * height,
        ensures
            universe@ == (GridState { width: width as nat, height: height as nat, cells: seed@ }),
            universe.wf(),
    {
        let size = seed.len();
        let mut grid = Grid::new(width, height);
        for i in 0..size
            invariant
                size == seed@.len(),
                grid.wf(),
                grid@.width == width,
                grid@.height == height,
                grid@.cells.len() == size,
                forall|j: int| 0 <= j < i ==> grid@.cells[j] == seed@[j],
        {
            grid.set(i, seed[i]);
        }
        assert(grid@.cells =~= seed@);
        Universe { grid }
    }

    /// The number of columns.
    pub fn width(&self) -> (width: u32)
        ensures
            width == self@.width,
    {
        self.grid.width()
    }

    /// The number of rows.
    pub fn height(&self) -> (height: u32)
        ensures
            height == self@.height,
    {
        self.grid.height()
    }

    /// The grid of this generation.
    pub fn grid(&self) -> (grid: &Grid)
        ensures
            grid@ == self@,
            grid.wf() == self.wf(),
    {
        &self.grid
    }

    /// The place of the cell at `(row, column)` in row-major order.
    pub fn get_index(&self, row: u32, column: u32) -> (position: usize)
        requires
            self.wf(),
            self@.in_bounds(row as int, column as int),
        ensures
            position == self@.index(row as int, column as int),
            position < self@.cells.len(),
    {
        self.grid.index(row, column)
    }

    /// What the cell at one offset from `(row, column)` adds to the count of
    /// live neighbours.
    fn contribution(&self, row: u32, column: u32, delta_row: u32, delta_col: u32) -> (count: u8)
        requires
            self.wf(),
        ensures
            count == self@.contribution(row as int, column as int, delta_row as int, delta_col as int),
    {
        if delta_row == 0 && delta_col == 0 {
            return 0;
        }
        let height = self.grid.height();
        let width = self.grid.width();
        let neighbor_row = ((row as u64 + delta_row as u64) % (height as u64)) as u32;
        let neighbor_col = ((column as u64 + delta_col as u64) % (width as u64)) as u32;
        let idx = self.get_index(neighbor_row, neighbor_col);
        if self.grid.get(idx) {
            1
        } else {
            0
        }
    }

    /// The sum of the contributions at one row offset.
    fn row_contribution(&self, row: u32, column: u32, delta_row: u32) -> (count: u8)
        requires
            self.wf(),
        ensures
            count == self@.row_contribution(row as int, column as int, delta_row as int),
    {
        let width = self.grid.width();
        self.contribution(row, column, delta_row, width - 1) + self.contribution(
            row,
            column,
            delta_row,
            0,
        ) + self.contribution(row, column, delta_row, 1)
    }

    /// The number of live neighbours of `(row, column)` on the torus. The
    /// position may lie beyond the grid: it is taken modulo the dimensions.
    pub fn live_neighbor_count(&self, row: u32, column: u32) -> (count: u8)
        requires
            self.wf(),
        ensures
            count == self@.live_neighbors(row as int, column as int),
            count <= 8,
    {
        let height = self.grid.height();
        self.row_contribution(row, column, height - 1) + self.row_contribution(row, column, 0)
            + self.row_contribution(row, column, 1)
    }

    /// Takes the universe to the next generation.
    pub fn tick(&mut self)
        requires
            old(self).wf(),
        ensures
            final(self)@ == old(self)@.step(),
            final(self).wf(),
    {
        let mut next = self.grid.clone();
        let height = self.grid.height();
        let width = self.grid.width();
        let ghost now = self@;
        let ghost cells = now.cells.len() as int;

        for row in 0..height
            invariant
                self.wf(),
                self@ == now,
                width == now.width,
                height == now.height,
                next.wf(),
                next@.width == now.width,
                next@.height == now.height,
                next@.cells.len() == now.cells.len(),
                cells == width * height,
                forall|i: int|
                    0 <= i < cells && i < row * width ==> next@.cells[i] == now.step().cells[i],
        {
            for col in 0..width
                invariant
                    self.wf(),
                    self@ == now,
                    row < height,
                    width == now.width,
                    height == now.height,
                    next.wf(),
                    next@.width == now.width,
                    next@.height == now.height,
                    next@.cells.len() == now.cells.len(),
                    cells == width * height,
                    forall|i: int|
                        0 <= i < cells && i < row * width + col ==> next@.cells[i]
                            == now.step().cells[i],
            {
                let idx = self.get_index(row, col);
                let cell = self.grid.get(idx);
                let live_neighbors = self.live_neighbor_count(row, col);
                proof {
                    now.lemma_index_of_position(row as int, col as int);
                }
                next.set(idx, apply_rule(cell, live_neighbors));
            }
            assert(row * width + width == (row + 1) * width) by (nonlinear_arith);
        }

        assert(height * width == width * height) by (nonlinear_arith);
        assert(next@.cells =~= now.step().cells);
        self.grid = next;
    }

    /// Makes every cell dead, then the cells at the given coordinates alive.
    pub fn set_cells(&mut self, cells: &[(u32, u32)])
        requires
            old(self).wf(),
            forall|k: int|
                0 <= k < cells@.len() ==> old(self)@.in_bounds(
                    (#[trigger] cells@[k]).0 as int,
                    cells@[k].1 as int,
                ),
        ensures
            final(self)@ == old(self)@.seeded(cells@),
            final(self).wf(),
    {
        self.grid.clear_and_set_alive(cells);
    }

    /// The storage: the cells packed 32 to a block, lowest bit first, and
    /// no other bit set.
    pub fn get_cells(&self) -> (blocks: &[u32])
        requires
            self.wf(),
        ensures
            packs(blocks@, self@.cells),
            spare_bits_clear(blocks@, self@.cells),
    {
        self.grid.raw_view()
    }

    /// The side of a cell's square, in pixels, on a drawing surface of the
    /// given size. The surface has to hold the two pixels that are set aside
    /// for each column and each row; the side may still be 0.
    pub fn cell_size(&self, width: u32, height: u32) -> (size: u32)
        requires
            self@.wf(),
            2 * self@.width <= width,
            2 * self@.height <= height,
        ensures
            size == self@.cell_size(width as int, height as int),
    {
        let across = (width - 2 * self.grid.width()) / self.grid.width();
        let down = (height - 2 * self.grid.height()) / self.grid.height();
        if across < down {
            across
        } else {
            down
        }
    }
}

} // verus!
