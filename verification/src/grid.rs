//! The grid: fixed dimensions and one bit per cell.

use crate::bitset::{bits, spare_clear};
use crate::packing::{packs, spare_bits_clear};
use crate::state::GridState;
use fixedbitset::FixedBitSet;
use vstd::prelude::*;

verus! {

/// A `width` by `height` grid of cells, stored row by row as one bit each.
pub struct Grid {
    width: u32,
    height: u32,
    cells: FixedBitSet,
}

impl View for Grid {
    type V = GridState;

    closed spec fn view(&self) -> GridState {
        GridState {
            width: self.width as nat,
            height: self.height as nat,
            cells: bits(&self.cells),
        }
    }
}

impl Grid {
    /// Whether no bit is set in the storage beyond the last cell.
    pub closed spec fn trimmed(&self) -> bool {
        spare_clear(&self.cells)
    }

    /// The state is well formed, the number of cells fits a `usize`, and the
    /// storage is trimmed.
    pub open spec fn wf(&self) -> bool {
        &&& self@.wf()
        &&& self@.cells.len() <= usize::MAX
        &&& self.trimmed()
    }

    /// A grid of the given dimensions in which every cell is dead.
    pub fn new(width: u32, height: u32) -> (grid: Grid)
        requires
            width > 0,
            height > 0,
            width * height <= usize::MAX,
        ensures
            grid@ == GridState::dead(width as nat, height as nat),
            grid.wf(),
    {
        assert((width as usize) * (height as usize) == width * height);
        let size: usize = (width as usize) * (height as usize);
        Grid { width, height, cells: FixedBitSet::with_capacity(size) }
    }

    /// The number of columns.
    pub fn width(&self) -> (width: u32)
        ensures
            width == self@.width,
    {
        self.width
    }

    /// The number of rows.
    pub fn height(&self) -> (height: u32)
        ensures
            height == self@.height,
    {
        self.height
    }

    /// The place of the cell at `(row, col)` in row-major order.
    pub fn index(&self, row: u32, col: u32) -> (position: usize)
        requires
            self.wf(),
            self@.in_bounds(row as int, col as int),
        ensures
            position == self@.index(row as int, col as int),
            position < self@.cells.len(),
    {
        proof {
            self@.lemma_index_of_position(row as int, col as int);
        }
        (row as usize) * (self.width as usize) + (col as usize)
    }

    /// Whether the cell at the given place is alive. Where there is no such
    /// cell, the answer is `false`.
    pub fn get(&self, position: usize) -> (alive: bool)
        requires
            self.wf(),
        ensures
            alive == (position < self@.cells.len() && self@.cells[position as int]),
    {
        self.cells.contains(position)
    }

    /// Writes one cell and leaves the others as they were.
    pub fn set(&mut self, position: usize, alive: bool)
        requires
            old(self).wf(),
            position < old(self)@.cells.len(),
        ensures
            final(self)@ == old(self)@.with_cell(position as int, alive),
            final(self).wf(),
    {
        self.cells.set(position, alive);
    }

    /// Makes every cell dead, then the cells at the given coordinates alive.
    pub fn clear_and_set_alive(&mut self, cells: &[(u32, u32)])
        requires
            old(self).wf(),
            forall|k: int|
                0 <= k < cells@.len() ==> old(self)@.in_bounds(
                    (#[trigger] cells@[k]).0 as int,
                    cells@[k].1 as int,
                ),
        ensures
            final(self)@ == old(self)@.seeded(cells@),
            final(self).wf(),
    {
        let ghost width = self.width as int;
        let ghost before = self@;
        self.cells.clear();
        let mut k: usize = 0;
        while k < cells.len()
            invariant
                k <= cells@.len(),
                self.wf(),
                self@.width == before.width,
                self@.height == before.height,
                self@.cells.len() == before.cells.len(),
                width == before.width,
                forall|k: int|
                    0 <= k < cells@.len() ==> before.in_bounds(
                        (#[trigger] cells@[k]).0 as int,
                        cells@[k].1 as int,
                    ),
                forall|i: int|
                    0 <= i < self@.cells.len() ==> #[trigger] self@.cells[i] == GridState::listed(
                        cells@.take(k as int),
                        i / width,
                        i % width,
                    ),
            decreases cells@.len() - k,
        {
            let (row, col) = cells[k];
            let position = self.index(row, col);
            let ghost earlier = self@;
            self.cells.set(position, true);
            proof {
                let shorter = cells@.take(k as int);
                let longer = cells@.take(k + 1);
                earlier.lemma_index_of_position(row as int, col as int);
                assert forall|i: int| 0 <= i < self@.cells.len() implies #[trigger] self@.cells[i]
                    == GridState::listed(longer, i / width, i % width) by {
                    if i == position {
                        assert(longer[k as int] == (row, col));
                    } else {
                        earlier.lemma_position_of_index(i);
                        if GridState::listed(shorter, i / width, i % width) {
                            let j = choose|j: int|
                                0 <= j < shorter.len() && (#[trigger] shorter[j]).0 == i / width
                                    && shorter[j].1 == i % width;
                            assert(longer[j] == shorter[j]);
                        }
                        if GridState::listed(longer, i / width, i % width) {
                            let j = choose|j: int|
                                0 <= j < longer.len() && (#[trigger] longer[j]).0 == i / width
                                    && longer[j].1 == i % width;
                            assert(j != k);
                            assert(shorter[j] == longer[j]);
                        }
                    }
                }
            }
            k += 1;
        }
        proof {
            assert(cells@.take(k as int) == cells@);
            assert(self@.cells == before.seeded(cells@).cells);
        }
    }

    /// The storage: the cells packed 32 to a block, lowest bit first, and
    /// no other bit set.
    pub fn raw_view(&self) -> (blocks: &[u32])
        requires
            self.wf(),
        ensures
            packs(blocks@, self@.cells),
            spare_bits_clear(blocks@, self@.cells),
    {
        self.cells.as_slice()
    }
}

impl Clone for Grid {
    fn clone(&self) -> (copy: Grid)
        ensures
            copy@ == self@,
            copy.trimmed() == self.trimmed(),
    {
        Grid { width: self.width, height: self.height, cells: self.cells.clone() }
    }
}

} // verus!
