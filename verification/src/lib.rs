//! Conway's Game of Life on a torus, with one bit per cell.
//!
//! [`state`] holds the mathematical model: a grid state, the count of live
//! neighbours and the step to the next generation. [`grid`] and [`universe`]
//! hold the executable grid and simulation, whose contracts are stated over
//! that model. [`laws`] proves what holds of every grid and generation,
//! [`packing`] says how cells lie in the blocks of the storage, and [`bitset`]
//! lists what is assumed of the bit set that stores them.

pub mod bitset;
pub mod grid;
pub mod laws;
pub mod packing;
pub mod state;
pub mod universe;

pub use crate::grid::Grid;
pub use crate::state::GridState;
pub use crate::universe::{apply_rule, Universe};
