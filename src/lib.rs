//! A chunked falling-sand simulation engine.
//!
//! The world is a lattice of fixed-size chunks of material cells. Each tick,
//! every chunk evaluates the per-material movement rules against its own
//! cells, applies the moves that stay inside it, and hands the ones that
//! leave it to the grid, which settles them against the neighbouring chunks.
use vstd::prelude::*;

pub mod brush;
pub mod chunk;
pub mod count;
pub mod movement;
pub mod pixel;
pub mod pixel_grid;
mod random;

verus! {

/// Width of every chunk, in cells.
pub const CHUNK_WIDTH: i32 = 160;

/// Height of every chunk, in cells.
pub const CHUNK_HEIGHT: i32 = 90;

/// Number of cells in a chunk: `CHUNK_WIDTH * CHUNK_HEIGHT`.
pub const CHUNK_CELLS: usize = 14400;

} // verus!
