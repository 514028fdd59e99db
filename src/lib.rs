use vstd::prelude::*;

pub mod compose;
pub mod frame;
pub mod geometry;
pub mod particle;
pub mod random;
pub mod render;
pub mod smoke;
pub mod state;
pub mod ui;

verus! {

/// Width of the display grid, in cells.
pub const NUM_COLUMNS: usize = 240;

/// Height of the display grid, in cells.
pub const NUM_ROWS: usize = 135;

} // verus!
