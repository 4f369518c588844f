pub mod components;
pub mod systems;

use crate::grid::position::{spec_pack, GridPosition};
use vstd::prelude::*;

verus! {

/// The number of columns of the scanline grid.
pub const SCANLINE_X: i32 = 17;

/// The number of rows of the scanline grid.
pub const SCANLINE_Y: i32 = 11;

/// The cell that carries the first marker: the middle column of the middle
/// row.
pub fn starting_user_pixel() -> (pos: GridPosition)
    ensures
        pos.wf(),
        pos == (GridPosition { width: SCANLINE_X, height: SCANLINE_Y, packed: 93 }),
        pos.packed == spec_pack(SCANLINE_X as int, SCANLINE_X / 2, SCANLINE_Y / 2),
{
    let pos = GridPosition::new(SCANLINE_X, SCANLINE_Y, SCANLINE_X / 2, SCANLINE_Y / 2);
    assert(pos.cells() == 187) by (nonlinear_arith)
        requires
            pos.width == 17,
            pos.height == 11,
    ;
    pos
}

} // verus!
