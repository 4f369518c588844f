use crate::grid::position::GridPosition;
use vstd::prelude::*;

verus! {

/// A cell of the grid as the presentation layer holds it.
#[derive(Copy, Clone, Debug, PartialEq, Eq, Structural)]
pub struct Pixel {
    pub pos: GridPosition,
}

/// The clock reading at which a cell was last lit.
#[derive(Debug)]
pub struct PixelLifetime<T>(pub T);

} // verus!
