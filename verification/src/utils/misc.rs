use crate::grid::position::{lemma_pack_in_range, GridPosition};
use vstd::prelude::*;

verus! {

/// Calls `rand::random_range` on the range from zero up to, and without,
/// `bound`, with the generator of the current thread. The range must not be
/// empty; the number drawn lies in it.
#[verifier::external_body]
fn random_below(bound: i32) -> (drawn: i32)
    requires
        0 < bound,
    ensures
        0 <= drawn < bound,
{
    rand::random_range(0..bound)
}

/// A cell of the `width` by `height` grid, drawn at random: a column below
/// `width` and a row below `height`.
pub fn random_grid_position(width: i32, height: i32) -> (pos: GridPosition)
    requires
        0 < width,
        0 < height,
        width * height <= i32::MAX,
    ensures
        pos.width == width,
        pos.height == height,
        pos.wf(),
{
    let random_x: i32 = random_below(width);
    let random_y: i32 = random_below(height);
    proof {
        lemma_pack_in_range(width as int, height as int, random_x as int, random_y as int);
    }
    GridPosition::new(width, height, random_x, random_y)
}

} // verus!
