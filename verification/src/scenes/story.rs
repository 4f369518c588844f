use crate::grid::position::{rem_toward_zero, spec_pack, GridPosition};
use crate::pixels::components::Pixel;
use crate::pixels::{SCANLINE_X, SCANLINE_Y};
use vstd::prelude::*;

verus! {

/// The cell after `pos` in scan order: the index goes up by one and returns
/// to zero behind the last cell of the grid.
pub open spec fn next_in_sweep(pos: GridPosition) -> GridPosition {
    GridPosition { packed: rem_toward_zero(pos.packed + 1, pos.cells()) as i32, ..pos }
}

/// The cell that a sweep starting at `pos` has reached after `steps` steps.
pub open spec fn sweep(pos: GridPosition, steps: nat) -> GridPosition
    decreases steps,
{
    if steps == 0 {
        pos
    } else {
        next_in_sweep(sweep(pos, (steps - 1) as nat))
    }
}

/// Which cell is lit next, and the clock reading after which it is lit.
pub struct PixelStates<T> {
    pub next_lit_pixel: GridPosition,
    pub next_lit_time: T,
}

impl<T: Default> Default for PixelStates<T> {
    /// The sweep at the first cell of the scanline grid, due at the default
    /// clock reading.
    fn default() -> (state: Self)
        ensures
            state.next_lit_pixel == (GridPosition {
                width: SCANLINE_X,
                height: SCANLINE_Y,
                packed: 0,
            }),
            state.next_lit_pixel.wf(),
            call_ensures(T::default, (), state.next_lit_time),
    {
        Self {
            next_lit_pixel: GridPosition::new(SCANLINE_X, SCANLINE_Y, 0, 0),
            next_lit_time: T::default(),
        }
    }
}

impl<T> PixelStates<T> {
    /// Moves the sweep to the next cell in scan order and leaves the deadline
    /// as it is.
    pub fn update_next_pixel(&mut self)
        requires
            i32::MIN <= old(self).next_lit_pixel.cells() <= i32::MAX,
            old(self).next_lit_pixel.cells() != 0,
            old(self).next_lit_pixel.packed < i32::MAX,
        ensures
            final(self).next_lit_pixel == next_in_sweep(old(self).next_lit_pixel),
            final(self).next_lit_time == old(self).next_lit_time,
            old(self).next_lit_pixel.wf() ==> {
                &&& final(self).next_lit_pixel.wf()
                &&& old(self).next_lit_pixel.packed == old(self).next_lit_pixel.cells() - 1
                    ==> final(self).next_lit_pixel.packed == 0
                &&& old(self).next_lit_pixel.packed < old(self).next_lit_pixel.cells() - 1
                    ==> final(self).next_lit_pixel.packed == old(self).next_lit_pixel.packed + 1
            },
    {
        let cells: i32 = self.next_lit_pixel.width * self.next_lit_pixel.height;
        let next_pos: i32 = (self.next_lit_pixel.packed + 1) % cells;
        proof {
            if self.next_lit_pixel.wf() {
                lemma_next_of_valid(self.next_lit_pixel);
            }
        }
        self.next_lit_pixel.replace(next_pos);
    }
}

/// From a valid position one step leads to a valid position: to index zero
/// from the last cell, and to the following index from any other.
pub proof fn lemma_next_of_valid(pos: GridPosition)
    requires
        pos.wf(),
    ensures
        next_in_sweep(pos).wf(),
        next_in_sweep(pos).packed == (pos.packed + 1) % pos.cells(),
        pos.packed == pos.cells() - 1 ==> next_in_sweep(pos).packed == 0,
        pos.packed < pos.cells() - 1 ==> next_in_sweep(pos).packed == pos.packed + 1,
{
    let cells = pos.cells();
    if pos.packed == cells - 1 {
        assert(cells % cells == 0) by (nonlinear_arith)
            requires
                cells > 0,
        ;
    } else {
        vstd::arithmetic::div_mod::lemma_small_mod((pos.packed + 1) as nat, cells as nat);
    }
}

/// After `steps` steps a sweep from a valid position stands at the index
/// `(packed + steps) % cells` of the same grid.
pub proof fn lemma_sweep_position(pos: GridPosition, steps: nat)
    requires
        pos.wf(),
    ensures
        sweep(pos, steps).wf(),
        sweep(pos, steps).width == pos.width,
        sweep(pos, steps).height == pos.height,
        sweep(pos, steps).packed == (pos.packed + steps) % pos.cells(),
    decreases steps,
{
    let cells = pos.cells();
    if steps == 0 {
        vstd::arithmetic::div_mod::lemma_small_mod(pos.packed as nat, cells as nat);
    } else {
        let before = sweep(pos, (steps - 1) as nat);
        lemma_sweep_position(pos, (steps - 1) as nat);
        lemma_next_of_valid(before);
        vstd::arithmetic::div_mod::lemma_add_mod_noop(pos.packed + steps - 1, 1, cells);
        vstd::arithmetic::div_mod::lemma_mod_twice(pos.packed + steps - 1, cells);
        if cells == 1 {
            assert((pos.packed + steps) % 1 == 0);
            assert(before.packed == 0);
        } else {
            vstd::arithmetic::div_mod::lemma_small_mod(1, cells as nat);
        }
    }
}

/// A sweep that takes as many steps as the grid has cells is back where it
/// started.
pub proof fn lemma_full_sweep_returns(pos: GridPosition)
    requires
        pos.wf(),
    ensures
        sweep(pos, pos.cells() as nat) == pos,
{
    let cells = pos.cells();
    lemma_sweep_position(pos, cells as nat);
    vstd::arithmetic::div_mod::lemma_mod_add_multiples_vanish(pos.packed as int, cells);
    vstd::arithmetic::div_mod::lemma_small_mod(pos.packed as nat, cells as nat);
}

/// The index of the cell that the grid holds at place `i`. The grid is laid
/// out column by column, so place `i` holds column `i / height`, row
/// `i % height`.
pub open spec fn packed_at(width: int, height: int, i: int) -> int {
    spec_pack(width, i / height, i % height)
}

/// The cell that the grid holds at place `i`.
pub open spec fn cell_at(width: int, height: int, i: int) -> GridPosition {
    GridPosition {
        width: width as i32,
        height: height as i32,
        packed: packed_at(width, height, i) as i32,
    }
}

/// The number of pixels of a grid: none unless both dimensions are positive.
pub open spec fn grid_len(width: int, height: int) -> int {
    if width > 0 && height > 0 {
        width * height
    } else {
        0
    }
}

/// `pixels` is the pixel grid of a `width` by `height` grid: one pixel for
/// every place, each at the cell of its place.
pub open spec fn is_pixel_grid(pixels: Seq<Pixel>, width: int, height: int) -> bool {
    &&& pixels.len() == grid_len(width, height)
    &&& forall|i: int|
        0 <= i < pixels.len() ==> (#[trigger] pixels[i]).pos == cell_at(width, height, i)
}

/// One pixel for every cell of a `width` by `height` grid, column by column.
pub fn setup_pixel_grid(width: i32, height: i32) -> (pixels: Vec<Pixel>)
    requires
        grid_len(width as int, height as int) <= i32::MAX,
    ensures
        is_pixel_grid(pixels@, width as int, height as int),
{
    let mut pixels: Vec<Pixel> = Vec::new();
    let mut x: i32 = 0;
    while x < width
        invariant
            grid_len(width as int, height as int) <= i32::MAX,
            0 <= x,
            x <= width || x == 0,
            height <= 0 ==> pixels@.len() == 0,
            height > 0 ==> pixels@.len() == x * height,
            forall|i: int|
                0 <= i < pixels@.len() ==> (#[trigger] pixels@[i]).pos == cell_at(
                    width as int,
                    height as int,
                    i,
                ),
        decreases width - x,
    {
        let mut y: i32 = 0;
        while y < height
            invariant
                grid_len(width as int, height as int) <= i32::MAX,
                0 <= x < width,
                0 <= y,
                y <= height || y == 0,
                height <= 0 ==> pixels@.len() == 0,
                height > 0 ==> pixels@.len() == x * height + y,
                forall|i: int|
                    0 <= i < pixels@.len() ==> (#[trigger] pixels@[i]).pos == cell_at(
                        width as int,
                        height as int,
                        i,
                    ),
            decreases height - y,
        {
            proof {
                lemma_place_of_cell(width as int, height as int, x as int, y as int);
                crate::grid::position::lemma_pack_in_range(
                    width as int,
                    height as int,
                    x as int,
                    y as int,
                );
            }
            pixels.push(Pixel { pos: GridPosition::new(width, height, x, y) });
            y = y + 1;
        }
        proof {
            assert(height > 0 ==> x * height + height == (x + 1) * height) by (nonlinear_arith);
        }
        x = x + 1;
    }
    proof {
        if width > 0 && height > 0 {
            assert(x == width);
            assert(x * height == width * height);
            assert(pixels@.len() == width * height);
        } else if height > 0 {
            assert(x == 0);
            assert(pixels@.len() == 0);
        } else {
            assert(pixels@.len() == 0);
        }
    }
    pixels
}

/// The place `x * height + y` of a cell splits back into its column and row.
pub proof fn lemma_place_of_cell(width: int, height: int, x: int, y: int)
    requires
        0 <= x < width,
        0 <= y < height,
    ensures
        0 <= x * height + y < width * height,
        (x * height + y) / height == x,
        (x * height + y) % height == y,
{
    crate::grid::position::lemma_pack_in_range(height, width, y, x);
    crate::grid::position::lemma_pack_round_trip(height, width, y, x);
    assert(height * width == width * height) by (nonlinear_arith);
}

/// The pixel grid holds every cell of its grid exactly once: a valid position
/// is the position of the pixel at place
/// `(packed % width) * height + packed / width` and of no other.
pub proof fn lemma_grid_holds_each_cell_once(pixels: Seq<Pixel>, pos: GridPosition)
    requires
        pos.wf(),
        is_pixel_grid(pixels, pos.width as int, pos.height as int),
    ensures
        ({
            let place = (pos.packed % pos.width) * pos.height + pos.packed / pos.width;
            &&& 0 <= place < pixels.len()
            &&& pixels[place].pos == pos
            &&& forall|i: int|
                0 <= i < pixels.len() && (#[trigger] pixels[i]).pos == pos ==> i == place
        }),
{
    let width = pos.width as int;
    let height = pos.height as int;
    lemma_each_place_once(width, height, pos.packed as int);
    assert forall|i: int| 0 <= i < pixels.len() implies 0 <= #[trigger] packed_at(width, height, i)
        < width * height by {
        vstd::arithmetic::div_mod::lemma_fundamental_div_mod(i, height);
        assert(0 <= i / height < width) by (nonlinear_arith)
            requires
                0 < height,
                0 <= i < width * height,
                i == height * (i / height) + i % height,
                0 <= i % height < height,
        ;
        crate::grid::position::lemma_pack_in_range(width, height, i / height, i % height);
    }
    let place = (pos.packed % pos.width) * pos.height + pos.packed / pos.width;
    assert forall|i: int| 0 <= i < pixels.len() && (#[trigger] pixels[i]).pos == pos implies i
        == place by {
        assert(pixels[i].pos == cell_at(width, height, i));
        assert(0 <= packed_at(width, height, i) < width * height);
    }
    assert(pixels[place].pos == cell_at(width, height, place));
}

/// A valid index `packed` is the index held at place
/// `(packed % width) * height + packed / width` and at no other.
pub proof fn lemma_each_place_once(width: int, height: int, packed: int)
    requires
        0 < width,
        0 < height,
        0 <= packed < width * height,
    ensures
        ({
            let place = (packed % width) * height + packed / width;
            &&& 0 <= place < width * height
            &&& packed_at(width, height, place) == packed
            &&& forall|i: int|
                0 <= i < width * height && #[trigger] packed_at(width, height, i) == packed ==> i
                    == place
        }),
{
    let x = packed % width;
    let y = packed / width;
    vstd::arithmetic::div_mod::lemma_fundamental_div_mod(packed, width);
    assert(0 <= y < height) by (nonlinear_arith)
        requires
            0 < width,
            0 <= packed < width * height,
            y == packed / width,
            packed == width * y + x,
            0 <= x < width,
    ;
    lemma_place_of_cell(width, height, x, y);
    assert(width * y == y * width) by (nonlinear_arith);
    assert forall|i: int|
        0 <= i < width * height && #[trigger] packed_at(width, height, i) == packed implies i == x
        * height + y by {
        let xi = i / height;
        let yi = i % height;
        vstd::arithmetic::div_mod::lemma_fundamental_div_mod(i, height);
        assert(0 <= xi < width) by (nonlinear_arith)
            requires
                0 < height,
                0 <= i < width * height,
                xi == i / height,
                i == height * xi + yi,
                0 <= yi < height,
        ;
        crate::grid::position::lemma_pack_round_trip(width, height, xi, yi);
        assert(height * xi == xi * height) by (nonlinear_arith);
    }
}

} // verus!
