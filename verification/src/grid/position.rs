use std::cmp::Ordering;
use std::ops::Div;
use vstd::prelude::*;
use vstd::std_specs::cmp::PartialOrdSpec;
use vstd::std_specs::convert::FromSpec;
use vstd::std_specs::ops::DivSpec;

verus! {

/// The quotient of machine division on signed integers, which rounds toward zero.
pub open spec fn div_toward_zero(a: int, b: int) -> int {
    if a >= 0 {
        a / b
    } else {
        -((-a) / b)
    }
}

/// The remainder of machine division on signed integers; it has the sign of `a`.
pub open spec fn rem_toward_zero(a: int, b: int) -> int {
    if a >= 0 {
        a % b
    } else {
        -((-a) % b)
    }
}

/// The row-major index of column `x` in row `y` of a grid `width` cells wide.
pub open spec fn spec_pack(width: int, x: int, y: int) -> int {
    y * width + x
}

/// What [`GridPosition::unpack`] computes. The first component divides by the
/// width and the second reduces modulo the height, so the pair is the
/// coordinate pair of `pos` only on grids where the two happen to agree.
pub open spec fn spec_unpack(width: int, height: int, pos: int) -> (int, int) {
    (div_toward_zero(pos, width), rem_toward_zero(pos, height))
}

/// A cell of a rectangular grid, held as its row-major index together with
/// the grid's dimensions.
#[derive(Copy, Clone, Debug, PartialEq, Eq, Ord, Hash, Structural)]
pub struct GridPosition {
    pub width: i32,
    pub height: i32,
    pub packed: i32,
}

impl GridPosition {
    /// The number of cells of the grid this position belongs to.
    pub open spec fn cells(&self) -> int {
        self.width * self.height
    }

    /// The position names a cell of its grid, and the grid's cell count is
    /// representable.
    pub open spec fn wf(&self) -> bool {
        &&& 0 < self.width
        &&& 0 < self.height
        &&& self.cells() <= i32::MAX
        &&& 0 <= self.packed < self.cells()
    }

    /// The position of column `x`, row `y`.
    pub fn new(width: i32, height: i32, x: i32, y: i32) -> (pos: Self)
        requires
            0 <= x < width,
            0 <= y < height,
            spec_pack(width as int, x as int, y as int) <= i32::MAX,
        ensures
            pos == (GridPosition {
                width,
                height,
                packed: spec_pack(width as int, x as int, y as int) as i32,
            }),
            0 <= pos.packed < pos.cells(),
            pos.cells() <= i32::MAX ==> pos.wf(),
    {
        proof {
            lemma_pack_in_range(width as int, height as int, x as int, y as int);
            assert(0 <= y * width <= y * width + x) by (nonlinear_arith)
                requires
                    0 <= x,
                    0 <= y,
                    0 < width,
            ;
        }
        Self { width, height, packed: Self::pack(width, x, y) }
    }

    /// The pair that [`GridPosition::unpack`] gives for this position.
    pub fn unpacked(&self) -> (coords: (i32, i32))
        requires
            self.width != 0,
            self.height != 0,
            !(self.packed == i32::MIN && (self.width == -1 || self.height == -1)),
        ensures
            (coords.0 as int, coords.1 as int) == spec_unpack(
                self.width as int,
                self.height as int,
                self.packed as int,
            ),
    {
        Self::unpack(self.width, self.height, self.packed)
    }

    /// Overwrites the index and leaves the dimensions as they are.
    pub fn replace(&mut self, pos: i32)
        ensures
            *final(self) == (GridPosition { packed: pos, ..*old(self) }),
    {
        self.packed = pos;
    }

    /// Overwrites the index with that of column `new_x`, row `new_y`.
    pub fn replace_coords(&mut self, new_x: i32, new_y: i32)
        requires
            i32::MIN <= new_y * old(self).width <= i32::MAX,
            i32::MIN <= spec_pack(old(self).width as int, new_x as int, new_y as int) <= i32::MAX,
        ensures
            *final(self) == (GridPosition {
                packed: spec_pack(old(self).width as int, new_x as int, new_y as int) as i32,
                ..*old(self)
            }),
    {
        self.packed = Self::pack(self.width, new_x, new_y);
    }

    /// What `normalised` divides the index by: `height * width + width`, one
    /// row more than the grid holds.
    pub open spec fn divisor(&self) -> int {
        self.height * self.width + self.width
    }

    /// The divisor is representable, and in `T` the index may be divided by
    /// it.
    pub open spec fn can_normalise<T: From<i32> + Div<Output = T>>(&self) -> bool {
        &&& i32::MIN <= self.height * self.width <= i32::MAX
        &&& i32::MIN <= self.divisor() <= i32::MAX
        &&& forall|n: T, d: T|
            #![trigger call_requires(T::div, (n, d))]
            call_ensures(T::from, (self.packed,), n) && call_ensures(
                T::from,
                (self.divisor() as i32,),
                d,
            ) ==> call_requires(T::div, (n, d))
    }

    /// `value` is a quotient, taken in `T`, of the index by the divisor.
    pub open spec fn normalises_to<T: From<i32> + Div<Output = T>>(&self, value: T) -> bool {
        exists|n: T, d: T|
            #![trigger call_ensures(T::div, (n, d), value)]
            call_ensures(T::from, (self.packed,), n) && call_ensures(
                T::from,
                (self.divisor() as i32,),
                d,
            ) && call_ensures(T::div, (n, d), value)
    }

    /// The position's place in the sweep as a number of type `T`: the index
    /// divided by `height * width + width`, both converted to `T` first. For a
    /// valid position, and in a type that holds fractions, this lies between
    /// zero and `height / (height + 1)`.
    pub fn normalised<T: From<i32> + Div<Output = T>>(&self) -> (value: T)
        requires
            self.can_normalise::<T>(),
        ensures
            self.normalises_to(value),
    {
        let numerator = T::from(self.packed);
        let denominator = T::from(Self::pack(self.width, self.width, self.height));
        numerator / denominator
    }

    /// The row-major index `y * width + x`.
    pub fn pack(width: i32, x: i32, y: i32) -> (packed: i32)
        requires
            i32::MIN <= y * width <= i32::MAX,
            i32::MIN <= spec_pack(width as int, x as int, y as int) <= i32::MAX,
        ensures
            packed == spec_pack(width as int, x as int, y as int),
    {
        (y * width) + x
    }

    /// Splits an index into `pos / width` and `pos % height`, both with
    /// machine division.
    pub fn unpack(width: i32, height: i32, pos: i32) -> (coords: (i32, i32))
        requires
            width != 0,
            height != 0,
            !(pos == i32::MIN && (width == -1 || height == -1)),
        ensures
            (coords.0 as int, coords.1 as int) == spec_unpack(
                width as int,
                height as int,
                pos as int,
            ),
    {
        proof {
            if pos >= 0 {
                lemma_quotient_bounded(pos as int, width as int);
            } else {
                lemma_quotient_bounded(-pos, width as int);
            }
        }
        (pos / width, pos % height)
    }
}

impl PartialOrd for GridPosition {
    /// Orders by width, then height, then index.
    fn partial_cmp(&self, other: &Self) -> (order: Option<Ordering>) {
        if self.width < other.width {
            Some(Ordering::Less)
        } else if self.width > other.width {
            Some(Ordering::Greater)
        } else if self.height < other.height {
            Some(Ordering::Less)
        } else if self.height > other.height {
            Some(Ordering::Greater)
        } else if self.packed < other.packed {
            Some(Ordering::Less)
        } else if self.packed > other.packed {
            Some(Ordering::Greater)
        } else {
            Some(Ordering::Equal)
        }
    }
}

impl vstd::std_specs::cmp::PartialOrdSpecImpl for GridPosition {
    open spec fn obeys_partial_cmp_spec() -> bool {
        true
    }

    open spec fn partial_cmp_spec(&self, other: &Self) -> Option<Ordering> {
        if self.width < other.width {
            Some(Ordering::Less)
        } else if self.width > other.width {
            Some(Ordering::Greater)
        } else if self.height < other.height {
            Some(Ordering::Less)
        } else if self.height > other.height {
            Some(Ordering::Greater)
        } else if self.packed < other.packed {
            Some(Ordering::Less)
        } else if self.packed > other.packed {
            Some(Ordering::Greater)
        } else {
            Some(Ordering::Equal)
        }
    }
}

/// On one grid the order of positions is the order of their indices: the
/// cell that the sweep reaches first is the smaller one.
pub proof fn lemma_order_is_scan_order(a: GridPosition, b: GridPosition)
    requires
        a.width == b.width,
        a.height == b.height,
    ensures
        a.partial_cmp_spec(&b) == Some(Ordering::Less) <==> a.packed < b.packed,
        a.partial_cmp_spec(&b) == Some(Ordering::Equal) <==> a == b,
        a.partial_cmp_spec(&b) == Some(Ordering::Greater) <==> a.packed > b.packed,
{
}

/// Dividing a non-negative number by a non-zero one does not increase its
/// magnitude.
pub proof fn lemma_quotient_bounded(a: int, b: int)
    requires
        0 <= a,
        b != 0,
    ensures
        -a <= a / b <= a,
        0 < a && b != -1 ==> -a < a / b,
{
    assert(-a <= a / b <= a) by (nonlinear_arith)
        requires
            0 <= a,
            b != 0,
    ;
    assert(0 < a && b != -1 ==> -a < a / b) by (nonlinear_arith)
        requires
            0 <= a,
            b != 0,
    ;
}

/// Inside the grid, an index is non-negative and below the cell count.
pub proof fn lemma_pack_in_range(width: int, height: int, x: int, y: int)
    requires
        0 <= x < width,
        0 <= y < height,
    ensures
        0 <= spec_pack(width, x, y) < width * height,
{
    assert(0 <= y * width && y * width + width <= height * width && height * width == width
        * height) by (nonlinear_arith)
        requires
            0 <= y < height,
            0 < width,
    ;
}

/// Packing is undone by the row-major split: the remainder by the width is the
/// column and the quotient by the width is the row.
pub proof fn lemma_pack_round_trip(width: int, height: int, x: int, y: int)
    requires
        0 < width,
        0 < height,
        0 <= x < width,
        0 <= y < height,
    ensures
        spec_pack(width, x, y) % width == x,
        spec_pack(width, x, y) / width == y,
{
    vstd::arithmetic::div_mod::lemma_fundamental_div_mod_converse(
        spec_pack(width, x, y),
        width,
        y,
        x,
    );
}

/// What `unpack` makes of a packed index of the grid: the row comes out in
/// the first place, and the second holds the index reduced modulo the height,
/// not the column. On a square grid the pair is the coordinate pair with its
/// components exchanged.
pub proof fn lemma_unpack_of_pack(width: int, height: int, x: int, y: int)
    requires
        0 < width,
        0 < height,
        0 <= x < width,
        0 <= y < height,
    ensures
        spec_unpack(width, height, spec_pack(width, x, y)) == (y, spec_pack(width, x, y) % height),
        width == height ==> spec_unpack(width, height, spec_pack(width, x, y)) == (y, x),
{
    lemma_pack_in_range(width, height, x, y);
    lemma_pack_round_trip(width, height, x, y);
}

/// The fraction that `normalised` takes of a valid position lies in `[0, 1)`:
/// the index is non-negative and below the divisor. It even stays below
/// `height / (height + 1)`.
pub proof fn lemma_normalised_in_unit_interval(pos: GridPosition)
    requires
        pos.wf(),
    ensures
        0 <= pos.packed < pos.divisor(),
        pos.packed * (pos.height + 1) < pos.height * pos.divisor(),
{
    assert(pos.height * pos.width == pos.width * pos.height) by (nonlinear_arith);
    assert(pos.packed * (pos.height + 1) < pos.height * (pos.height * pos.width + pos.width))
        by (nonlinear_arith)
        requires
            0 <= pos.packed < pos.height * pos.width,
            0 < pos.height,
            0 < pos.width,
    ;
}

/// In a type whose conversion and division keep to their specifications,
/// a position normalises to one value: the specified quotient of the
/// converted index by the converted divisor.
pub proof fn lemma_normalised_of_specified<T: From<i32> + Div<Output = T>>(
    pos: GridPosition,
    value: T,
)
    requires
        <T as FromSpec<i32>>::obeys_from_spec(),
        <T as DivSpec>::obeys_div_spec(),
        pos.normalises_to(value),
    ensures
        value == T::from_spec(pos.packed).div_spec(T::from_spec(pos.divisor() as i32)),
{
}

} // verus!
