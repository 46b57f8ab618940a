//! Pure per-axis geometry: margins, alignment modes, and the two alignment
//! functions that turn (available space, requested length) into a final
//! offset and length.

use vstd::prelude::*;

verus! {

/// Largest magnitude accepted for a stored attribute field (a constraint
/// bound, a margin side, a fixed column width).
pub const DIM_LIMIT: i64 = 1_000_000_000;

/// Largest magnitude accepted for a parent constraint field or a measured
/// child size handed back by the traversal driver.
pub const SIZE_LIMIT: i64 = 10_000_000_000;

/// Largest number of columns a grid container may own.
pub const MAX_COLUMNS: usize = 1024;

/// Bound on a resolved column width: an automatic width is at most
/// `3 * DIM_LIMIT`, and a stretch share is at most the container width plus
/// the sum of all non-stretch widths.
pub const COL_WIDTH_BOUND: i64 = 4_000_000_000_000;

/// Bound on an accumulated column offset or a spanned width:
/// at most `MAX_COLUMNS * COL_WIDTH_BOUND`.
pub const OFFSET_BOUND: i64 = 4_100_000_000_000_000;

/// A stored attribute dimension is within the machine limits.
pub open spec fn dim_ok(v: int) -> bool {
    -DIM_LIMIT <= v <= DIM_LIMIT
}

/// A parent constraint field or measured size is within the machine limits.
pub open spec fn size_ok(v: int) -> bool {
    -SIZE_LIMIT <= v <= SIZE_LIMIT
}

/// Four-sided spacing around a node.  Immutable input during a pass.
#[derive(Clone, Copy, PartialEq, Eq, Structural, Debug)]
pub struct Margin {
    pub left: i64,
    pub top: i64,
    pub right: i64,
    pub bottom: i64,
}

impl Margin {
    /// All sides are non-negative and within the machine limits.
    pub open spec fn wf(self) -> bool {
        &&& 0 <= self.left <= DIM_LIMIT
        &&& 0 <= self.top <= DIM_LIMIT
        &&& 0 <= self.right <= DIM_LIMIT
        &&& 0 <= self.bottom <= DIM_LIMIT
    }

    pub fn new(left: i64, top: i64, right: i64, bottom: i64) -> (r: Margin)
        ensures
            r == (Margin { left, top, right, bottom }),
    {
        Margin { left, top, right, bottom }
    }
}

impl Default for Margin {
    /// The neutral margin: no spacing on any side.
    fn default() -> (r: Self)
        ensures
            r == (Margin { left: 0, top: 0, right: 0, bottom: 0 }),
    {
        Margin { left: 0, top: 0, right: 0, bottom: 0 }
    }
}

/// Alignment of a length within an available space, used for both axes.
#[derive(Clone, Copy, PartialEq, Eq, Structural, Debug)]
pub enum Alignment {
    Start,
    Center,
    End,
    Stretch,
}

impl Default for Alignment {
    /// The neutral alignment: place at the near edge.
    fn default() -> (r: Self)
        ensures
            r == Alignment::Start,
    {
        Alignment::Start
    }
}

/// Integer division rounding toward zero, matching the usual truncating
/// division of hardware; defined only for positive divisors.
pub open spec fn div_to_zero(a: int, b: int) -> int
    recommends
        b >= 1,
{
    if a >= 0 {
        a / b
    } else {
        -((-a) / b)
    }
}

/// Truncating division on machine integers.
pub fn div_trunc(a: i64, b: i64) -> (q: i64)
    requires
        1 <= b,
        -0x7fff_ffff_ffff_ffff <= a,
    ensures
        q == div_to_zero(a as int, b as int),
        a >= 0 ==> 0 <= q <= a,
        a < 0 ==> a <= q <= 0,
{
    if a >= 0 {
        let qu: u64 = (a as u64) / (b as u64);
        proof {
            vstd::arithmetic::div_mod::lemma_div_nonincreasing(a as int, b as int);
            vstd::arithmetic::div_mod::lemma_div_pos_is_pos(a as int, b as int);
        }
        qu as i64
    } else {
        let n: i64 = -a;
        let qu: u64 = (n as u64) / (b as u64);
        proof {
            vstd::arithmetic::div_mod::lemma_div_nonincreasing(n as int, b as int);
            vstd::arithmetic::div_mod::lemma_div_pos_is_pos(n as int, b as int);
        }
        -(qu as i64)
    }
}

impl Alignment {
    /// The length an aligned element takes up: a stretched element fills the
    /// available space minus both margins, any other element keeps its
    /// requested length.
    pub open spec fn spec_align_length(self, available: int, requested: int, near: int, far: int) -> int {
        match self {
            Alignment::Stretch => available - near - far,
            _ => requested,
        }
    }

    /// The offset of an aligned element of the given length within the
    /// available space.
    pub open spec fn spec_align_offset(self, available: int, length: int, near: int, far: int) -> int {
        match self {
            Alignment::Start => near,
            Alignment::Stretch => near,
            Alignment::End => available - length - far,
            Alignment::Center => div_to_zero(available - length, 2),
        }
    }

    pub fn align_length(self, available: i64, requested: i64, near: i64, far: i64) -> (r: i64)
        requires
            -OFFSET_BOUND - SIZE_LIMIT <= available <= OFFSET_BOUND + SIZE_LIMIT,
            0 <= near <= DIM_LIMIT,
            0 <= far <= DIM_LIMIT,
        ensures
            r == self.spec_align_length(available as int, requested as int, near as int, far as int),
    {
        match self {
            Alignment::Stretch => available - near - far,
            _ => requested,
        }
    }

    pub fn align_offset(self, available: i64, length: i64, near: i64, far: i64) -> (r: i64)
        requires
            -OFFSET_BOUND - SIZE_LIMIT <= available <= OFFSET_BOUND + SIZE_LIMIT,
            -OFFSET_BOUND - SIZE_LIMIT <= length <= OFFSET_BOUND + SIZE_LIMIT,
            0 <= near <= DIM_LIMIT,
            0 <= far <= DIM_LIMIT,
        ensures
            r == self.spec_align_offset(available as int, length as int, near as int, far as int),
    {
        match self {
            Alignment::Start => near,
            Alignment::Stretch => near,
            Alignment::End => available - length - far,
            Alignment::Center => div_trunc(available - length, 2),
        }
    }

    /// Horizontal offset of an element measured `measured` wide within
    /// `available`, under this alignment and the element's margin.
    pub fn align_x(self, available: i64, measured: i64, margin: Margin) -> (r: i64)
        requires
            -OFFSET_BOUND - SIZE_LIMIT <= available <= OFFSET_BOUND + SIZE_LIMIT,
            -OFFSET_BOUND - SIZE_LIMIT <= measured <= OFFSET_BOUND + SIZE_LIMIT,
            margin.wf(),
        ensures
            r == self.spec_align_offset(available as int, measured as int, margin.left as int, margin.right as int),
    {
        self.align_offset(available, measured, margin.left, margin.right)
    }

    /// Width of an element requested `requested` wide within `available`,
    /// under this alignment and the element's margin.
    pub fn align_width(self, available: i64, requested: i64, margin: Margin) -> (r: i64)
        requires
            -OFFSET_BOUND - SIZE_LIMIT <= available <= OFFSET_BOUND + SIZE_LIMIT,
            margin.wf(),
        ensures
            r == self.spec_align_length(available as int, requested as int, margin.left as int, margin.right as int),
    {
        self.align_length(available, requested, margin.left, margin.right)
    }

    /// Vertical offset, as `align_x` with the vertical margin sides.
    pub fn align_y(self, available: i64, measured: i64, margin: Margin) -> (r: i64)
        requires
            -OFFSET_BOUND - SIZE_LIMIT <= available <= OFFSET_BOUND + SIZE_LIMIT,
            -OFFSET_BOUND - SIZE_LIMIT <= measured <= OFFSET_BOUND + SIZE_LIMIT,
            margin.wf(),
        ensures
            r == self.spec_align_offset(available as int, measured as int, margin.top as int, margin.bottom as int),
    {
        self.align_offset(available, measured, margin.top, margin.bottom)
    }

    /// Height of an element, as `align_width` with the vertical margin sides.
    pub fn align_height(self, available: i64, requested: i64, margin: Margin) -> (r: i64)
        requires
            -OFFSET_BOUND - SIZE_LIMIT <= available <= OFFSET_BOUND + SIZE_LIMIT,
            margin.wf(),
        ensures
            r == self.spec_align_length(available as int, requested as int, margin.top as int, margin.bottom as int),
    {
        self.align_length(available, requested, margin.top, margin.bottom)
    }
}

} // verus!
