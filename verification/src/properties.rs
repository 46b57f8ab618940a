//! The attribute types a layout pass reads and writes: sizing constraints,
//! resolved bounds, and the column records of a grid container.

use vstd::prelude::*;
use crate::geometry::{dim_ok, DIM_LIMIT, MAX_COLUMNS, COL_WIDTH_BOUND};

verus! {

/// Per-axis minimum/preferred/maximum size bounds.  A zero minimum or
/// maximum means "unbounded on that side"; a zero preferred size means
/// "no own preference".
#[derive(Clone, Copy, PartialEq, Eq, Structural, Debug)]
pub struct Constraint {
    pub width: i64,
    pub height: i64,
    pub min_width: i64,
    pub min_height: i64,
    pub max_width: i64,
    pub max_height: i64,
}

/// Clamp a requested value into `[min, max]`; a non-positive bound is
/// treated as absent.
pub open spec fn spec_constrain(value: int, min: int, max: int) -> int {
    if value < min && min > 0 {
        min
    } else if value > max && max > 0 {
        max
    } else {
        value
    }
}

pub fn constrain(value: i64, min: i64, max: i64) -> (r: i64)
    ensures
        r == spec_constrain(value as int, min as int, max as int),
{
    if value < min && min > 0 {
        min
    } else if value > max && max > 0 {
        max
    } else {
        value
    }
}

impl Constraint {
    /// All fields are within the machine limits of a stored attribute.
    pub open spec fn wf(self) -> bool {
        &&& dim_ok(self.width as int)
        &&& dim_ok(self.height as int)
        &&& dim_ok(self.min_width as int)
        &&& dim_ok(self.min_height as int)
        &&& dim_ok(self.max_width as int)
        &&& dim_ok(self.max_height as int)
    }

    pub fn new(width: i64, height: i64) -> (r: Constraint)
        ensures
            r == (Constraint {
                width,
                height,
                min_width: 0,
                min_height: 0,
                max_width: 0,
                max_height: 0,
            }),
    {
        Constraint { width, height, min_width: 0, min_height: 0, max_width: 0, max_height: 0 }
    }

    /// Resolve a requested size against this constraint's bounds, one axis
    /// at a time.
    pub fn perform(&self, size: (i64, i64)) -> (r: (i64, i64))
        ensures
            r.0 == spec_constrain(size.0 as int, self.min_width as int, self.max_width as int),
            r.1 == spec_constrain(size.1 as int, self.min_height as int, self.max_height as int),
    {
        (
            constrain(size.0, self.min_width, self.max_width),
            constrain(size.1, self.min_height, self.max_height),
        )
    }
}

impl Default for Constraint {
    /// The neutral constraint: no preference and no bounds.
    fn default() -> (r: Self)
        ensures
            r == (Constraint {
                width: 0,
                height: 0,
                min_width: 0,
                min_height: 0,
                max_width: 0,
                max_height: 0,
            }),
    {
        Constraint { width: 0, height: 0, min_width: 0, min_height: 0, max_width: 0, max_height: 0 }
    }
}

/// The resolved rectangle of a node: the output of a layout pass.
#[derive(Clone, Copy, PartialEq, Eq, Structural, Debug)]
pub struct Bounds {
    pub x: i64,
    pub y: i64,
    pub width: i64,
    pub height: i64,
}

impl Default for Bounds {
    fn default() -> (r: Self)
        ensures
            r == (Bounds { x: 0, y: 0, width: 0, height: 0 }),
    {
        Bounds { x: 0, y: 0, width: 0, height: 0 }
    }
}

/// A column's width policy: a fixed width, sized from the children, or an
/// equal share of the leftover container width.
#[derive(Clone, Copy, PartialEq, Eq, Structural, Debug)]
pub enum ColumnWidth {
    Width(i64),
    Auto,
    Stretch,
}

/// One column of a grid container: its width policy and the width the
/// current pass has computed for it.
#[derive(Clone, Copy, PartialEq, Eq, Structural, Debug)]
pub struct Column {
    pub width: ColumnWidth,
    pub current_width: i64,
}

/// A fixed width is within the stored-attribute limits and a computed
/// current width within the resolved-column limits.
pub open spec fn column_ok(c: Column) -> bool {
    &&& match c.width {
        ColumnWidth::Width(w) => dim_ok(w as int),
        _ => true,
    }
    &&& -COL_WIDTH_BOUND <= c.current_width <= COL_WIDTH_BOUND
}

impl Column {
    pub fn new(width: ColumnWidth) -> (r: Column)
        ensures
            r == (Column { width, current_width: 0 }),
    {
        Column { width, current_width: 0 }
    }
}

/// The ordered column sequence of a grid container.  An empty sequence
/// means the container is not a grid: children are then aligned within the
/// whole container instead.
#[derive(Debug)]
pub struct Columns {
    list: Vec<Column>,
}

/// Every column is well formed and the count is within the machine limit.
pub open spec fn columns_ok(s: Seq<Column>) -> bool {
    &&& s.len() <= MAX_COLUMNS
    &&& forall|i: int| 0 <= i < s.len() ==> column_ok(#[trigger] s[i])
}

impl View for Columns {
    type V = Seq<Column>;

    closed spec fn view(&self) -> Seq<Column> {
        self.list@
    }
}

impl Columns {
    pub fn new() -> (r: Columns)
        ensures
            r@ == Seq::<Column>::empty(),
    {
        Columns { list: Vec::new() }
    }

    pub fn push(&mut self, c: Column) -> (r: ())
        requires
            old(self)@.len() < MAX_COLUMNS,
        ensures
            final(self)@ == old(self)@.push(c),
    {
        self.list.push(c);
    }

    pub fn len(&self) -> (r: usize)
        ensures
            r == self@.len(),
    {
        self.list.len()
    }

    pub fn get(&self, i: usize) -> (r: Column)
        requires
            i < self@.len(),
        ensures
            r == self@[i as int],
    {
        self.list[i]
    }

    pub fn set_current_width(&mut self, i: usize, w: i64) -> (r: ())
        requires
            i < old(self)@.len(),
        ensures
            final(self)@ == old(self)@.update(
                i as int,
                (Column { width: old(self)@[i as int].width, current_width: w }),
            ),
    {
        let policy = self.list[i].width;
        self.list[i] = Column { width: policy, current_width: w };
    }
}

/// The zero-based column index a grid child is assigned to.
#[derive(Clone, Copy, PartialEq, Eq, Structural, Debug)]
pub struct GridColumn(pub usize);

/// The number of consecutive columns a grid child occupies.
#[derive(Clone, Copy, PartialEq, Eq, Structural, Debug)]
pub struct ColumnSpan(pub usize);

} // verus!
