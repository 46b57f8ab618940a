//! The grid layout algorithm: the column-aware implementation of the
//! layout protocol.  It resolves the container's own size, computes column
//! geometry once per pass (automatic widths from the children, fixed
//! widths, an equal share of the leftover space for stretch columns,
//! accumulated offsets), and places each measured child by its column,
//! span, alignment and margin.
//!
//! Only a single row is supported: a child's vertical placement always
//! aligns against the container's full height.  This is a documented
//! limitation, not an oversight.

use vstd::prelude::*;
use crate::geometry::{
    size_ok, div_to_zero, div_trunc,
    DIM_LIMIT, SIZE_LIMIT, MAX_COLUMNS, COL_WIDTH_BOUND, OFFSET_BOUND,
};
use crate::properties::{spec_constrain, columns_ok, Column, ColumnWidth, Constraint};
use crate::store::{
    node_of, spec_write_pos, spec_write_pos_width, lemma_node_of_wf, Entity, NodeView, Store,
};
use crate::layout::{Layout, LayoutResult};

verus! {

// ---------------------------------------------------------------------
// sequence helpers
// ---------------------------------------------------------------------

pub proof fn lemma_take_step<T>(s: Seq<T>, i: int)
    requires
        0 <= i < s.len(),
    ensures
        s.take(i + 1).drop_last() == s.take(i),
        s.take(i + 1).last() == s[i],
{
    assert(s.take(i + 1).drop_last() =~= s.take(i));
}

pub proof fn lemma_take_full<T>(s: Seq<T>)
    ensures
        s.take(s.len() as int) == s,
{
    assert(s.take(s.len() as int) =~= s);
}

// ---------------------------------------------------------------------
// the container's own size
// ---------------------------------------------------------------------

/// The constraint a node resolves against: its own, or the neutral one.
pub open spec fn spec_constraint_or_default(n: NodeView) -> Constraint {
    match n.constraint {
        Some(c) => c,
        None => Constraint {
            width: 0,
            height: 0,
            min_width: 0,
            min_height: 0,
            max_width: 0,
            max_height: 0,
        },
    }
}

/// All fields of a constraint handed down by the parent are within the
/// machine limits.
pub open spec fn spec_parent_ok(c: Constraint) -> bool {
    &&& size_ok(c.width as int)
    &&& size_ok(c.height as int)
    &&& size_ok(c.min_width as int)
    &&& size_ok(c.min_height as int)
    &&& size_ok(c.max_width as int)
    &&& size_ok(c.max_height as int)
}

/// The container's own resolved size: its alignment stretches or keeps its
/// requested length against the parent's constraint, and the result is
/// clamped by its own bounds.  Independent of the children.
pub open spec fn spec_resolved_size(n: NodeView, parent: Constraint) -> (int, int) {
    let c = spec_constraint_or_default(n);
    (
        spec_constrain(
            n.horizontal_alignment.spec_align_length(
                parent.width as int,
                c.width as int,
                n.margin.left as int,
                n.margin.right as int,
            ),
            c.min_width as int,
            c.max_width as int,
        ),
        spec_constrain(
            n.vertical_alignment.spec_align_length(
                parent.height as int,
                c.height as int,
                n.margin.top as int,
                n.margin.bottom as int,
            ),
            c.min_height as int,
            c.max_height as int,
        ),
    )
}

/// The constraint handed to each child: the container's own constraint
/// with its resolved size substituted for the preferred size.
pub open spec fn spec_request_constraint(n: NodeView, parent: Constraint) -> Constraint {
    let c = spec_constraint_or_default(n);
    let s = spec_resolved_size(n, parent);
    Constraint { width: s.0 as i64, height: s.1 as i64, ..c }
}

// ---------------------------------------------------------------------
// column geometry
// ---------------------------------------------------------------------

/// A child takes part in automatic column sizing only when it declares
/// both a column index and a constraint of its own.
pub open spec fn spec_auto_eligible(c: NodeView, col: int) -> bool {
    &&& c.grid_column is Some
    &&& c.grid_column.unwrap() == col
    &&& c.constraint is Some
}

/// What an eligible child asks of its automatic column: its requested
/// width plus its own horizontal margins.
pub open spec fn spec_auto_contribution(c: NodeView) -> int {
    spec_constraint_or_default(c).width + c.margin.left + c.margin.right
}

/// The width of automatic column `col`: the largest contribution of the
/// children assigned to it, and zero when no child raises it.
pub open spec fn spec_auto_width(s: Seq<NodeView>, children: Seq<Entity>, col: int) -> int
    decreases children.len(),
{
    if children.len() == 0 {
        0
    } else {
        let prev = spec_auto_width(s, children.drop_last(), col);
        let c = node_of(s, children.last());
        if spec_auto_eligible(c, col) && spec_auto_contribution(c) > prev {
            spec_auto_contribution(c)
        } else {
            prev
        }
    }
}

/// A column's width before stretch distribution: a fixed column has its
/// declared width, an automatic column the width its children ask for, and
/// a stretch column takes up no space yet.
pub open spec fn spec_base_width(s: Seq<NodeView>, children: Seq<Entity>, cols: Seq<Column>, i: int) -> int {
    match cols[i].width {
        ColumnWidth::Width(w) => w as int,
        ColumnWidth::Auto => spec_auto_width(s, children, i),
        ColumnWidth::Stretch => 0,
    }
}

/// The space the first `n` columns take up before stretch distribution.
pub open spec fn spec_used_width(s: Seq<NodeView>, children: Seq<Entity>, cols: Seq<Column>, n: int) -> int
    decreases n,
{
    if n <= 0 {
        0
    } else {
        spec_used_width(s, children, cols, n - 1) + spec_base_width(s, children, cols, n - 1)
    }
}

pub open spec fn spec_stretch_count(cols: Seq<Column>) -> int
    decreases cols.len(),
{
    if cols.len() == 0 {
        0
    } else {
        spec_stretch_count(cols.drop_last()) + if cols.last().width is Stretch {
            1int
        } else {
            0int
        }
    }
}

/// Each stretch column's share of the leftover container width, rounded
/// toward zero; it may legally be negative.
pub open spec fn spec_stretch_share(s: Seq<NodeView>, children: Seq<Entity>, cols: Seq<Column>, sw: int) -> int {
    div_to_zero(sw - spec_used_width(s, children, cols, cols.len() as int), spec_stretch_count(cols))
}

/// The width column `i` resolves to in this pass.
pub open spec fn spec_col_width(s: Seq<NodeView>, children: Seq<Entity>, cols: Seq<Column>, sw: int, i: int) -> int {
    if cols[i].width is Stretch {
        spec_stretch_share(s, children, cols, sw)
    } else {
        spec_base_width(s, children, cols, i)
    }
}

pub open spec fn spec_resolved_widths(s: Seq<NodeView>, children: Seq<Entity>, cols: Seq<Column>, sw: int) -> Seq<int> {
    Seq::new(cols.len(), |i: int| spec_col_width(s, children, cols, sw, i))
}

/// The x-offset of column `i`: the sum of the widths of the columns before
/// it.
pub open spec fn spec_offset(widths: Seq<int>, i: int) -> int
    decreases i,
{
    if i <= 0 {
        0
    } else {
        spec_offset(widths, i - 1) + widths[i - 1]
    }
}

/// The per-pass column cache: for each column its x-offset and its
/// resolved width.
pub open spec fn spec_cache(widths: Seq<int>) -> Seq<(int, int)> {
    Seq::new(widths.len(), |i: int| (spec_offset(widths, i), widths[i]))
}

/// The cache entries a grid layout instance may hold, as mathematical
/// integers.
pub open spec fn cache_ints(c: Seq<(i64, i64)>) -> Seq<(int, int)> {
    Seq::new(c.len(), |i: int| (c[i].0 as int, c[i].1 as int))
}

// ---------------------------------------------------------------------
// spanned width and child placement
// ---------------------------------------------------------------------

/// The width of `count` columns starting at `from`: columns past the end
/// of the cache contribute nothing, so an oversized span is silently
/// truncated to the columns that exist.
pub open spec fn spec_span_sum(cache: Seq<(int, int)>, from: int, count: int) -> int
    decreases count,
{
    if count <= 0 || from < 0 || from >= cache.len() {
        0
    } else {
        cache[from].1 + spec_span_sum(cache, from + 1, count - 1)
    }
}

/// The x-offset and available width of a child sitting in `grid_column`:
/// the cached offset of that column (zero when it has no cache entry), and
/// either the summed width of its span or, for a child with no span of its
/// own, the plain width of its column (zero when absent).
pub open spec fn spec_column_x_and_width(cache: Seq<(int, int)>, c: NodeView, grid_column: int) -> (int, int) {
    let x = if 0 <= grid_column < cache.len() {
        cache[grid_column].0
    } else {
        0
    };
    let w = match c.column_span {
        Some(n) => spec_span_sum(cache, grid_column, n as int),
        None => if 0 <= grid_column < cache.len() {
            cache[grid_column].1
        } else {
            0
        },
    };
    (x, w)
}

/// One measured child's new attribute record.  In plain mode (the
/// container owns no columns) only the child's position is written; in
/// grid mode its position and width are written, the width aligned within
/// the spanned column width.  A child without a bounds attribute is left
/// untouched either way.
pub open spec fn spec_place(
    grid_mode: bool,
    cache: Seq<(int, int)>,
    c: NodeView,
    sw: int,
    sh: int,
    w: int,
    h: int,
) -> NodeView {
    let x_align = c.horizontal_alignment.spec_align_offset(sw, w, c.margin.left as int, c.margin.right as int);
    let y = c.vertical_alignment.spec_align_offset(sh, h, c.margin.top as int, c.margin.bottom as int);
    if grid_mode {
        let g = match c.grid_column {
            Some(gc) => gc as int,
            None => 0,
        };
        let xw = spec_column_x_and_width(cache, c, g);
        let width = c.horizontal_alignment.spec_align_length(xw.1, w, c.margin.left as int, c.margin.right as int);
        spec_write_pos_width(c, xw.0 + x_align, width, y)
    } else {
        spec_write_pos(c, x_align, y)
    }
}

// ---------------------------------------------------------------------
// the algorithm's own per-pass state
// ---------------------------------------------------------------------

/// Per-pass traversal state of one grid container: the index of the child
/// whose measurement is outstanding, and the column cache, both reset at
/// the start of every pass.
pub struct GridLayout {
    pub current_child: usize,
    pub columns_cache: Vec<(i64, i64)>,
}

impl GridLayout {
    /// The cache never outgrows the column limit and its entries stay
    /// within the resolved-geometry bounds.
    pub open spec fn wf(&self) -> bool {
        &&& self.columns_cache@.len() <= MAX_COLUMNS
        &&& forall|i: int| 0 <= i < self.columns_cache@.len() ==> {
            &&& -OFFSET_BOUND <= (#[trigger] self.columns_cache@[i]).0 <= OFFSET_BOUND
            &&& -COL_WIDTH_BOUND <= self.columns_cache@[i].1 <= COL_WIDTH_BOUND
        }
    }

    pub fn new() -> (r: GridLayout)
        ensures
            r.wf(),
            r.current_child == 0,
            r.columns_cache@.len() == 0,
    {
        GridLayout { current_child: 0, columns_cache: Vec::new() }
    }
}

impl Default for GridLayout {
    fn default() -> (r: Self)
        ensures
            r.wf(),
            r.current_child == 0,
            r.columns_cache@.len() == 0,
    {
        GridLayout { current_child: 0, columns_cache: Vec::new() }
    }
}

// ---------------------------------------------------------------------
// executable geometry
// ---------------------------------------------------------------------

/// Resolve the container's own size against the parent's constraint.
pub fn resolve_size(store: &Store, entity: Entity, parent_constraint: &Constraint) -> (r: (i64, i64))
    requires
        store.wf(),
        spec_parent_ok(*parent_constraint),
    ensures
        r.0 == spec_resolved_size(node_of(store@, entity), *parent_constraint).0,
        r.1 == spec_resolved_size(node_of(store@, entity), *parent_constraint).1,
        -(SIZE_LIMIT + 2 * DIM_LIMIT) <= r.0 <= SIZE_LIMIT,
        -(SIZE_LIMIT + 2 * DIM_LIMIT) <= r.1 <= SIZE_LIMIT,
{
    proof {
        lemma_node_of_wf(store@, entity);
    }
    let constraint = match store.get_constraint(entity) {
        Some(c) => c,
        None => Constraint {
            width: 0,
            height: 0,
            min_width: 0,
            min_height: 0,
            max_width: 0,
            max_height: 0,
        },
    };
    let margin = store.get_margin(entity);
    let ha = store.get_horizontal_alignment(entity);
    let va = store.get_vertical_alignment(entity);
    let requested_w = ha.align_width(parent_constraint.width, constraint.width, margin);
    let requested_h = va.align_height(parent_constraint.height, constraint.height, margin);
    constraint.perform((requested_w, requested_h))
}

/// The width the children ask of automatic column `col`.
pub fn auto_width(store: &Store, children: &Vec<Entity>, col: usize) -> (r: i64)
    requires
        store.wf(),
    ensures
        r == spec_auto_width(store@, children@, col as int),
        0 <= r <= 3 * DIM_LIMIT,
{
    let mut w: i64 = 0;
    let mut i: usize = 0;
    while i < children.len()
        invariant
            store.wf(),
            i <= children@.len(),
            w == spec_auto_width(store@, children@.take(i as int), col as int),
            0 <= w <= 3 * DIM_LIMIT,
        decreases children@.len() - i,
    {
        let child = children[i];
        proof {
            lemma_node_of_wf(store@, child);
            lemma_take_step(children@, i as int);
        }
        let gc = store.get_grid_column(child);
        let c = store.get_constraint(child);
        match (gc, c) {
            (Some(g), Some(constraint)) => {
                if g == col {
                    let margin = store.get_margin(child);
                    let contribution = constraint.width + margin.left + margin.right;
                    if contribution > w {
                        w = contribution;
                    }
                }
            },
            _ => {},
        }
        i = i + 1;
    }
    proof {
        lemma_take_full(children@);
    }
    w
}

pub proof fn lemma_stretch_count_nonneg(cols: Seq<Column>)
    ensures
        spec_stretch_count(cols) >= 0,
    decreases cols.len(),
{
    if cols.len() > 0 {
        lemma_stretch_count_nonneg(cols.drop_last());
    }
}

pub proof fn lemma_stretch_count_pos(cols: Seq<Column>, k: int)
    requires
        0 <= k < cols.len(),
        cols[k].width is Stretch,
    ensures
        spec_stretch_count(cols) >= 1,
    decreases cols.len(),
{
    lemma_stretch_count_nonneg(cols.drop_last());
    if k < cols.len() - 1 {
        lemma_stretch_count_pos(cols.drop_last(), k);
    }
}

/// The column record sequence after the pass has resolved every width.
pub open spec fn spec_columns_after(cols: Seq<Column>, widths: Seq<int>) -> Seq<Column> {
    Seq::new(cols.len(), |k: int| Column { width: cols[k].width, current_width: widths[k] as i64 })
}

/// Compute the container's column geometry for this pass: automatic widths
/// from the children, fixed widths as declared, an equal share of the
/// leftover container width for every stretch column, and accumulated
/// offsets.  The resolved widths are recorded in the store and the
/// offset/width cache is returned.  When no column is a stretch column the
/// distribution step is skipped entirely.
pub fn resolve_columns(store: &mut Store, entity: Entity, children: &Vec<Entity>, sw: i64) -> (cache: Vec<(i64, i64)>)
    requires
        old(store).wf(),
        node_of(old(store)@, entity).columns.len() > 0,
        -(SIZE_LIMIT + 2 * DIM_LIMIT) <= sw <= SIZE_LIMIT,
    ensures
        final(store).wf(),
        final(store)@.len() == old(store)@.len(),
        forall|j: int| 0 <= j < old(store)@.len() && j != entity.0 ==> final(store)@[j] == old(store)@[j],
        ({
            let s0 = old(store)@;
            let n = node_of(s0, entity);
            let widths = spec_resolved_widths(s0, children@, n.columns, sw as int);
            &&& final(store)@[entity.0 as int] == (NodeView {
                columns: spec_columns_after(n.columns, widths),
                ..n
            })
            &&& cache_ints(cache@) == spec_cache(widths)
        }),
        cache@.len() == node_of(old(store)@, entity).columns.len(),
        forall|i: int| 0 <= i < cache@.len() ==> {
            &&& -OFFSET_BOUND <= (#[trigger] cache@[i]).0 <= OFFSET_BOUND
            &&& -COL_WIDTH_BOUND <= cache@[i].1 <= COL_WIDTH_BOUND
        },
{
    let ghost s0 = old(store)@;
    let ghost n = node_of(s0, entity);
    let ghost cols = n.columns;
    let ghost widths = spec_resolved_widths(s0, children@, cols, sw as int);
    proof {
        lemma_node_of_wf(s0, entity);
    }
    let ncols = store.columns_len(entity);

    // how many columns share the leftover width
    let mut stretch_count: usize = 0;
    let mut i: usize = 0;
    while i < ncols
        invariant
            store.wf(),
            store@ == s0,
            node_of(s0, entity).columns == cols,
            ncols == cols.len(),
            i <= ncols,
            stretch_count == spec_stretch_count(cols.take(i as int)),
            stretch_count <= i,
        decreases ncols - i,
    {
        let c = store.column_at(entity, i);
        proof {
            lemma_take_step(cols, i as int);
        }
        match c.width {
            ColumnWidth::Stretch => {
                stretch_count = stretch_count + 1;
            },
            _ => {},
        }
        i = i + 1;
    }
    proof {
        lemma_take_full(cols);
    }

    // fixed and automatic widths, before stretch distribution
    let mut base: Vec<i64> = Vec::new();
    let mut i: usize = 0;
    while i < ncols
        invariant
            store.wf(),
            store@ == s0,
            node_of(s0, entity).columns == cols,
            columns_ok(cols),
            ncols == cols.len(),
            i <= ncols,
            base@.len() == i,
            forall|j: int| 0 <= j < i ==> #[trigger] base@[j] == spec_base_width(s0, children@, cols, j),
            forall|j: int| 0 <= j < i ==> -DIM_LIMIT <= #[trigger] base@[j] <= 3 * DIM_LIMIT,
        decreases ncols - i,
    {
        let c = store.column_at(entity, i);
        let w: i64 = match c.width {
            ColumnWidth::Width(v) => v,
            ColumnWidth::Auto => auto_width(store, children, i),
            ColumnWidth::Stretch => 0,
        };
        base.push(w);
        i = i + 1;
    }

    // the space the non-stretch columns take up
    let mut used: i64 = 0;
    let mut i: usize = 0;
    while i < ncols
        invariant
            ncols == cols.len(),
            ncols <= MAX_COLUMNS,
            i <= ncols,
            base@.len() == ncols,
            forall|j: int| 0 <= j < ncols ==> #[trigger] base@[j] == spec_base_width(s0, children@, cols, j),
            forall|j: int| 0 <= j < ncols ==> -DIM_LIMIT <= #[trigger] base@[j] <= 3 * DIM_LIMIT,
            used == spec_used_width(s0, children@, cols, i as int),
            -(i as int) * DIM_LIMIT <= used <= (i as int) * 3 * DIM_LIMIT,
        decreases ncols - i,
    {
        used = used + base[i];
        i = i + 1;
    }

    // each stretch column's share of what is left
    let stretch_share: i64 = if stretch_count > 0 {
        div_trunc(sw - used, stretch_count as i64)
    } else {
        0
    };

    proof {
        assert forall|k: int| 0 <= k < ncols implies -COL_WIDTH_BOUND <= #[trigger] widths[k]
            <= COL_WIDTH_BOUND by {
            if cols[k].width is Stretch {
                lemma_stretch_count_pos(cols, k);
                assert(widths[k] == stretch_share as int);
            } else {
                assert(widths[k] == base@[k] as int);
            }
        }
    }

    // record the resolved widths and accumulate the offsets
    let mut cache: Vec<(i64, i64)> = Vec::new();
    let mut offset: i64 = 0;
    let mut i: usize = 0;
    while i < ncols
        invariant
            store.wf(),
            store@.len() == s0.len(),
            forall|j: int| 0 <= j < s0.len() && j != entity.0 ==> store@[j] == s0[j],
            entity.0 < s0.len(),
            node_of(s0, entity).columns == cols,
            columns_ok(cols),
            ncols == cols.len(),
            ncols <= MAX_COLUMNS,
            i <= ncols,
            widths == spec_resolved_widths(s0, children@, cols, sw as int),
            forall|k: int| 0 <= k < ncols ==> -COL_WIDTH_BOUND <= #[trigger] widths[k] <= COL_WIDTH_BOUND,
            base@.len() == ncols,
            forall|j: int| 0 <= j < ncols ==> #[trigger] base@[j] == spec_base_width(s0, children@, cols, j),
            stretch_count > 0 ==> stretch_share == spec_stretch_share(s0, children@, cols, sw as int),
            stretch_count == spec_stretch_count(cols),
            -COL_WIDTH_BOUND <= stretch_share <= COL_WIDTH_BOUND,
            ({
                let cur = store@[entity.0 as int];
                &&& cur == (NodeView { columns: cur.columns, ..node_of(s0, entity) })
                &&& cur.columns.len() == ncols
                &&& forall|k: int| 0 <= k < ncols ==> (#[trigger] cur.columns[k]).width == cols[k].width
                &&& forall|k: int| 0 <= k < i ==> (#[trigger] cur.columns[k]).current_width == widths[k] as i64
                &&& forall|k: int| i <= k < ncols ==> (#[trigger] cur.columns[k]).current_width == cols[k].current_width
            }),
            cache@.len() == i,
            forall|j: int| 0 <= j < i ==> #[trigger] cache_ints(cache@)[j] == spec_cache(widths)[j],
            forall|j: int| 0 <= j < i ==> {
                &&& -OFFSET_BOUND <= (#[trigger] cache@[j]).0 <= OFFSET_BOUND
                &&& -COL_WIDTH_BOUND <= cache@[j].1 <= COL_WIDTH_BOUND
            },
            offset == spec_offset(widths, i as int),
            -(i as int) * COL_WIDTH_BOUND <= offset <= (i as int) * COL_WIDTH_BOUND,
        decreases ncols - i,
    {
        let c = store.column_at(entity, i);
        let w: i64 = match c.width {
            ColumnWidth::Stretch => stretch_share,
            _ => base[i],
        };
        proof {
            if cols[i as int].width is Stretch {
                lemma_stretch_count_pos(cols, i as int);
            }
            assert(w == widths[i as int] as i64);
        }
        store.set_current_width(entity, i, w);
        let ghost prev = cache@;
        cache.push((offset, w));
        proof {
            assert forall|j: int| 0 <= j < i + 1 implies #[trigger] cache_ints(cache@)[j]
                == spec_cache(widths)[j] by {
                if j < i as int {
                    assert(cache@[j] == prev[j]);
                    assert(cache_ints(prev)[j] == spec_cache(widths)[j]);
                }
            }
        }
        offset = offset + w;
        i = i + 1;
    }
    proof {
        let s1 = store@;
        let target = NodeView { columns: spec_columns_after(cols, widths), ..node_of(s0, entity) };
        assert(s1[entity.0 as int].columns =~= spec_columns_after(cols, widths));
        assert(s1[entity.0 as int] =~= target);
        assert(cache_ints(cache@) =~= spec_cache(widths));
    }
    cache
}

// ---------------------------------------------------------------------
// placement of one measured child
// ---------------------------------------------------------------------

impl GridLayout {
    /// The cached x-offset of a child's column and the width available to
    /// the child: the summed width of its span (truncated to the columns
    /// that exist), or the plain width of its column for a child without a
    /// span of its own.
    pub fn get_column_x_and_width(&self, store: &Store, entity: Entity, grid_column: usize) -> (r: (i64, i64))
        requires
            self.wf(),
        ensures
            r.0 == spec_column_x_and_width(
                cache_ints(self.columns_cache@),
                node_of(store@, entity),
                grid_column as int,
            ).0,
            r.1 == spec_column_x_and_width(
                cache_ints(self.columns_cache@),
                node_of(store@, entity),
                grid_column as int,
            ).1,
            -OFFSET_BOUND <= r.0 <= OFFSET_BOUND,
            -OFFSET_BOUND <= r.1 <= OFFSET_BOUND,
    {
        let ghost cints = cache_ints(self.columns_cache@);
        let len = self.columns_cache.len();
        let x: i64 = if grid_column < len {
            self.columns_cache[grid_column].0
        } else {
            0
        };
        let width: i64 = match store.get_column_span(entity) {
            Some(span) => {
                let mut acc: i64 = 0;
                let mut j: usize = 0;
                while j < span && grid_column < len && grid_column + j < len
                    invariant
                        self.wf(),
                        len == self.columns_cache@.len(),
                        cints == cache_ints(self.columns_cache@),
                        j <= span,
                        grid_column < len ==> grid_column + j <= len,
                        grid_column >= len ==> j == 0,
                        acc + spec_span_sum(cints, grid_column as int + j as int, span as int - j as int)
                            == spec_span_sum(cints, grid_column as int, span as int),
                        -(j as int) * COL_WIDTH_BOUND <= acc <= (j as int) * COL_WIDTH_BOUND,
                    decreases span - j,
                {
                    acc = acc + self.columns_cache[grid_column + j].1;
                    j = j + 1;
                }
                acc
            },
            None => {
                if grid_column < len {
                    self.columns_cache[grid_column].1
                } else {
                    0
                }
            },
        };
        (x, width)
    }

    /// Place one measured child within the container: write its position
    /// (and, in grid mode, its width) into its bounds attribute.
    fn arrange_child(&self, store: &mut Store, entity: Entity, child: Entity, sw: i64, sh: i64, w: i64, h: i64)
        requires
            old(store).wf(),
            self.wf(),
            -(SIZE_LIMIT + 2 * DIM_LIMIT) <= sw <= SIZE_LIMIT,
            -(SIZE_LIMIT + 2 * DIM_LIMIT) <= sh <= SIZE_LIMIT,
            -SIZE_LIMIT <= w <= SIZE_LIMIT,
            -SIZE_LIMIT <= h <= SIZE_LIMIT,
        ensures
            final(store).wf(),
            final(store)@.len() == old(store)@.len(),
            forall|j: int| 0 <= j < old(store)@.len() && j != child.0 ==> final(store)@[j]
                == old(store)@[j],
            child.0 < old(store)@.len() ==> final(store)@[child.0 as int] == spec_place(
                node_of(old(store)@, entity).columns.len() > 0,
                cache_ints(self.columns_cache@),
                old(store)@[child.0 as int],
                sw as int,
                sh as int,
                w as int,
                h as int,
            ),
    {
        proof {
            lemma_node_of_wf(old(store)@, child);
        }
        let margin = store.get_margin(child);
        let ha = store.get_horizontal_alignment(child);
        let va = store.get_vertical_alignment(child);
        let x_align = ha.align_x(sw, w, margin);
        let y = va.align_y(sh, h, margin);
        if store.columns_len(entity) > 0 {
            let g = store.get_column_index(child);
            let (x0, availw) = self.get_column_x_and_width(store, child, g);
            let width = ha.align_width(availw, w, margin);
            store.write_bounds_pos_width(child, x0 + x_align, width, y);
        } else {
            store.write_bounds_pos(child, x_align, y);
        }
    }

    /// One step of the grid container's layout pass.
    ///
    /// On the first call of a pass (no measurement) the container's own
    /// size is resolved independently of the children; an empty container
    /// is done at once, otherwise the cursor and the column cache are
    /// reset, the column geometry is computed once, and the first child is
    /// requested.  On a call that carries a measurement, the measured
    /// child is placed, the cursor advances, and either the next child is
    /// requested or the container's own size is declared final.
    pub fn layout(
        &mut self,
        entity: Entity,
        store: &mut Store,
        parent_constraint: &Constraint,
        children: &Vec<Entity>,
        child_size: Option<(i64, i64)>,
    ) -> (r: LayoutResult)
        requires
            old(store).wf(),
            old(self).wf(),
            spec_parent_ok(*parent_constraint),
            child_size is Some ==> old(self).current_child < children@.len(),
            child_size matches Some(s) ==> -SIZE_LIMIT <= s.0 <= SIZE_LIMIT && -SIZE_LIMIT
                <= s.1 <= SIZE_LIMIT,
        ensures
            final(store).wf(),
            final(self).wf(),
            final(store)@.len() == old(store)@.len(),
            ({
                let s0 = old(store)@;
                let n = node_of(s0, entity);
                let size = spec_resolved_size(n, *parent_constraint);
                let rc = spec_request_constraint(n, *parent_constraint);
                match child_size {
                    None => {
                        if children@.len() == 0 {
                            &&& r == LayoutResult::Size(size.0 as i64, size.1 as i64)
                            &&& final(store)@ == s0
                            &&& final(self).current_child == old(self).current_child
                            &&& final(self).columns_cache@ == old(self).columns_cache@
                        } else {
                            &&& r == LayoutResult::RequestChild(children@[0], rc)
                            &&& final(self).current_child == 0
                            &&& if n.columns.len() > 0 {
                                let widths = spec_resolved_widths(s0, children@, n.columns, size.0);
                                &&& cache_ints(final(self).columns_cache@) == spec_cache(widths)
                                &&& forall|j: int| 0 <= j < s0.len() && j != entity.0
                                    ==> final(store)@[j] == s0[j]
                                &&& final(store)@[entity.0 as int] == (NodeView {
                                    columns: spec_columns_after(n.columns, widths),
                                    ..n
                                })
                            } else {
                                &&& final(self).columns_cache@.len() == 0
                                &&& final(store)@ == s0
                            }
                        }
                    },
                    Some((w, h)) => {
                        let child = children@[old(self).current_child as int];
                        let placed = spec_place(
                            n.columns.len() > 0,
                            cache_ints(old(self).columns_cache@),
                            node_of(s0, child),
                            size.0,
                            size.1,
                            w as int,
                            h as int,
                        );
                        &&& final(self).current_child == old(self).current_child + 1
                        &&& final(self).columns_cache@ == old(self).columns_cache@
                        &&& forall|j: int| 0 <= j < s0.len() && j != child.0 ==> final(store)@[j]
                            == s0[j]
                        &&& child.0 < s0.len() ==> final(store)@[child.0 as int] == placed
                        &&& r == if old(self).current_child + 1 < children@.len() {
                            LayoutResult::RequestChild(
                                children@[old(self).current_child + 1],
                                rc,
                            )
                        } else {
                            LayoutResult::Size(size.0 as i64, size.1 as i64)
                        }
                    },
                }
            }),
    {
        let size = resolve_size(store, entity, parent_constraint);
        let constraint = match store.get_constraint(entity) {
            Some(c) => c,
            None => Constraint {
                width: 0,
                height: 0,
                min_width: 0,
                min_height: 0,
                max_width: 0,
                max_height: 0,
            },
        };
        let request_constraint = Constraint { width: size.0, height: size.1, ..constraint };

        match child_size {
            Some((w, h)) => {
                let child = children[self.current_child];
                self.arrange_child(store, entity, child, size.0, size.1, w, h);
                let nchildren = children.len();
                assert(self.current_child < nchildren);
                self.current_child = self.current_child + 1;
                if self.current_child < nchildren {
                    LayoutResult::RequestChild(children[self.current_child], request_constraint)
                } else {
                    LayoutResult::Size(size.0, size.1)
                }
            },
            None => {
                if children.len() == 0 {
                    return LayoutResult::Size(size.0, size.1);
                }
                self.current_child = 0;
                if store.columns_len(entity) > 0 {
                    let cache = resolve_columns(store, entity, children, size.0);
                    self.columns_cache = cache;
                } else {
                    self.columns_cache = Vec::new();
                }
                LayoutResult::RequestChild(children[0], request_constraint)
            },
        }
    }
}

impl Layout for GridLayout {
    open spec fn layout_valid(
        &self,
        store: &Store,
        children: Seq<Entity>,
        child_size: Option<(i64, i64)>,
        parent_constraint: Constraint,
    ) -> bool {
        &&& store.wf()
        &&& self.wf()
        &&& spec_parent_ok(parent_constraint)
        &&& (child_size is Some ==> self.current_child < children.len())
        &&& (child_size matches Some(s) ==> -SIZE_LIMIT <= s.0 <= SIZE_LIMIT && -SIZE_LIMIT
            <= s.1 <= SIZE_LIMIT)
    }

    fn layout(
        &mut self,
        entity: Entity,
        store: &mut Store,
        parent_constraint: &Constraint,
        children: &Vec<Entity>,
        child_size: Option<(i64, i64)>,
    ) -> (r: LayoutResult) {
        GridLayout::layout(self, entity, store, parent_constraint, children, child_size)
    }
}

// ---------------------------------------------------------------------
// a whole pass over one container
// ---------------------------------------------------------------------

/// Replace node `i`, when the store knows it.
pub open spec fn spec_update_at(s: Seq<NodeView>, i: int, n: NodeView) -> Seq<NodeView> {
    if 0 <= i < s.len() {
        s.update(i, n)
    } else {
        s
    }
}

/// The store after the pass-start geometry step: a grid container's
/// column widths are resolved; any other container is untouched.
pub open spec fn spec_geometry_applied(s: Seq<NodeView>, entity: Entity, children: Seq<Entity>, sw: int) -> Seq<NodeView> {
    let n = node_of(s, entity);
    if n.columns.len() > 0 {
        let widths = spec_resolved_widths(s, children, n.columns, sw);
        spec_update_at(
            s,
            entity.0 as int,
            NodeView { columns: spec_columns_after(n.columns, widths), ..n },
        )
    } else {
        s
    }
}

/// The store after the first `k` children have been measured and placed,
/// in list order.
pub open spec fn spec_children_placed(
    s: Seq<NodeView>,
    grid_mode: bool,
    cache: Seq<(int, int)>,
    sw: int,
    sh: int,
    children: Seq<Entity>,
    sizes: Seq<(i64, i64)>,
    k: int,
) -> Seq<NodeView>
    decreases k,
{
    if k <= 0 {
        s
    } else {
        let prev = spec_children_placed(s, grid_mode, cache, sw, sh, children, sizes, k - 1);
        let c = children[k - 1];
        spec_update_at(
            prev,
            c.0 as int,
            spec_place(
                grid_mode,
                cache,
                node_of(prev, c),
                sw,
                sh,
                sizes[k - 1].0 as int,
                sizes[k - 1].1 as int,
            ),
        )
    }
}

/// The store after one whole layout pass over a container whose children
/// measure `sizes`: geometry once, then every child placed in order.  A
/// container without children is done before any geometry is computed.
pub open spec fn spec_pass(
    s: Seq<NodeView>,
    entity: Entity,
    children: Seq<Entity>,
    parent: Constraint,
    sizes: Seq<(i64, i64)>,
) -> Seq<NodeView> {
    let n = node_of(s, entity);
    let size = spec_resolved_size(n, parent);
    if children.len() == 0 {
        s
    } else {
        let s1 = spec_geometry_applied(s, entity, children, size.0);
        let cache = if n.columns.len() > 0 {
            spec_cache(spec_resolved_widths(s, children, n.columns, size.0))
        } else {
            Seq::<(int, int)>::empty()
        };
        spec_children_placed(
            s1,
            n.columns.len() > 0,
            cache,
            size.0,
            size.1,
            children,
            sizes,
            children.len() as int,
        )
    }
}

/// Drive one container through a complete pass of the layout protocol,
/// answering each measurement request with the child's size from
/// `child_sizes`, and hand back the container's own resolved size.
#[verifier::loop_isolation(false)]
pub fn run_pass(
    grid: &mut GridLayout,
    store: &mut Store,
    entity: Entity,
    children: &Vec<Entity>,
    parent_constraint: &Constraint,
    child_sizes: &Vec<(i64, i64)>,
) -> (size: (i64, i64))
    requires
        old(store).wf(),
        old(grid).wf(),
        spec_parent_ok(*parent_constraint),
        child_sizes@.len() == children@.len(),
        forall|i: int| 0 <= i < child_sizes@.len() ==> {
            &&& -SIZE_LIMIT <= (#[trigger] child_sizes@[i]).0 <= SIZE_LIMIT
            &&& -SIZE_LIMIT <= child_sizes@[i].1 <= SIZE_LIMIT
        },
    ensures
        final(store).wf(),
        final(grid).wf(),
        final(store)@ == spec_pass(old(store)@, entity, children@, *parent_constraint, child_sizes@),
        size.0 == spec_resolved_size(node_of(old(store)@, entity), *parent_constraint).0,
        size.1 == spec_resolved_size(node_of(old(store)@, entity), *parent_constraint).1,
{
    let ghost s0 = old(store)@;
    let ghost n0 = node_of(s0, entity);
    let ghost sw0 = spec_resolved_size(n0, *parent_constraint).0;
    let ghost sh0 = spec_resolved_size(n0, *parent_constraint).1;
    let ghost mode0 = n0.columns.len() > 0;
    let ghost cache0 = if mode0 {
        spec_cache(spec_resolved_widths(s0, children@, n0.columns, sw0))
    } else {
        Seq::<(int, int)>::empty()
    };
    let ghost s1 = spec_geometry_applied(s0, entity, children@, sw0);

    let first = grid.layout(entity, store, parent_constraint, children, None);
    if children.len() == 0 {
        proof {
            assert(store@ == spec_pass(s0, entity, children@, *parent_constraint, child_sizes@));
        }
        return match first {
            LayoutResult::Size(w, h) => (w, h),
            LayoutResult::RequestChild(_, _) => vstd::pervasive::unreached(),
        };
    }
    proof {
        assert(store@ =~= s1);
        if !mode0 {
            assert(cache_ints(grid.columns_cache@) =~= cache0);
        }
    }

    let mut i: usize = 0;
    while i < children.len()
        invariant
            store.wf(),
            grid.wf(),
            spec_parent_ok(*parent_constraint),
            child_sizes@.len() == children@.len(),
            forall|j: int| 0 <= j < child_sizes@.len() ==> {
                &&& -SIZE_LIMIT <= (#[trigger] child_sizes@[j]).0 <= SIZE_LIMIT
                &&& -SIZE_LIMIT <= child_sizes@[j].1 <= SIZE_LIMIT
            },
            i <= children@.len(),
            grid.current_child == i,
            cache_ints(grid.columns_cache@) == cache0,
            store@.len() == s0.len(),
            store@ == spec_children_placed(
                s1,
                mode0,
                cache0,
                sw0,
                sh0,
                children@,
                child_sizes@,
                i as int,
            ),
            node_of(store@, entity).constraint == n0.constraint,
            node_of(store@, entity).margin == n0.margin,
            node_of(store@, entity).horizontal_alignment == n0.horizontal_alignment,
            node_of(store@, entity).vertical_alignment == n0.vertical_alignment,
            node_of(store@, entity).columns.len() == n0.columns.len(),
        decreases children@.len() - i,
    {
        let ghost prev = store@;
        let ghost ncur = node_of(prev, entity);
        proof {
            assert(spec_resolved_size(ncur, *parent_constraint) == spec_resolved_size(n0, *parent_constraint));
        }
        let measured = child_sizes[i];
        let r = grid.layout(entity, store, parent_constraint, children, Some(measured));
        proof {
            let c = children@[i as int];
            let placed = spec_place(
                mode0,
                cache0,
                node_of(prev, c),
                sw0,
                sh0,
                measured.0 as int,
                measured.1 as int,
            );
            assert((node_of(prev, entity).columns.len() > 0) == mode0);
            assert(store@ =~= spec_update_at(prev, c.0 as int, placed));
        }
        i = i + 1;
    }
    let size = resolve_size(store, entity, parent_constraint);
    proof {
        assert(spec_resolved_size(node_of(store@, entity), *parent_constraint)
            == spec_resolved_size(n0, *parent_constraint));
    }
    size
}

// ---------------------------------------------------------------------
// laws of the column geometry
// ---------------------------------------------------------------------

/// An automatically sized column resolves to the largest width any of its
/// children asks for — each child's requested width plus its own
/// horizontal margins — and to zero when no child raises it.
pub proof fn lemma_auto_width_is_max(s: Seq<NodeView>, children: Seq<Entity>, col: int)
    ensures
        forall|j: int| 0 <= j < children.len() && spec_auto_eligible(
            node_of(s, children[j]),
            col,
        ) ==> spec_auto_width(s, children, col) >= spec_auto_contribution(node_of(s, children[j])),
        spec_auto_width(s, children, col) == 0 || exists|j: int| 0 <= j < children.len()
            && spec_auto_eligible(node_of(s, children[j]), col)
            && spec_auto_width(s, children, col) == spec_auto_contribution(node_of(s, children[j])),
    decreases children.len(),
{
    if children.len() > 0 {
        let pre = children.drop_last();
        lemma_auto_width_is_max(s, pre, col);
        let w = spec_auto_width(s, children, col);
        let wp = spec_auto_width(s, pre, col);
        assert forall|j: int| 0 <= j < children.len() && spec_auto_eligible(
            node_of(s, children[j]),
            col,
        ) implies w >= spec_auto_contribution(node_of(s, children[j])) by {
            if j < children.len() - 1 {
                assert(pre[j] == children[j]);
                assert(wp >= spec_auto_contribution(node_of(s, pre[j])));
            }
        }
        if w != 0 {
            let last = node_of(s, children.last());
            if spec_auto_eligible(last, col) && spec_auto_contribution(last) > wp {
                assert(0 <= children.len() - 1 < children.len()
                    && spec_auto_eligible(node_of(s, children[children.len() - 1]), col)
                    && w == spec_auto_contribution(node_of(s, children[children.len() - 1])));
            } else {
                assert(w == wp);
                let j = choose|j: int| 0 <= j < pre.len() && spec_auto_eligible(
                    node_of(s, pre[j]),
                    col,
                ) && wp == spec_auto_contribution(node_of(s, pre[j]));
                assert(pre[j] == children[j]);
                assert(0 <= j < children.len() && spec_auto_eligible(node_of(s, children[j]), col)
                    && w == spec_auto_contribution(node_of(s, children[j])));
            }
        }
    }
}

/// A column declared with a fixed width always resolves to exactly that
/// width, whatever any child would have measured.
pub proof fn lemma_fixed_width_wins(
    s: Seq<NodeView>,
    children: Seq<Entity>,
    cols: Seq<Column>,
    sw: int,
    i: int,
    w: i64,
)
    requires
        0 <= i < cols.len(),
        cols[i].width == ColumnWidth::Width(w),
    ensures
        spec_resolved_widths(s, children, cols, sw)[i] == w,
{
}

/// Every stretch column resolves to the same share of the leftover
/// container width, rounded toward zero.
pub proof fn lemma_stretch_share_uniform(
    s: Seq<NodeView>,
    children: Seq<Entity>,
    cols: Seq<Column>,
    sw: int,
    i: int,
)
    requires
        0 <= i < cols.len(),
        cols[i].width is Stretch,
    ensures
        spec_resolved_widths(s, children, cols, sw)[i] == div_to_zero(
            sw - spec_used_width(s, children, cols, cols.len() as int),
            spec_stretch_count(cols),
        ),
{
}

/// The first `n` resolved column widths sum to the space the non-stretch
/// columns among them take up, plus one leftover share per stretch column.
pub proof fn lemma_stretch_partition(
    s: Seq<NodeView>,
    children: Seq<Entity>,
    cols: Seq<Column>,
    sw: int,
    n: int,
)
    requires
        0 <= n <= cols.len(),
    ensures
        spec_offset(spec_resolved_widths(s, children, cols, sw), n) == spec_used_width(
            s,
            children,
            cols,
            n,
        ) + spec_stretch_count(cols.take(n)) * spec_stretch_share(s, children, cols, sw),
    decreases n,
{
    let widths = spec_resolved_widths(s, children, cols, sw);
    let share = spec_stretch_share(s, children, cols, sw);
    if n == 0 {
        assert(spec_stretch_count(cols.take(0)) == 0);
    } else {
        lemma_stretch_partition(s, children, cols, sw, n - 1);
        lemma_take_step(cols, n - 1);
        let cpre = spec_stretch_count(cols.take(n - 1));
        if cols[n - 1].width is Stretch {
            vstd::arithmetic::mul::lemma_mul_is_distributive_add_other_way(share, cpre, 1);
            assert((cpre + 1) * share == cpre * share + 1 * share);
            vstd::arithmetic::mul::lemma_mul_is_commutative(cpre + 1, share);
            vstd::arithmetic::mul::lemma_mul_is_commutative(cpre, share);
            vstd::arithmetic::mul::lemma_mul_basics(share);
        }
    }
}

/// For a container width `sw` whose leftover width divides evenly among
/// its stretch columns, the resolved column widths sum exactly to `sw`.
pub proof fn lemma_stretch_sums_to_container(
    s: Seq<NodeView>,
    children: Seq<Entity>,
    cols: Seq<Column>,
    sw: int,
)
    requires
        spec_stretch_count(cols) >= 1,
        (sw - spec_used_width(s, children, cols, cols.len() as int)) % spec_stretch_count(cols)
            == 0,
    ensures
        spec_offset(spec_resolved_widths(s, children, cols, sw), cols.len() as int) == sw,
{
    let used = spec_used_width(s, children, cols, cols.len() as int);
    let k = spec_stretch_count(cols);
    let a = sw - used;
    let share = spec_stretch_share(s, children, cols, sw);
    lemma_stretch_partition(s, children, cols, sw, cols.len() as int);
    lemma_take_full(cols);
    vstd::arithmetic::div_mod::lemma_fundamental_div_mod(a, k);
    assert(a == k * (a / k));
    if a >= 0 {
        assert(share == a / k);
    } else {
        assert(-a == k * (-(a / k))) by {
            vstd::arithmetic::mul::lemma_mul_unary_negation(k, a / k);
        }
        assert((-a) / k == -(a / k)) by {
            vstd::arithmetic::div_mod::lemma_div_multiples_vanish(-(a / k), k);
        }
        assert(share == a / k);
    }
    assert(k * share == a);
}

/// Adjacent cache entries tile the container without gaps: each column's
/// offset is the previous column's offset plus the previous column's
/// width.
pub proof fn lemma_offsets_accumulate(widths: Seq<int>, i: int)
    requires
        0 <= i,
        i + 1 < widths.len(),
    ensures
        spec_cache(widths)[i + 1].0 == spec_cache(widths)[i].0 + spec_cache(widths)[i].1,
{
}

// ---------------------------------------------------------------------
// idempotence of a pass
// ---------------------------------------------------------------------

/// The attributes of a node that a placement step never touches.
pub open spec fn same_layout_inputs(a: NodeView, b: NodeView) -> bool {
    &&& a.constraint == b.constraint
    &&& a.margin == b.margin
    &&& a.horizontal_alignment == b.horizontal_alignment
    &&& a.vertical_alignment == b.vertical_alignment
    &&& a.grid_column == b.grid_column
    &&& a.column_span == b.column_span
}

/// Placing an already placed child again writes back exactly the same
/// bounds: one placement step is idempotent.
pub proof fn lemma_place_idempotent(
    grid_mode: bool,
    cache: Seq<(int, int)>,
    c: NodeView,
    sw: int,
    sh: int,
    w: int,
    h: int,
)
    ensures
        spec_place(grid_mode, cache, spec_place(grid_mode, cache, c, sw, sh, w, h), sw, sh, w, h)
            == spec_place(grid_mode, cache, c, sw, sh, w, h),
{
    let p = spec_place(grid_mode, cache, c, sw, sh, w, h);
    let q = spec_place(grid_mode, cache, p, sw, sh, w, h);
    assert(q =~= p);
}

/// Placement changes at most a node's bounds: every other attribute of
/// every node survives the per-child placement fold.
pub proof fn lemma_placed_frame(
    s: Seq<NodeView>,
    grid_mode: bool,
    cache: Seq<(int, int)>,
    sw: int,
    sh: int,
    children: Seq<Entity>,
    sizes: Seq<(i64, i64)>,
    k: int,
)
    requires
        0 <= k,
    ensures
        ({
            let t = spec_children_placed(s, grid_mode, cache, sw, sh, children, sizes, k);
            &&& t.len() == s.len()
            &&& forall|j: int| 0 <= j < s.len() ==> same_layout_inputs(#[trigger] t[j], s[j])
                && t[j].columns == s[j].columns
        }),
    decreases k,
{
    if k > 0 {
        lemma_placed_frame(s, grid_mode, cache, sw, sh, children, sizes, k - 1);
    }
}

/// A node that none of the placement steps `k0 .. k` names keeps, at step
/// `k`, exactly the value it had at step `k0`.
pub proof fn lemma_placed_frame_after(
    s: Seq<NodeView>,
    grid_mode: bool,
    cache: Seq<(int, int)>,
    sw: int,
    sh: int,
    children: Seq<Entity>,
    sizes: Seq<(i64, i64)>,
    k0: int,
    k: int,
    j: int,
)
    requires
        0 <= k0 <= k,
        forall|m: int| k0 <= m < k ==> children[m].0 != j,
        0 <= j < s.len(),
    ensures
        spec_children_placed(s, grid_mode, cache, sw, sh, children, sizes, k)[j]
            == spec_children_placed(s, grid_mode, cache, sw, sh, children, sizes, k0)[j],
    decreases k - k0,
{
    if k > k0 {
        lemma_placed_frame_after(s, grid_mode, cache, sw, sh, children, sizes, k0, k - 1, j);
        lemma_placed_frame(s, grid_mode, cache, sw, sh, children, sizes, k - 1);
    }
}

/// Automatic column sizing reads only attributes that placement keeps, so
/// it is the same before and after a pass.
pub proof fn lemma_auto_width_congruent(
    s: Seq<NodeView>,
    t: Seq<NodeView>,
    children: Seq<Entity>,
    col: int,
)
    requires
        s.len() == t.len(),
        forall|j: int| 0 <= j < s.len() ==> same_layout_inputs(#[trigger] s[j], t[j]),
    ensures
        spec_auto_width(s, children, col) == spec_auto_width(t, children, col),
    decreases children.len(),
{
    if children.len() > 0 {
        lemma_auto_width_congruent(s, t, children.drop_last(), col);
        let c = children.last();
        if c.0 < s.len() {
            assert(same_layout_inputs(s[c.0 as int], t[c.0 as int]));
        }
    }
}

pub proof fn lemma_stretch_count_congruent(cols1: Seq<Column>, cols2: Seq<Column>)
    requires
        cols1.len() == cols2.len(),
        forall|i: int| 0 <= i < cols1.len() ==> (#[trigger] cols1[i]).width == cols2[i].width,
    ensures
        spec_stretch_count(cols1) == spec_stretch_count(cols2),
    decreases cols1.len(),
{
    if cols1.len() > 0 {
        lemma_stretch_count_congruent(cols1.drop_last(), cols2.drop_last());
    }
}

pub proof fn lemma_used_width_congruent(
    s: Seq<NodeView>,
    t: Seq<NodeView>,
    children: Seq<Entity>,
    cols1: Seq<Column>,
    cols2: Seq<Column>,
    n: int,
)
    requires
        s.len() == t.len(),
        forall|j: int| 0 <= j < s.len() ==> same_layout_inputs(#[trigger] s[j], t[j]),
        cols1.len() == cols2.len(),
        forall|i: int| 0 <= i < cols1.len() ==> (#[trigger] cols1[i]).width == cols2[i].width,
        n <= cols1.len(),
    ensures
        spec_used_width(s, children, cols1, n) == spec_used_width(t, children, cols2, n),
    decreases n,
{
    if n > 0 {
        lemma_used_width_congruent(s, t, children, cols1, cols2, n - 1);
        if cols1[n - 1].width is Auto {
            lemma_auto_width_congruent(s, t, children, n - 1);
        }
    }
}

/// Column geometry reads only width policies and attributes that
/// placement keeps: resolving it again after a pass gives the same widths.
pub proof fn lemma_resolved_widths_congruent(
    s: Seq<NodeView>,
    t: Seq<NodeView>,
    children: Seq<Entity>,
    cols1: Seq<Column>,
    cols2: Seq<Column>,
    sw: int,
)
    requires
        s.len() == t.len(),
        forall|j: int| 0 <= j < s.len() ==> same_layout_inputs(#[trigger] s[j], t[j]),
        cols1.len() == cols2.len(),
        forall|i: int| 0 <= i < cols1.len() ==> (#[trigger] cols1[i]).width == cols2[i].width,
    ensures
        spec_resolved_widths(s, children, cols1, sw) == spec_resolved_widths(t, children, cols2, sw),
{
    lemma_stretch_count_congruent(cols1, cols2);
    lemma_used_width_congruent(s, t, children, cols1, cols2, cols1.len() as int);
    assert forall|i: int| 0 <= i < cols1.len() implies spec_col_width(s, children, cols1, sw, i)
        == spec_col_width(t, children, cols2, sw, i) by {
        if cols1[i].width is Auto {
            lemma_auto_width_congruent(s, t, children, i);
        }
    }
    assert(spec_resolved_widths(s, children, cols1, sw) =~= spec_resolved_widths(
        t,
        children,
        cols2,
        sw,
    ));
}

/// Re-running the placement fold on an already placed store changes
/// nothing, provided no node appears twice in the child list.
pub proof fn lemma_replay_fold(
    s1: Seq<NodeView>,
    grid_mode: bool,
    cache: Seq<(int, int)>,
    sw: int,
    sh: int,
    children: Seq<Entity>,
    sizes: Seq<(i64, i64)>,
    k: int,
)
    requires
        forall|m1: int, m2: int| 0 <= m1 < m2 < children.len() ==> children[m1] != children[m2],
        0 <= k <= children.len(),
    ensures
        ({
            let sp = spec_children_placed(
                s1,
                grid_mode,
                cache,
                sw,
                sh,
                children,
                sizes,
                children.len() as int,
            );
            spec_children_placed(sp, grid_mode, cache, sw, sh, children, sizes, k) == sp
        }),
    decreases k,
{
    let len = children.len() as int;
    let sp = spec_children_placed(s1, grid_mode, cache, sw, sh, children, sizes, len);
    lemma_placed_frame(s1, grid_mode, cache, sw, sh, children, sizes, len);
    if k > 0 {
        lemma_replay_fold(s1, grid_mode, cache, sw, sh, children, sizes, k - 1);
        let c = children[k - 1];
        if c.0 < s1.len() {
            // what the first pass left at this child's slot
            assert forall|m: int| k <= m < len implies children[m].0 != c.0 as int by {
                assert(children[k - 1] != children[m]);
            }
            lemma_placed_frame_after(
                s1,
                grid_mode,
                cache,
                sw,
                sh,
                children,
                sizes,
                k,
                len,
                c.0 as int,
            );
            assert forall|m: int| 0 <= m < k - 1 implies children[m].0 != c.0 as int by {
                assert(children[m] != children[k - 1]);
            }
            lemma_placed_frame_after(
                s1,
                grid_mode,
                cache,
                sw,
                sh,
                children,
                sizes,
                0,
                k - 1,
                c.0 as int,
            );
            let before = spec_children_placed(s1, grid_mode, cache, sw, sh, children, sizes, k - 1);
            lemma_placed_frame(s1, grid_mode, cache, sw, sh, children, sizes, k - 1);
            assert(before[c.0 as int] == s1[c.0 as int]);
            let step = spec_children_placed(s1, grid_mode, cache, sw, sh, children, sizes, k);
            assert(step == spec_update_at(
                before,
                c.0 as int,
                spec_place(
                    grid_mode,
                    cache,
                    node_of(before, c),
                    sw,
                    sh,
                    sizes[k - 1].0 as int,
                    sizes[k - 1].1 as int,
                ),
            ));
            assert(node_of(before, c) == s1[c.0 as int]);
            assert(step[c.0 as int] == spec_place(
                grid_mode,
                cache,
                s1[c.0 as int],
                sw,
                sh,
                sizes[k - 1].0 as int,
                sizes[k - 1].1 as int,
            ));
            assert(sp[c.0 as int] == step[c.0 as int]);
            lemma_place_idempotent(
                grid_mode,
                cache,
                s1[c.0 as int],
                sw,
                sh,
                sizes[k - 1].0 as int,
                sizes[k - 1].1 as int,
            );
            assert(spec_place(
                grid_mode,
                cache,
                node_of(sp, c),
                sw,
                sh,
                sizes[k - 1].0 as int,
                sizes[k - 1].1 as int,
            ) == sp[c.0 as int]);
            assert(spec_children_placed(sp, grid_mode, cache, sw, sh, children, sizes, k) =~= sp);
        } else {
            assert(spec_children_placed(sp, grid_mode, cache, sw, sh, children, sizes, k) =~= sp);
        }
    }
}

/// Two consecutive passes over unchanged inputs produce identical
/// attribute stores — in particular, identical bounds for every node.
/// The child list must not name a node twice.
pub proof fn lemma_pass_idempotent(
    s: Seq<NodeView>,
    entity: Entity,
    children: Seq<Entity>,
    parent: Constraint,
    sizes: Seq<(i64, i64)>,
)
    requires
        forall|m1: int, m2: int| 0 <= m1 < m2 < children.len() ==> children[m1] != children[m2],
    ensures
        spec_pass(spec_pass(s, entity, children, parent, sizes), entity, children, parent, sizes)
            == spec_pass(s, entity, children, parent, sizes),
{
    if children.len() == 0 {
        return;
    }
    let len = children.len() as int;
    let n = node_of(s, entity);
    let size = spec_resolved_size(n, parent);
    let mode = n.columns.len() > 0;
    let widths = spec_resolved_widths(s, children, n.columns, size.0);
    let s1 = spec_geometry_applied(s, entity, children, size.0);
    let cache = if mode {
        spec_cache(widths)
    } else {
        Seq::<(int, int)>::empty()
    };
    let sp = spec_children_placed(s1, mode, cache, size.0, size.1, children, sizes, len);
    assert(sp == spec_pass(s, entity, children, parent, sizes));

    // the geometry step keeps every attribute placement reads
    assert(s1.len() == s.len());
    assert forall|j: int| 0 <= j < s.len() implies same_layout_inputs(#[trigger] s1[j], s[j]) by {}
    lemma_placed_frame(s1, mode, cache, size.0, size.1, children, sizes, len);
    assert forall|j: int| 0 <= j < s.len() implies same_layout_inputs(#[trigger] sp[j], s[j]) by {
        assert(same_layout_inputs(sp[j], s1[j]));
    }

    // the second pass resolves the same size, mode and geometry
    let n2 = node_of(sp, entity);
    assert(same_layout_inputs(n2, n));
    if entity.0 < s.len() {
        assert(sp[entity.0 as int].columns == s1[entity.0 as int].columns);
        if mode {
            assert(s1[entity.0 as int].columns == spec_columns_after(n.columns, widths));
        }
    }
    assert(n2.columns.len() == n.columns.len());
    assert(forall|i: int| 0 <= i < n.columns.len() ==> (#[trigger] n2.columns[i]).width
        == n.columns[i].width);
    let size2 = spec_resolved_size(n2, parent);
    assert(size2 == size);
    lemma_resolved_widths_congruent(sp, s, children, n2.columns, n.columns, size.0);
    let widths2 = spec_resolved_widths(sp, children, n2.columns, size2.0);
    assert(widths2 == widths);

    // re-applying the geometry writes back the very same columns
    let s1b = spec_geometry_applied(sp, entity, children, size2.0);
    if mode {
        assert(spec_columns_after(n2.columns, widths2) =~= n2.columns);
        assert(s1b =~= sp);
    }
    assert(s1b == sp);

    // and replaying the placements changes nothing
    lemma_replay_fold(s1, mode, cache, size.0, size.1, children, sizes, len);
    assert(spec_pass(sp, entity, children, parent, sizes) == sp);
}

} // verus!
