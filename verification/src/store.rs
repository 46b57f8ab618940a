//! The typed attribute store: per-node attributes keyed by an opaque node
//! identity, with fallible lookup.  A missing attribute is not an error;
//! readers substitute the documented neutral default.

use vstd::prelude::*;
use crate::geometry::{Margin, Alignment, COL_WIDTH_BOUND};
use crate::properties::{Constraint, Bounds, Column, Columns, GridColumn, ColumnSpan, columns_ok};

verus! {

/// An opaque identifier for one node of the widget tree.
#[derive(Clone, Copy, PartialEq, Eq, Structural, Debug)]
pub struct Entity(pub usize);

/// The mathematical value of one node's attributes.  Attributes that the
/// engine only ever reads through a default (margin, alignments) appear
/// with the default already substituted for absence; attributes whose
/// absence changes behaviour stay optional.  An empty column sequence
/// means the node is not a grid container.
#[verifier::ext_equal]
pub struct NodeView {
    pub constraint: Option<Constraint>,
    pub margin: Margin,
    pub horizontal_alignment: Alignment,
    pub vertical_alignment: Alignment,
    pub bounds: Option<Bounds>,
    pub columns: Seq<Column>,
    pub grid_column: Option<usize>,
    pub column_span: Option<usize>,
}

/// The attributes of a node that owns none at all.
pub open spec fn spec_default_node() -> NodeView {
    NodeView {
        constraint: None,
        margin: Margin { left: 0, top: 0, right: 0, bottom: 0 },
        horizontal_alignment: Alignment::Start,
        vertical_alignment: Alignment::Start,
        bounds: None,
        columns: Seq::empty(),
        grid_column: None,
        column_span: None,
    }
}

/// The attributes of `e` in store contents `s`; a node the store does not
/// know owns no attributes.
pub open spec fn node_of(s: Seq<NodeView>, e: Entity) -> NodeView {
    if e.0 < s.len() {
        s[e.0 as int]
    } else {
        spec_default_node()
    }
}

/// Every stored attribute is within the machine limits.
pub open spec fn node_wf(n: NodeView) -> bool {
    &&& match n.constraint {
        Some(c) => c.wf(),
        None => true,
    }
    &&& n.margin.wf()
    &&& columns_ok(n.columns)
}

pub open spec fn store_wf(s: Seq<NodeView>) -> bool {
    forall|j: int| 0 <= j < s.len() ==> node_wf(#[trigger] s[j])
}

pub proof fn lemma_node_of_wf(s: Seq<NodeView>, e: Entity)
    requires
        store_wf(s),
    ensures
        node_wf(node_of(s, e)),
{
}

struct NodeAttrs {
    constraint: Option<Constraint>,
    margin: Margin,
    horizontal_alignment: Alignment,
    vertical_alignment: Alignment,
    bounds: Option<Bounds>,
    columns: Columns,
    grid_column: Option<GridColumn>,
    column_span: Option<ColumnSpan>,
}

impl NodeAttrs {
    closed spec fn view_spec(&self) -> NodeView {
        NodeView {
            constraint: self.constraint,
            margin: self.margin,
            horizontal_alignment: self.horizontal_alignment,
            vertical_alignment: self.vertical_alignment,
            bounds: self.bounds,
            columns: self.columns@,
            grid_column: match self.grid_column {
                Some(g) => Some(g.0),
                None => None,
            },
            column_span: match self.column_span {
                Some(s) => Some(s.0),
                None => None,
            },
        }
    }
}

/// Keyed storage of typed attributes per node identity.
pub struct Store {
    nodes: Vec<NodeAttrs>,
}

impl View for Store {
    type V = Seq<NodeView>;

    closed spec fn view(&self) -> Seq<NodeView> {
        Seq::new(self.nodes@.len(), |j: int| self.nodes@[j].view_spec())
    }
}

/// Update `n`'s resolved position, if `n` owns a bounds rectangle; its
/// size is untouched.
pub open spec fn spec_write_pos(n: NodeView, x: int, y: int) -> NodeView {
    match n.bounds {
        None => n,
        Some(b) => NodeView {
            bounds: Some(Bounds { x: x as i64, y: y as i64, width: b.width, height: b.height }),
            ..n
        },
    }
}

/// Update `n`'s resolved position and width, if `n` owns a bounds
/// rectangle; its height is untouched (rows are not supported, so the
/// vertical axis never overrides the measured height).
pub open spec fn spec_write_pos_width(n: NodeView, x: int, width: int, y: int) -> NodeView {
    match n.bounds {
        None => n,
        Some(b) => NodeView {
            bounds: Some(Bounds { x: x as i64, y: y as i64, width: width as i64, height: b.height }),
            ..n
        },
    }
}

impl Store {
    pub open spec fn wf(&self) -> bool {
        store_wf(self@)
    }

    pub fn new() -> (r: Store)
        ensures
            r@.len() == 0,
            r.wf(),
    {
        Store { nodes: Vec::new() }
    }

    /// Add a fresh node with no attributes and hand back its identity.
    pub fn register(&mut self) -> (e: Entity)
        requires
            old(self).wf(),
        ensures
            final(self).wf(),
            e.0 == old(self)@.len(),
            final(self)@.len() == old(self)@.len() + 1,
            forall|j: int| 0 <= j < old(self)@.len() ==> final(self)@[j] == old(self)@[j],
            final(self)@[e.0 as int] == spec_default_node(),
    {
        let e = Entity(self.nodes.len());
        self.nodes.push(NodeAttrs {
            constraint: None,
            margin: Margin { left: 0, top: 0, right: 0, bottom: 0 },
            horizontal_alignment: Alignment::Start,
            vertical_alignment: Alignment::Start,
            bounds: None,
            columns: Columns::new(),
            grid_column: None,
            column_span: None,
        });
        proof {
            assert forall|j: int| 0 <= j < self@.len() implies node_wf(#[trigger] self@[j]) by {
                if j < old(self)@.len() {
                    assert(node_wf(old(self)@[j]));
                }
            }
        }
        e
    }

    pub fn len(&self) -> (r: usize)
        ensures
            r == self@.len(),
    {
        self.nodes.len()
    }

    // ---- fallible reads, with the neutral default substituted where the
    // ---- engine documents one ----

    pub fn get_constraint(&self, e: Entity) -> (r: Option<Constraint>)
        ensures
            r == node_of(self@, e).constraint,
    {
        if e.0 < self.nodes.len() {
            self.nodes[e.0].constraint
        } else {
            None
        }
    }

    pub fn get_margin(&self, e: Entity) -> (r: Margin)
        ensures
            r == node_of(self@, e).margin,
    {
        if e.0 < self.nodes.len() {
            self.nodes[e.0].margin
        } else {
            Margin { left: 0, top: 0, right: 0, bottom: 0 }
        }
    }

    pub fn get_horizontal_alignment(&self, e: Entity) -> (r: Alignment)
        ensures
            r == node_of(self@, e).horizontal_alignment,
    {
        if e.0 < self.nodes.len() {
            self.nodes[e.0].horizontal_alignment
        } else {
            Alignment::Start
        }
    }

    pub fn get_vertical_alignment(&self, e: Entity) -> (r: Alignment)
        ensures
            r == node_of(self@, e).vertical_alignment,
    {
        if e.0 < self.nodes.len() {
            self.nodes[e.0].vertical_alignment
        } else {
            Alignment::Start
        }
    }

    pub fn get_bounds(&self, e: Entity) -> (r: Option<Bounds>)
        ensures
            r == node_of(self@, e).bounds,
    {
        if e.0 < self.nodes.len() {
            self.nodes[e.0].bounds
        } else {
            None
        }
    }

    pub fn columns_len(&self, e: Entity) -> (r: usize)
        ensures
            r == node_of(self@, e).columns.len(),
    {
        if e.0 < self.nodes.len() {
            self.nodes[e.0].columns.len()
        } else {
            0
        }
    }

    pub fn column_at(&self, e: Entity, i: usize) -> (r: Column)
        requires
            i < node_of(self@, e).columns.len(),
        ensures
            r == node_of(self@, e).columns[i as int],
    {
        self.nodes[e.0].columns.get(i)
    }

    pub fn get_grid_column(&self, e: Entity) -> (r: Option<usize>)
        ensures
            r == node_of(self@, e).grid_column,
    {
        if e.0 < self.nodes.len() {
            match self.nodes[e.0].grid_column {
                Some(g) => Some(g.0),
                None => None,
            }
        } else {
            None
        }
    }

    /// The column index a child is assigned to; a child without one sits in
    /// column zero.
    pub fn get_column_index(&self, e: Entity) -> (r: usize)
        ensures
            r == match node_of(self@, e).grid_column {
                Some(g) => g,
                None => 0,
            },
    {
        if e.0 < self.nodes.len() {
            match self.nodes[e.0].grid_column {
                Some(g) => g.0,
                None => 0,
            }
        } else {
            0
        }
    }

    pub fn get_column_span(&self, e: Entity) -> (r: Option<usize>)
        ensures
            r == node_of(self@, e).column_span,
    {
        if e.0 < self.nodes.len() {
            match self.nodes[e.0].column_span {
                Some(s) => Some(s.0),
                None => None,
            }
        } else {
            None
        }
    }

    // ---- attribute writes used when the tree is authored ----

    pub fn set_constraint(&mut self, e: Entity, c: Constraint)
        requires
            old(self).wf(),
            e.0 < old(self)@.len(),
            c.wf(),
        ensures
            final(self).wf(),
            final(self)@.len() == old(self)@.len(),
            forall|j: int| 0 <= j < old(self)@.len() && j != e.0 ==> final(self)@[j] == old(self)@[j],
            final(self)@[e.0 as int] == (NodeView { constraint: Some(c), ..old(self)@[e.0 as int] }),
    {
        let n = &mut self.nodes[e.0];
        n.constraint = Some(c);
        proof {
            assert forall|j: int| 0 <= j < self@.len() implies node_wf(#[trigger] self@[j]) by {
                assert(node_wf(old(self)@[j]));
            }
        }
    }

    pub fn set_margin(&mut self, e: Entity, m: Margin)
        requires
            old(self).wf(),
            e.0 < old(self)@.len(),
            m.wf(),
        ensures
            final(self).wf(),
            final(self)@.len() == old(self)@.len(),
            forall|j: int| 0 <= j < old(self)@.len() && j != e.0 ==> final(self)@[j] == old(self)@[j],
            final(self)@[e.0 as int] == (NodeView { margin: m, ..old(self)@[e.0 as int] }),
    {
        let n = &mut self.nodes[e.0];
        n.margin = m;
        proof {
            assert forall|j: int| 0 <= j < self@.len() implies node_wf(#[trigger] self@[j]) by {
                assert(node_wf(old(self)@[j]));
            }
        }
    }

    pub fn set_horizontal_alignment(&mut self, e: Entity, a: Alignment)
        requires
            old(self).wf(),
            e.0 < old(self)@.len(),
        ensures
            final(self).wf(),
            final(self)@.len() == old(self)@.len(),
            forall|j: int| 0 <= j < old(self)@.len() && j != e.0 ==> final(self)@[j] == old(self)@[j],
            final(self)@[e.0 as int] == (NodeView {
                horizontal_alignment: a,
                ..old(self)@[e.0 as int]
            }),
    {
        let n = &mut self.nodes[e.0];
        n.horizontal_alignment = a;
        proof {
            assert forall|j: int| 0 <= j < self@.len() implies node_wf(#[trigger] self@[j]) by {
                assert(node_wf(old(self)@[j]));
            }
        }
    }

    pub fn set_vertical_alignment(&mut self, e: Entity, a: Alignment)
        requires
            old(self).wf(),
            e.0 < old(self)@.len(),
        ensures
            final(self).wf(),
            final(self)@.len() == old(self)@.len(),
            forall|j: int| 0 <= j < old(self)@.len() && j != e.0 ==> final(self)@[j] == old(self)@[j],
            final(self)@[e.0 as int] == (NodeView {
                vertical_alignment: a,
                ..old(self)@[e.0 as int]
            }),
    {
        let n = &mut self.nodes[e.0];
        n.vertical_alignment = a;
        proof {
            assert forall|j: int| 0 <= j < self@.len() implies node_wf(#[trigger] self@[j]) by {
                assert(node_wf(old(self)@[j]));
            }
        }
    }

    pub fn set_bounds(&mut self, e: Entity, b: Bounds)
        requires
            old(self).wf(),
            e.0 < old(self)@.len(),
        ensures
            final(self).wf(),
            final(self)@.len() == old(self)@.len(),
            forall|j: int| 0 <= j < old(self)@.len() && j != e.0 ==> final(self)@[j] == old(self)@[j],
            final(self)@[e.0 as int] == (NodeView { bounds: Some(b), ..old(self)@[e.0 as int] }),
    {
        let n = &mut self.nodes[e.0];
        n.bounds = Some(b);
        proof {
            assert forall|j: int| 0 <= j < self@.len() implies node_wf(#[trigger] self@[j]) by {
                assert(node_wf(old(self)@[j]));
            }
        }
    }

    pub fn set_columns(&mut self, e: Entity, cols: Columns)
        requires
            old(self).wf(),
            e.0 < old(self)@.len(),
            columns_ok(cols@),
        ensures
            final(self).wf(),
            final(self)@.len() == old(self)@.len(),
            forall|j: int| 0 <= j < old(self)@.len() && j != e.0 ==> final(self)@[j] == old(self)@[j],
            final(self)@[e.0 as int] == (NodeView { columns: cols@, ..old(self)@[e.0 as int] }),
    {
        let n = &mut self.nodes[e.0];
        n.columns = cols;
        proof {
            assert forall|j: int| 0 <= j < self@.len() implies node_wf(#[trigger] self@[j]) by {
                assert(node_wf(old(self)@[j]));
            }
        }
    }

    pub fn set_grid_column(&mut self, e: Entity, g: GridColumn)
        requires
            old(self).wf(),
            e.0 < old(self)@.len(),
        ensures
            final(self).wf(),
            final(self)@.len() == old(self)@.len(),
            forall|j: int| 0 <= j < old(self)@.len() && j != e.0 ==> final(self)@[j] == old(self)@[j],
            final(self)@[e.0 as int] == (NodeView { grid_column: Some(g.0), ..old(self)@[e.0 as int] }),
    {
        let n = &mut self.nodes[e.0];
        n.grid_column = Some(g);
        proof {
            assert forall|j: int| 0 <= j < self@.len() implies node_wf(#[trigger] self@[j]) by {
                assert(node_wf(old(self)@[j]));
            }
        }
    }

    pub fn set_column_span(&mut self, e: Entity, s: ColumnSpan)
        requires
            old(self).wf(),
            e.0 < old(self)@.len(),
        ensures
            final(self).wf(),
            final(self)@.len() == old(self)@.len(),
            forall|j: int| 0 <= j < old(self)@.len() && j != e.0 ==> final(self)@[j] == old(self)@[j],
            final(self)@[e.0 as int] == (NodeView { column_span: Some(s.0), ..old(self)@[e.0 as int] }),
    {
        let n = &mut self.nodes[e.0];
        n.column_span = Some(s);
        proof {
            assert forall|j: int| 0 <= j < self@.len() implies node_wf(#[trigger] self@[j]) by {
                assert(node_wf(old(self)@[j]));
            }
        }
    }

    // ---- writes owned by the layout pass ----

    /// Record the width the current pass has computed for one column.
    pub fn set_current_width(&mut self, e: Entity, i: usize, w: i64)
        requires
            old(self).wf(),
            e.0 < old(self)@.len(),
            i < old(self)@[e.0 as int].columns.len(),
            -COL_WIDTH_BOUND <= w <= COL_WIDTH_BOUND,
        ensures
            final(self).wf(),
            final(self)@.len() == old(self)@.len(),
            forall|j: int| 0 <= j < old(self)@.len() && j != e.0 ==> final(self)@[j] == old(self)@[j],
            final(self)@[e.0 as int] == (NodeView {
                columns: old(self)@[e.0 as int].columns.update(
                    i as int,
                    (Column {
                        width: old(self)@[e.0 as int].columns[i as int].width,
                        current_width: w,
                    }),
                ),
                ..old(self)@[e.0 as int]
            }),
    {
        let n = &mut self.nodes[e.0];
        n.columns.set_current_width(i, w);
        proof {
            assert forall|j: int| 0 <= j < self@.len() implies node_wf(#[trigger] self@[j]) by {
                assert(node_wf(old(self)@[j]));
            }
        }
    }

    /// Write a child's resolved position; a node without a bounds
    /// attribute is left untouched.
    pub fn write_bounds_pos(&mut self, e: Entity, x: i64, y: i64)
        requires
            old(self).wf(),
        ensures
            final(self).wf(),
            final(self)@.len() == old(self)@.len(),
            forall|j: int| 0 <= j < old(self)@.len() && j != e.0 ==> final(self)@[j] == old(self)@[j],
            e.0 < old(self)@.len() ==> final(self)@[e.0 as int] == spec_write_pos(
                old(self)@[e.0 as int],
                x as int,
                y as int,
            ),
    {
        if e.0 < self.nodes.len() {
            let n = &mut self.nodes[e.0];
            match n.bounds {
                Some(b) => {
                    n.bounds = Some(Bounds { x, y, width: b.width, height: b.height });
                },
                None => {},
            }
        }
        proof {
            assert forall|j: int| 0 <= j < self@.len() implies node_wf(#[trigger] self@[j]) by {
                assert(node_wf(old(self)@[j]));
            }
        }
    }

    /// Write a child's resolved position and width; a node without a
    /// bounds attribute is left untouched.
    pub fn write_bounds_pos_width(&mut self, e: Entity, x: i64, width: i64, y: i64)
        requires
            old(self).wf(),
        ensures
            final(self).wf(),
            final(self)@.len() == old(self)@.len(),
            forall|j: int| 0 <= j < old(self)@.len() && j != e.0 ==> final(self)@[j] == old(self)@[j],
            e.0 < old(self)@.len() ==> final(self)@[e.0 as int] == spec_write_pos_width(
                old(self)@[e.0 as int],
                x as int,
                width as int,
                y as int,
            ),
    {
        if e.0 < self.nodes.len() {
            let n = &mut self.nodes[e.0];
            match n.bounds {
                Some(b) => {
                    n.bounds = Some(Bounds { x, y, width, height: b.height });
                },
                None => {},
            }
        }
        proof {
            assert forall|j: int| 0 <= j < self@.len() implies node_wf(#[trigger] self@[j]) by {
                assert(node_wf(old(self)@[j]));
            }
        }
    }
}

} // verus!
