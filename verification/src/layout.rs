//! The layout protocol: one operation, invoked repeatedly per node across a
//! traversal pass.  Each step either names the next child to measure or
//! declares the node's final size.

use vstd::prelude::*;
use crate::properties::Constraint;
use crate::store::{Entity, Store};

verus! {

/// The outcome of one layout step.
///
/// `RequestChild` names the next child to measure and the constraint to
/// hand it; the driver must recurse into that child and call back into the
/// same node's layout operation with the child's measured size before any
/// other node's layout is advanced.  `Size` declares the node's own final
/// resolved size for this pass.
#[derive(Clone, Copy, PartialEq, Eq, Structural, Debug)]
pub enum LayoutResult {
    RequestChild(Entity, Constraint),
    Size(i64, i64),
}

/// The contract every concrete layout algorithm implements: a single
/// operation invoked once per step of a traversal pass.  The first call of
/// a pass carries no child measurement; afterwards the driver feeds back
/// the measured size of exactly the child the previous step requested.
pub trait Layout {
    /// The calls this implementation accepts in its current state.
    spec fn layout_valid(
        &self,
        store: &Store,
        children: Seq<Entity>,
        child_size: Option<(i64, i64)>,
        parent_constraint: Constraint,
    ) -> bool;

    fn layout(
        &mut self,
        entity: Entity,
        store: &mut Store,
        parent_constraint: &Constraint,
        children: &Vec<Entity>,
        child_size: Option<(i64, i64)>,
    ) -> (r: LayoutResult)
        requires
            old(self).layout_valid(old(store), children@, child_size, *parent_constraint),
        ensures
            final(store).wf(),
    ;
}

} // verus!
