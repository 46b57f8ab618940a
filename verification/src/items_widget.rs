//! The items widget: a simple non-interactive item drawer.  Its dynamic
//! child subtree comes from an external one-shot builder callback that the
//! surrounding application owns and runs; the widget itself only records
//! whether a builder was registered and decides, once per update cycle,
//! whether a freshly built item is to be appended and to which host node.

use vstd::prelude::*;
use crate::store::Entity;

verus! {

/// The widget's state: whether a child builder has been registered.
#[derive(Clone, Copy, PartialEq, Eq, Structural, Debug)]
pub struct ItemsWidgetState {
    pub has_builder: bool,
}

impl ItemsWidgetState {
    pub fn new() -> (r: ItemsWidgetState)
        ensures
            !r.has_builder,
    {
        ItemsWidgetState { has_builder: false }
    }

    /// One update cycle: when a builder is registered and the items panel
    /// was found among the widget's children, the built child is to be
    /// appended to that panel; otherwise nothing happens.
    pub fn update(&self, items_panel: Option<Entity>) -> (r: Option<Entity>)
        ensures
            r == if self.has_builder {
                items_panel
            } else {
                None
            },
    {
        if self.has_builder {
            items_panel
        } else {
            None
        }
    }
}

impl Default for ItemsWidgetState {
    fn default() -> (r: Self)
        ensures
            !r.has_builder,
    {
        ItemsWidgetState { has_builder: false }
    }
}

/// The items widget itself.  Styling and templating stay outside the
/// layout engine; what the engine sees of the widget is its state.
#[derive(Clone, Copy, PartialEq, Eq, Structural, Debug)]
pub struct ItemsWidget {
    pub state: ItemsWidgetState,
}

impl ItemsWidget {
    pub fn create() -> (r: ItemsWidget)
        ensures
            !r.state.has_builder,
    {
        ItemsWidget { state: ItemsWidgetState { has_builder: false } }
    }

    /// Register the external items builder.  The callback itself lives
    /// with the caller; from then on each update cycle materializes one
    /// new item (see `ItemsWidgetState::update`).
    pub fn items_builder(self) -> (r: Self)
        ensures
            r.state.has_builder,
    {
        ItemsWidget { state: ItemsWidgetState { has_builder: true } }
    }
}

} // verus!
