use grid_layout::items_widget::{ItemsWidget, ItemsWidgetState};
use grid_layout::store::{Entity, Store};

#[test]
fn builder_registration_is_recorded() {
    let w = ItemsWidget::create();
    assert!(!w.state.has_builder);
    let w = w.items_builder();
    assert!(w.state.has_builder);
}

#[test]
fn update_appends_only_with_builder_and_panel() {
    let mut store = Store::new();
    let panel = store.register();

    let idle = ItemsWidgetState::new();
    assert_eq!(idle.update(Some(panel)), None);
    assert_eq!(idle.update(None), None);

    let armed = ItemsWidget::create().items_builder().state;
    assert_eq!(armed.update(Some(panel)), Some(panel));
    assert_eq!(armed.update(None), None);
}

#[test]
fn entities_are_handed_out_in_order() {
    let mut store = Store::new();
    let a = store.register();
    let b = store.register();
    assert_eq!(a, Entity(0));
    assert_eq!(b, Entity(1));
    assert_eq!(store.len(), 2);
}
