use grid_layout::geometry::{Alignment, Margin};
use grid_layout::grid::{resolve_columns, run_pass, GridLayout};
use grid_layout::layout::LayoutResult;
use grid_layout::properties::{Bounds, Column, ColumnSpan, ColumnWidth, Columns, Constraint, GridColumn};
use grid_layout::store::{Entity, Store};

fn grid_container(store: &mut Store, width: i64, height: i64, policies: &[ColumnWidth]) -> Entity {
    let container = store.register();
    store.set_constraint(container, Constraint::new(width, height));
    let mut cols = Columns::new();
    for p in policies {
        cols.push(Column::new(*p));
    }
    store.set_columns(container, cols);
    container
}

fn child_in_column(store: &mut Store, col: usize, width: i64, height: i64) -> Entity {
    let child = store.register();
    store.set_grid_column(child, GridColumn(col));
    store.set_constraint(child, Constraint::new(width, height));
    store.set_bounds(child, Bounds { x: 0, y: 0, width: 0, height: 0 });
    child
}

#[test]
fn fixed_auto_stretch_partition() {
    // container width 300 with a fixed, an automatic and a stretch column;
    // one child of width 80 in the automatic column
    let mut store = Store::new();
    let container = grid_container(
        &mut store,
        300,
        100,
        &[ColumnWidth::Width(50), ColumnWidth::Auto, ColumnWidth::Stretch],
    );
    let child = child_in_column(&mut store, 1, 80, 20);
    let mut grid = GridLayout::new();
    let children = vec![child];
    let parent = Constraint::new(300, 100);
    let sizes = vec![(80i64, 20i64)];

    let size = run_pass(&mut grid, &mut store, container, &children, &parent, &sizes);
    assert_eq!(size, (300, 100));
    assert_eq!(store.column_at(container, 0).current_width, 50);
    assert_eq!(store.column_at(container, 1).current_width, 80);
    assert_eq!(store.column_at(container, 2).current_width, 300 - 50 - 80);
    // the child sits at the automatic column's offset and keeps its width
    assert_eq!(
        store.get_bounds(child),
        Some(Bounds { x: 50, y: 0, width: 80, height: 0 })
    );
}

#[test]
fn two_stretch_columns_without_children() {
    let mut store = Store::new();
    let container = grid_container(
        &mut store,
        200,
        50,
        &[ColumnWidth::Stretch, ColumnWidth::Stretch],
    );
    let mut grid = GridLayout::new();
    let children: Vec<Entity> = Vec::new();
    let parent = Constraint::new(200, 50);

    // an empty container is done before any column geometry is touched
    let r = grid.layout(container, &mut store, &parent, &children, None);
    assert_eq!(r, LayoutResult::Size(200, 50));
    assert_eq!(store.column_at(container, 0).current_width, 0);
    assert_eq!(store.column_at(container, 1).current_width, 0);

    // the geometry computation itself is independent of the children
    let cache = resolve_columns(&mut store, container, &children, 200);
    assert_eq!(cache, vec![(0, 100), (100, 100)]);
    assert_eq!(store.column_at(container, 0).current_width, 100);
    assert_eq!(store.column_at(container, 1).current_width, 100);
}

#[test]
fn auto_column_takes_largest_child() {
    // the automatic column resolves to the maximum of width + horizontal margins
    let mut store = Store::new();
    let container = grid_container(&mut store, 400, 100, &[ColumnWidth::Auto]);
    let a = child_in_column(&mut store, 0, 60, 10);
    let b = child_in_column(&mut store, 0, 90, 10);
    store.set_margin(b, Margin::new(4, 0, 6, 0));
    let c = child_in_column(&mut store, 0, 30, 10);
    let mut grid = GridLayout::new();
    let children = vec![a, b, c];
    let parent = Constraint::new(400, 100);
    let sizes = vec![(60, 10), (90, 10), (30, 10)];

    run_pass(&mut grid, &mut store, container, &children, &parent, &sizes);
    assert_eq!(store.column_at(container, 0).current_width, 90 + 4 + 6);
}

#[test]
fn fixed_overrides_auto_measurement() {
    // a fixed column keeps its declared width however wide its child measures
    let mut store = Store::new();
    let container = grid_container(&mut store, 400, 100, &[ColumnWidth::Width(60)]);
    let child = child_in_column(&mut store, 0, 500, 10);
    let mut grid = GridLayout::new();
    let children = vec![child];
    let parent = Constraint::new(400, 100);
    let sizes = vec![(500, 10)];

    run_pass(&mut grid, &mut store, container, &children, &parent, &sizes);
    assert_eq!(store.column_at(container, 0).current_width, 60);
}

#[test]
fn stretch_shares_sum_to_container() {
    let mut store = Store::new();
    let container = grid_container(
        &mut store,
        300,
        100,
        &[ColumnWidth::Width(50), ColumnWidth::Stretch, ColumnWidth::Stretch],
    );
    let children: Vec<Entity> = Vec::new();
    let cache = resolve_columns(&mut store, container, &children, 300);
    assert_eq!(cache, vec![(0, 50), (50, 125), (175, 125)]);
    let total: i64 = (0..3).map(|i| store.column_at(container, i).current_width).sum();
    assert_eq!(total, 300);
}

#[test]
fn uneven_stretch_share_truncates() {
    // 10 across three stretch columns: each gets 3, the remainder is not
    // redistributed
    let mut store = Store::new();
    let container = grid_container(
        &mut store,
        10,
        10,
        &[ColumnWidth::Stretch, ColumnWidth::Stretch, ColumnWidth::Stretch],
    );
    let children: Vec<Entity> = Vec::new();
    let cache = resolve_columns(&mut store, container, &children, 10);
    assert_eq!(cache, vec![(0, 3), (3, 3), (6, 3)]);
}

#[test]
fn stretch_share_may_go_negative() {
    let mut store = Store::new();
    let container = grid_container(
        &mut store,
        10,
        10,
        &[ColumnWidth::Width(50), ColumnWidth::Stretch],
    );
    let children: Vec<Entity> = Vec::new();
    let cache = resolve_columns(&mut store, container, &children, 10);
    assert_eq!(cache, vec![(0, 50), (50, -40)]);
}

#[test]
fn offsets_accumulate_widths() {
    let mut store = Store::new();
    let container = grid_container(
        &mut store,
        300,
        100,
        &[ColumnWidth::Width(30), ColumnWidth::Width(45), ColumnWidth::Width(25), ColumnWidth::Stretch],
    );
    let children: Vec<Entity> = Vec::new();
    let cache = resolve_columns(&mut store, container, &children, 300);
    for i in 0..cache.len() - 1 {
        assert_eq!(cache[i + 1].0, cache[i].0 + cache[i].1);
    }
    assert_eq!(cache[0].0, 0);
}

#[test]
fn span_past_the_end_is_truncated() {
    // a child in column 2 spanning 5 of 3 columns receives column 2 alone
    let mut store = Store::new();
    let container = grid_container(
        &mut store,
        300,
        100,
        &[ColumnWidth::Width(50), ColumnWidth::Width(60), ColumnWidth::Width(70)],
    );
    let child = child_in_column(&mut store, 2, 10, 10);
    store.set_column_span(child, ColumnSpan(5));
    // stretch the child horizontally so its bounds expose the available width
    store.set_horizontal_alignment(child, Alignment::Stretch);
    let mut grid = GridLayout::new();
    let children = vec![child];
    let parent = Constraint::new(300, 100);
    let sizes = vec![(10, 10)];

    run_pass(&mut grid, &mut store, container, &children, &parent, &sizes);
    let b = store.get_bounds(child).unwrap();
    assert_eq!(b.width, 70);
    assert_eq!(b.x, 50 + 60);
}

#[test]
fn span_of_two_sums_both_columns() {
    let mut store = Store::new();
    let container = grid_container(
        &mut store,
        300,
        100,
        &[ColumnWidth::Width(50), ColumnWidth::Width(60), ColumnWidth::Width(70)],
    );
    let child = child_in_column(&mut store, 0, 10, 10);
    store.set_column_span(child, ColumnSpan(2));
    store.set_horizontal_alignment(child, Alignment::Stretch);
    let mut grid = GridLayout::new();
    let children = vec![child];
    let parent = Constraint::new(300, 100);
    let sizes = vec![(10, 10)];

    run_pass(&mut grid, &mut store, container, &children, &parent, &sizes);
    assert_eq!(store.get_bounds(child).unwrap().width, 50 + 60);
}

#[test]
fn missing_column_gives_no_width() {
    // a child naming a column that does not exist gets offset 0 and width 0
    let mut store = Store::new();
    let container = grid_container(&mut store, 300, 100, &[ColumnWidth::Width(50)]);
    let child = child_in_column(&mut store, 7, 10, 10);
    store.set_horizontal_alignment(child, Alignment::Stretch);
    let mut grid = GridLayout::new();
    let children = vec![child];
    let parent = Constraint::new(300, 100);
    let sizes = vec![(10, 10)];

    run_pass(&mut grid, &mut store, container, &children, &parent, &sizes);
    assert_eq!(store.get_bounds(child).unwrap().width, 0);
    assert_eq!(store.get_bounds(child).unwrap().x, 0);
}

#[test]
fn no_columns_centers_by_alignment_only() {
    // without columns only the child's position is written, never its width
    let mut store = Store::new();
    let container = store.register();
    store.set_constraint(container, Constraint::new(200, 100));
    let child = store.register();
    store.set_constraint(child, Constraint::new(40, 20));
    store.set_bounds(child, Bounds { x: 1, y: 2, width: 3, height: 4 });
    store.set_horizontal_alignment(child, Alignment::Center);
    store.set_vertical_alignment(child, Alignment::Center);
    let mut grid = GridLayout::new();
    let children = vec![child];
    let parent = Constraint::new(200, 100);
    let sizes = vec![(40, 20)];

    run_pass(&mut grid, &mut store, container, &children, &parent, &sizes);
    assert_eq!(
        store.get_bounds(child),
        Some(Bounds { x: 80, y: 40, width: 3, height: 4 })
    );
}

#[test]
fn protocol_requests_children_in_order() {
    let mut store = Store::new();
    let container = grid_container(&mut store, 300, 100, &[ColumnWidth::Stretch]);
    let a = child_in_column(&mut store, 0, 10, 10);
    let b = child_in_column(&mut store, 0, 20, 20);
    let mut grid = GridLayout::new();
    let children = vec![a, b];
    let parent = Constraint::new(300, 100);

    let r0 = grid.layout(container, &mut store, &parent, &children, None);
    match r0 {
        LayoutResult::RequestChild(e, c) => {
            assert_eq!(e, a);
            assert_eq!(c.width, 300);
            assert_eq!(c.height, 100);
        },
        LayoutResult::Size(_, _) => panic!("expected a measurement request"),
    }
    let r1 = grid.layout(container, &mut store, &parent, &children, Some((10, 10)));
    match r1 {
        LayoutResult::RequestChild(e, _) => assert_eq!(e, b),
        LayoutResult::Size(_, _) => panic!("expected a measurement request"),
    }
    let r2 = grid.layout(container, &mut store, &parent, &children, Some((20, 20)));
    assert_eq!(r2, LayoutResult::Size(300, 100));
}

#[test]
fn second_pass_reproduces_identical_bounds() {
    let mut store = Store::new();
    let container = grid_container(
        &mut store,
        300,
        100,
        &[ColumnWidth::Width(50), ColumnWidth::Auto, ColumnWidth::Stretch],
    );
    let a = child_in_column(&mut store, 1, 80, 20);
    let b = child_in_column(&mut store, 2, 30, 40);
    store.set_margin(b, Margin::new(2, 3, 4, 5));
    let mut grid = GridLayout::new();
    let children = vec![a, b];
    let parent = Constraint::new(300, 100);
    let sizes = vec![(80, 20), (30, 40)];

    run_pass(&mut grid, &mut store, container, &children, &parent, &sizes);
    let first = (store.get_bounds(a), store.get_bounds(b));
    run_pass(&mut grid, &mut store, container, &children, &parent, &sizes);
    let second = (store.get_bounds(a), store.get_bounds(b));
    assert_eq!(first, second);
}

#[test]
fn pass_resets_cursor_and_cache() {
    let mut store = Store::new();
    let container = grid_container(&mut store, 100, 100, &[ColumnWidth::Stretch]);
    let child = child_in_column(&mut store, 0, 10, 10);
    let mut grid = GridLayout::new();
    let children = vec![child];
    let parent = Constraint::new(100, 100);
    let sizes = vec![(10, 10)];

    run_pass(&mut grid, &mut store, container, &children, &parent, &sizes);
    // a later pass over a container without columns clears the cache again
    let plain = store.register();
    store.set_constraint(plain, Constraint::new(50, 50));
    let r = grid.layout(plain, &mut store, &parent, &children, None);
    match r {
        LayoutResult::RequestChild(e, _) => assert_eq!(e, child),
        LayoutResult::Size(_, _) => panic!("expected a measurement request"),
    }
    assert_eq!(grid.current_child, 0);
    assert_eq!(grid.columns_cache.len(), 0);
}

#[test]
fn defaults_substitute_for_missing_attributes() {
    // a child with no attributes at all is still placed: column 0, span 1,
    // start alignment, no margin
    let mut store = Store::new();
    let container = grid_container(&mut store, 300, 100, &[ColumnWidth::Width(120)]);
    let child = store.register();
    store.set_bounds(child, Bounds { x: 9, y: 9, width: 9, height: 9 });
    let mut grid = GridLayout::new();
    let children = vec![child];
    let parent = Constraint::new(300, 100);
    let sizes = vec![(40, 20)];

    run_pass(&mut grid, &mut store, container, &children, &parent, &sizes);
    // under start alignment the written width is the measured width
    assert_eq!(
        store.get_bounds(child),
        Some(Bounds { x: 0, y: 0, width: 40, height: 9 })
    );
}

#[test]
fn child_without_bounds_attribute_is_skipped() {
    let mut store = Store::new();
    let container = grid_container(&mut store, 300, 100, &[ColumnWidth::Width(120)]);
    let child = store.register();
    store.set_constraint(child, Constraint::new(40, 20));
    let mut grid = GridLayout::new();
    let children = vec![child];
    let parent = Constraint::new(300, 100);
    let sizes = vec![(40, 20)];

    run_pass(&mut grid, &mut store, container, &children, &parent, &sizes);
    assert_eq!(store.get_bounds(child), None);
}

#[test]
fn child_without_own_constraint_does_not_raise_auto() {
    // automatic sizing only counts children that declare both a column
    // index and a constraint of their own
    let mut store = Store::new();
    let container = grid_container(&mut store, 400, 100, &[ColumnWidth::Auto]);
    let silent = store.register();
    store.set_grid_column(silent, GridColumn(0));
    store.set_bounds(silent, Bounds { x: 0, y: 0, width: 0, height: 0 });
    let loud = child_in_column(&mut store, 0, 25, 10);
    let mut grid = GridLayout::new();
    let children = vec![silent, loud];
    let parent = Constraint::new(400, 100);
    let sizes = vec![(90, 10), (25, 10)];

    run_pass(&mut grid, &mut store, container, &children, &parent, &sizes);
    assert_eq!(store.column_at(container, 0).current_width, 25);
}

#[test]
fn end_alignment_in_grid_mode() {
    let mut store = Store::new();
    let container = grid_container(&mut store, 300, 100, &[ColumnWidth::Width(120)]);
    let child = child_in_column(&mut store, 0, 40, 20);
    store.set_horizontal_alignment(child, Alignment::End);
    store.set_vertical_alignment(child, Alignment::End);
    let mut grid = GridLayout::new();
    let children = vec![child];
    let parent = Constraint::new(300, 100);
    let sizes = vec![(40, 20)];

    run_pass(&mut grid, &mut store, container, &children, &parent, &sizes);
    let b = store.get_bounds(child).unwrap();
    // the x offset aligns against the container width, from the column start
    assert_eq!(b.x, 0 + (300 - 40));
    assert_eq!(b.y, 100 - 20);
    assert_eq!(b.width, 40);
}

#[test]
fn margins_shift_the_placed_child() {
    let mut store = Store::new();
    let container = grid_container(&mut store, 300, 100, &[ColumnWidth::Width(120)]);
    let child = child_in_column(&mut store, 0, 40, 20);
    store.set_margin(child, Margin::new(7, 11, 1, 2));
    let mut grid = GridLayout::new();
    let children = vec![child];
    let parent = Constraint::new(300, 100);
    let sizes = vec![(40, 20)];

    run_pass(&mut grid, &mut store, container, &children, &parent, &sizes);
    let b = store.get_bounds(child).unwrap();
    assert_eq!(b.x, 7);
    assert_eq!(b.y, 11);
}

#[test]
fn container_size_honors_its_own_constraint_bounds() {
    let mut store = Store::new();
    let container = store.register();
    store.set_constraint(
        container,
        Constraint {
            width: 0,
            height: 0,
            min_width: 0,
            min_height: 0,
            max_width: 150,
            max_height: 60,
        },
    );
    store.set_horizontal_alignment(container, Alignment::Stretch);
    store.set_vertical_alignment(container, Alignment::Stretch);
    let mut grid = GridLayout::new();
    let children: Vec<Entity> = Vec::new();
    let parent = Constraint::new(400, 100);

    let r = grid.layout(container, &mut store, &parent, &children, None);
    // stretched to the parent, then clamped by its own maximum
    assert_eq!(r, LayoutResult::Size(150, 60));
}
