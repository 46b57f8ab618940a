use grid_layout::geometry::{div_trunc, Alignment, Margin};
use grid_layout::properties::{constrain, Constraint};

#[test]
fn start_defaults_place_at_origin() {
    // a child with no margin and no alignment keeps its measured size at (0, 0)
    let a = Alignment::default();
    let m = Margin::default();
    assert_eq!(a.align_x(100, 40, m), 0);
    assert_eq!(a.align_y(50, 20, m), 0);
    assert_eq!(a.align_width(100, 40, m), 40);
    assert_eq!(a.align_height(50, 20, m), 20);
}

#[test]
fn alignment_offsets() {
    let m = Margin::new(5, 7, 3, 2);
    assert_eq!(Alignment::Start.align_x(100, 40, m), 5);
    assert_eq!(Alignment::End.align_x(100, 40, m), 100 - 40 - 3);
    assert_eq!(Alignment::Center.align_x(100, 40, m), 30);
    assert_eq!(Alignment::Stretch.align_x(100, 40, m), 5);
    assert_eq!(Alignment::Start.align_y(100, 40, m), 7);
    assert_eq!(Alignment::End.align_y(100, 40, m), 100 - 40 - 2);
}

#[test]
fn stretch_fills_available_minus_margins() {
    let m = Margin::new(5, 7, 3, 2);
    assert_eq!(Alignment::Stretch.align_width(100, 40, m), 100 - 5 - 3);
    assert_eq!(Alignment::Stretch.align_height(100, 40, m), 100 - 7 - 2);
    // no clamping: the stretched length may go negative
    assert_eq!(Alignment::Stretch.align_width(4, 40, m), -4);
}

#[test]
fn center_rounds_toward_zero() {
    let m = Margin::default();
    assert_eq!(Alignment::Center.align_x(101, 40, m), 30);
    assert_eq!(Alignment::Center.align_x(10, 13, m), -1);
}

#[test]
fn division_truncates_toward_zero() {
    assert_eq!(div_trunc(7, 2), 3);
    assert_eq!(div_trunc(-7, 2), -3);
    assert_eq!(div_trunc(-40, 1), -40);
    assert_eq!(div_trunc(0, 5), 0);
}

#[test]
fn constrain_honors_bounds() {
    // a non-positive bound is absent
    assert_eq!(constrain(30, 0, 0), 30);
    assert_eq!(constrain(-12, 0, 0), -12);
    assert_eq!(constrain(30, 50, 100), 50);
    assert_eq!(constrain(200, 50, 100), 100);
    assert_eq!(constrain(70, 50, 100), 70);
}

#[test]
fn perform_clamps_each_axis() {
    let c = Constraint {
        width: 0,
        height: 0,
        min_width: 50,
        min_height: 0,
        max_width: 100,
        max_height: 10,
    };
    assert_eq!(c.perform((30, 200)), (50, 10));
    assert_eq!(c.perform((80, 5)), (80, 5));
}
