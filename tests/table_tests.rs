use gfx_font::geometry::Au;
use gfx_font::table::{
    InternalTable, RowWidths, TableChild, TableFlow, TableLayout, WidthConstraintSolution,
};

fn aus(v: &[i32]) -> Vec<Au> {
    v.iter().map(|x| Au(*x)).collect()
}

fn row(w: &[i32], min: &[i32], pref: &[i32]) -> TableChild {
    TableChild::Row(RowWidths {
        col_widths: aus(w),
        col_min_widths: aus(min),
        col_pref_widths: aus(pref),
    })
}

#[test]
fn update_col_widths_takes_larger_and_sums() {
    let mut widths = aus(&[10, 50, 30]);
    let sum = TableFlow::update_col_widths(&mut widths, &aus(&[20, 40]));
    assert_eq!(widths, aus(&[20, 50, 30]));
    assert_eq!(sum, Au(100));
}

#[test]
fn update_col_widths_ignores_extra_kid_columns() {
    let mut widths = aus(&[5]);
    let sum = TableFlow::update_col_widths(&mut widths, &aus(&[1, 99]));
    assert_eq!(widths, aus(&[5]));
    assert_eq!(sum, Au(5));
    let mut empty: Vec<Au> = Vec::new();
    assert_eq!(TableFlow::update_col_widths(&mut empty, &aus(&[3])), Au(0));
}

#[test]
fn auto_layout_gathers_row_maximums() {
    let mut t = TableFlow::new(TableLayout::AutoLayout);
    let kids = vec![
        row(&[0, 0], &[10, 20], &[30, 40]),
        row(&[0, 0, 0], &[15, 5, 7], &[25, 50, 9]),
    ];
    t.bubble_widths(&kids);
    assert_eq!(t.col_min_widths, aus(&[15, 20, 7]));
    assert_eq!(t.col_pref_widths, aus(&[30, 50, 9]));
    assert_eq!(t.col_widths, aus(&[0, 0, 0]));
    assert_eq!(t.minimum_width, Au(42));
    assert_eq!(t.preferred_width, Au(89));
}

#[test]
fn auto_layout_preferred_is_at_least_minimum() {
    let mut t = TableFlow::new(TableLayout::AutoLayout);
    t.bubble_widths(&vec![row(&[0], &[40], &[10])]);
    assert_eq!(t.minimum_width, Au(40));
    assert_eq!(t.preferred_width, Au(40));
}

#[test]
fn fixed_layout_first_row_fills_unspecified_columns() {
    let mut t = TableFlow::new(TableLayout::FixedLayout);
    let kids = vec![
        TableChild::ColGroup(aus(&[100, 0])),
        row(&[7, 60, 80], &[], &[]),
        row(&[1, 2, 3, 4], &[], &[]),
    ];
    t.bubble_widths(&kids);
    assert_eq!(t.col_widths, aus(&[100, 60, 80, 4]));
    assert_eq!(t.col_min_widths, aus(&[100, 0]));
    assert_eq!(t.col_pref_widths, aus(&[100, 0]));
    assert_eq!(t.minimum_width, Au(0));
    assert_eq!(t.preferred_width, Au(0));
}

#[test]
fn no_children_leaves_no_columns() {
    let mut t = TableFlow::new(TableLayout::FixedLayout);
    t.bubble_widths(&Vec::new());
    assert!(t.col_widths.is_empty());
    assert_eq!(t.minimum_width, Au(0));
}

#[test]
fn internal_table_takes_available_width() {
    let s = InternalTable.solve_width_constraints(Au(1234));
    assert_eq!(
        s,
        WidthConstraintSolution { width: Au(1234), margin_left: Au(0), margin_right: Au(0) }
    );
}

fn fixed_with(widths: &[i32]) -> TableFlow {
    let mut t = TableFlow::new(TableLayout::FixedLayout);
    t.col_widths = aus(widths);
    t
}

#[test]
fn fixed_layout_scales_specified_columns_to_fill() {
    let mut t = fixed_with(&[100, 200]);
    t.distribute_col_widths(Au(600));
    assert_eq!(t.col_widths, aus(&[200, 400]));
    let mut r = fixed_with(&[1, 2]);
    r.distribute_col_widths(Au(4));
    assert_eq!(r.col_widths, aus(&[1, 3]));
}

#[test]
fn fixed_layout_shares_room_among_unspecified_columns() {
    let mut t = fixed_with(&[100, 0, 0]);
    t.distribute_col_widths(Au(301));
    assert_eq!(t.col_widths, aus(&[100, 100, 100]));
    let mut over = fixed_with(&[500, 0, 0]);
    over.distribute_col_widths(Au(301));
    assert_eq!(over.col_widths, aus(&[500, -99, -99]));
}

#[test]
fn fixed_layout_keeps_widths_that_fill_the_table() {
    let mut t = fixed_with(&[400, 300]);
    t.distribute_col_widths(Au(500));
    assert_eq!(t.col_widths, aus(&[400, 300]));
}

#[test]
fn auto_layout_keeps_column_widths() {
    let mut t = TableFlow::new(TableLayout::AutoLayout);
    t.col_widths = aus(&[0, 10]);
    t.distribute_col_widths(Au(1000));
    assert_eq!(t.col_widths, aus(&[0, 10]));
}

#[test]
fn fixed_layout_scaling_handles_signs_and_zero_total() {
    let mut neg = fixed_with(&[-10, 5]);
    neg.distribute_col_widths(Au(10));
    assert_eq!(neg.col_widths, aus(&[20, -10]));
    let mut zero = fixed_with(&[5, -5]);
    zero.distribute_col_widths(Au(10));
    assert_eq!(zero.col_widths, aus(&[i32::MAX, i32::MIN]));
    let mut empty = fixed_with(&[]);
    empty.distribute_col_widths(Au(10));
    assert!(empty.col_widths.is_empty());
}

#[test]
fn fixed_layout_negative_content_width() {
    let mut t = fixed_with(&[0, 0]);
    t.distribute_col_widths(Au(-7));
    assert_eq!(t.col_widths, aus(&[-3, -3]));
}
