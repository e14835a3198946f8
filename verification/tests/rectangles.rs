use ascii_rectangles::count;

#[test]
fn count_empty_input_is_zero() {
    let lines: &[&str] = &[];
    assert_eq!(count(lines), 0);
}

#[test]
fn count_single_rectangle() {
    let lines = &["+--+", "|  |", "+--+"];
    assert_eq!(count(lines), 1);
}

#[test]
fn count_no_corners_is_zero() {
    let lines = &["----", "|  |", "----", "  | "];
    assert_eq!(count(lines), 0);
}

#[test]
fn count_blank_grid_is_zero() {
    let lines = &["    ", "    "];
    assert_eq!(count(lines), 0);
}

#[test]
fn count_nested_rectangles_share_corners() {
    let lines = &["+--+--+", "|  |  |", "+--+--+"];
    assert_eq!(count(lines), 3);
}

#[test]
fn count_broken_edge_excluded() {
    let valid = &["+--+", "|  |", "|  |", "+--+"];
    let broken = &["+--+", "|  |", "|  -", "+--+"];
    assert_eq!(count(valid), 1);
    assert_eq!(count(broken), count(valid) - 1);
}

#[test]
fn count_sample_grid() {
    let lines = &[
        "+---+--+----+",
        "|   +--+----+",
        "+---+--+    |",
        "|   +--+----+",
        "+---+--+--+-+",
        "+---+--+--+-+",
        "+------+  | |",
        "          +-+",
    ];
    assert_eq!(count(lines), 60);
}

#[test]
fn count_twice_same_result() {
    let lines = &["+--+--+", "|  |  |", "+--+--+"];
    let first = count(lines);
    let second = count(lines);
    assert_eq!(first, second);
}

#[test]
fn count_jagged_rows_fail_soft() {
    // The middle row is shorter than the rectangle is wide: the lookup at
    // the right edge is absent, so the candidate is rejected, not a fault.
    let lines = &["+--+", "|", "+--+"];
    assert_eq!(count(lines), 0);
}

#[test]
fn count_single_row_is_zero() {
    let lines = &["+--+"];
    assert_eq!(count(lines), 0);
}

#[test]
fn count_minimal_rectangle() {
    let lines = &["++", "++"];
    assert_eq!(count(lines), 1);
}
