use ascii_rectangles::SquarePart;
use ascii_rectangles::count;
use ascii_rectangles::count_valid_squares;
use ascii_rectangles::get_all_square_parts;
use ascii_rectangles::get_line_combos;
use ascii_rectangles::get_square_dots_in_line;
use ascii_rectangles::get_square_part;
use ascii_rectangles::get_squares;
use ascii_rectangles::is_horizontal_line_valid;
use ascii_rectangles::is_square_valid;
use ascii_rectangles::is_vertical_line_valid;

#[test]
fn scanner_classifies_characters() {
    let parts = get_all_square_parts(&["+- |", " x+ "]);
    assert_eq!(
        parts,
        vec![
            SquarePart::Corner(0, 0),
            SquarePart::Horizontal(0, 1),
            SquarePart::Vertical(0, 3),
            SquarePart::Corner(1, 2),
        ]
    );
}

#[test]
fn scanner_empty_grid_yields_nothing() {
    let parts = get_all_square_parts(&[]);
    assert!(parts.is_empty());
}

#[test]
fn lookup_finds_each_mark_kind() {
    let parts = get_all_square_parts(&["+-", "| "]);
    assert!(matches!(get_square_part(&parts, 0, 0), Some(SquarePart::Corner(0, 0))));
    assert!(matches!(get_square_part(&parts, 0, 1), Some(SquarePart::Horizontal(0, 1))));
    assert!(matches!(get_square_part(&parts, 1, 0), Some(SquarePart::Vertical(1, 0))));
}

#[test]
fn lookup_absent_positions() {
    let parts = get_all_square_parts(&["+ ", "  "]);
    assert!(get_square_part(&parts, 0, 1).is_none());
    assert!(get_square_part(&parts, 1, 0).is_none());
    assert!(get_square_part(&parts, 5, 9).is_none());
}

#[test]
fn corner_columns_are_ascending() {
    let parts = get_all_square_parts(&["+---+---+", "|   |   |"]);
    let dots = get_square_dots_in_line(&parts, 0);
    assert_eq!(dots, Some(vec![0, 4, 8]));
}

#[test]
fn corner_columns_of_cornerless_row_are_empty() {
    let parts = get_all_square_parts(&["+---+", "|   |"]);
    let dots = get_square_dots_in_line(&parts, 1);
    assert_eq!(dots, Some(vec![]));
}

#[test]
fn combos_pair_all_corners_not_only_adjacent() {
    let parts = get_all_square_parts(&["+---+---+"]);
    let combos = get_line_combos(&parts, 1);
    assert_eq!(combos, vec![(0, 0, 4), (0, 0, 8), (0, 4, 8)]);
}

#[test]
fn squares_pair_aligned_segments_across_rows() {
    let parts = get_all_square_parts(&["+--+", "    ", "+--+"]);
    let squares = get_squares(&parts, 3);
    assert_eq!(squares.len(), 1);
    assert_eq!(squares[0].top_line, (0, 0, 3));
    assert_eq!(squares[0].bottom_line, (2, 0, 3));
}

#[test]
fn squares_skip_same_row_and_unaligned_segments() {
    let parts = get_all_square_parts(&["+--+ +-+", "+--+    "]);
    let squares = get_squares(&parts, 2);
    assert_eq!(squares.len(), 1);
    assert_eq!(squares[0].top_line, (0, 0, 3));
    assert_eq!(squares[0].bottom_line, (1, 0, 3));
}

#[test]
fn horizontal_line_checks() {
    let parts = get_all_square_parts(&["+--+", "+-|+", "+- +"]);
    assert!(is_horizontal_line_valid(&parts, (0, 0, 3)));
    // A vertical edge piece intrudes into the drawn line.
    assert!(!is_horizontal_line_valid(&parts, (1, 0, 3)));
    // A gap breaks the drawn line.
    assert!(!is_horizontal_line_valid(&parts, (2, 0, 3)));
    // An empty range holds no position to fail.
    assert!(is_horizontal_line_valid(&parts, (0, 2, 2)));
}

#[test]
fn vertical_line_checks() {
    let parts = get_all_square_parts(&["+++", "|-+", "|  ", "+++"]);
    assert!(is_vertical_line_valid(&parts, (0, 0, 3)));
    // A horizontal edge piece intrudes into the drawn line.
    assert!(!is_vertical_line_valid(&parts, (1, 0, 3)));
    // A gap breaks the drawn line.
    assert!(!is_vertical_line_valid(&parts, (2, 0, 3)));
    // An empty range holds no position to fail.
    assert!(is_vertical_line_valid(&parts, (1, 2, 2)));
}

#[test]
fn square_validation_checks_all_four_sides() {
    let grid = &["+--+", "|  |", "+--+"];
    let parts = get_all_square_parts(grid);
    let squares = get_squares(&parts, 3);
    assert_eq!(squares.len(), 1);
    assert!(is_square_valid(&parts, &squares[0]));

    let broken = &["+--+", "|  -", "+--+"];
    let broken_parts = get_all_square_parts(broken);
    let broken_squares = get_squares(&broken_parts, 3);
    assert_eq!(broken_squares.len(), 1);
    assert!(!is_square_valid(&broken_parts, &broken_squares[0]));
}

#[test]
fn counting_valid_squares_matches_validation() {
    let grid = &["+--+--+", "|  |  |", "+--+--+"];
    let parts = get_all_square_parts(grid);
    let squares = get_squares(&parts, 3);
    let mut expected: usize = 0;
    for square in squares.iter() {
        if is_square_valid(&parts, square) {
            expected += 1;
        }
    }
    assert_eq!(count_valid_squares(&parts, squares), expected);
}

#[test]
fn count_never_exceeds_candidates() {
    let grid = &["+-+-+", "+-+-+", "+-+-+"];
    let parts = get_all_square_parts(grid);
    let squares = get_squares(&parts, 3);
    assert!((count(grid) as usize) <= squares.len());
}
