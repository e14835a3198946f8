//! Counting axis-aligned rectangles drawn with ASCII box characters.
//!
//! A grid of text rows is scanned for the structural characters `+`
//! (corner), `-` (horizontal edge) and `|` (vertical edge).  Every pair of
//! corners on one row forms a tentative horizontal segment; every aligned
//! pair of segments on two different rows forms a rectangle candidate; a
//! candidate counts only if all four of its sides are drawn without a gap
//! and without an intrusion of the perpendicular edge character.

pub mod parts;
pub mod segments;
pub mod validity;
pub mod grid;
mod bridge;

pub use parts::SquarePart;
pub use parts::Row;
pub use parts::Column;
pub use parts::get_all_square_parts;
pub use parts::get_square_part;
pub use parts::find_part;
pub use parts::grid_parts;
pub use segments::HorizontalLine;
pub use segments::VerticalLine;
pub use segments::Square;
pub use segments::line_combos;
pub use segments::get_square_dots_in_line;
pub use segments::get_line_combos;
pub use segments::candidates;
pub use segments::squares_of;
pub use segments::get_squares;
pub use segments::candidate_well_formed;
pub use segments::rows_ascending;
pub use segments::lemma_candidates_well_formed;
pub use segments::lemma_squares_well_formed;
pub use validity::h_valid;
pub use validity::v_valid;
pub use validity::square_valid;
pub use validity::valid_count;
pub use validity::is_vertical_line_valid;
pub use validity::is_horizontal_line_valid;
pub use validity::is_square_valid;
pub use validity::count_valid_squares;
pub use grid::grid_of;
pub use grid::mark_at;
pub use grid::grid_combos;
pub use grid::h_edge_drawn;
pub use grid::v_edge_drawn;
pub use grid::square_drawn;
pub use grid::drawn_count;
pub use grid::rect_count;
pub use grid::count;
pub use grid::lemma_count_at_most_candidates;
pub use grid::lemma_count_idempotent;
pub use grid::lemma_no_corners_zero_count;
