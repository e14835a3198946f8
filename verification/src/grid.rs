//! The grid-level model: what the count means in terms of the characters
//! of the grid alone, and the top-level counting function.

use vstd::prelude::*;
use crate::parts::Column;
use crate::parts::Row;
use crate::parts::SquarePart;
use crate::parts::char_part;
use crate::parts::get_all_square_parts;
use crate::segments::HorizontalLine;
use crate::segments::Square;
use crate::segments::VerticalLine;
use crate::segments::candidates;
use crate::segments::get_squares;
use crate::segments::row_pairs;
use crate::validity::count_valid_squares;

verus! {

/// The grid a sequence of text rows denotes: each row as its sequence of
/// characters.
pub open spec fn grid_of(lines: Seq<&str>) -> Seq<Seq<char>> {
    Seq::new(lines.len(), |i: int| lines[i]@)
}

/// The mark the grid holds at `(row, col)`: the classification of the
/// character there, or `None` when the position lies outside the grid or
/// its row, or holds a non-structural character.
pub open spec fn mark_at(grid: Seq<Seq<char>>, row: Row, col: Column) -> Option<SquarePart> {
    if (row as int) < grid.len() && (col as int) < grid[row as int].len() {
        char_part(row, col, grid[row as int][col as int])
    } else {
        None
    }
}

/// The columns of the `+` characters among the first `n` of `line`,
/// ascending.
pub open spec fn line_corners_upto(line: Seq<char>, n: int) -> Seq<Column>
    decreases n,
{
    if n <= 0 {
        Seq::empty()
    } else {
        line_corners_upto(line, n - 1) + if line[n - 1] == '+' {
            seq![(n - 1) as Column]
        } else {
            Seq::empty()
        }
    }
}

/// The columns of the `+` characters of `line`, ascending.
pub open spec fn line_corners(line: Seq<char>) -> Seq<Column> {
    line_corners_upto(line, line.len() as int)
}

/// The corner columns of grid row `row`, ascending; empty outside the
/// grid.
pub open spec fn row_corners(grid: Seq<Seq<char>>, row: Row) -> Seq<Column> {
    if (row as int) < grid.len() {
        line_corners(grid[row as int])
    } else {
        Seq::empty()
    }
}

/// The horizontal segments of the first `n` grid rows: for each row, every
/// ordered pair of its corner columns.
pub open spec fn grid_combos_upto(grid: Seq<Seq<char>>, n: int) -> Seq<HorizontalLine>
    decreases n,
{
    if n <= 0 {
        Seq::empty()
    } else {
        grid_combos_upto(grid, n - 1) + row_pairs((n - 1) as Row, row_corners(grid, (n - 1) as Row))
    }
}

/// All horizontal segments of the grid, rows ascending.
pub open spec fn grid_combos(grid: Seq<Seq<char>>) -> Seq<HorizontalLine> {
    grid_combos_upto(grid, grid.len() as int)
}

/// A horizontal side is drawn in the grid when every column of
/// `[left, right)` holds a mark on the side's row and none of those marks
/// is a vertical edge piece.
pub open spec fn h_edge_drawn(grid: Seq<Seq<char>>, line: HorizontalLine) -> bool {
    forall|c: Column|
        line.1 <= c < line.2 ==> ((#[trigger] mark_at(grid, line.0, c)) matches Some(p)
            && !(p is Vertical))
}

/// A vertical side is drawn in the grid when every row of `[top, bottom)`
/// holds a mark on the side's column and none of those marks is a
/// horizontal edge piece.
pub open spec fn v_edge_drawn(grid: Seq<Seq<char>>, line: VerticalLine) -> bool {
    forall|r: Row|
        line.1 <= r < line.2 ==> ((#[trigger] mark_at(grid, r, line.0)) matches Some(p)
            && !(p is Horizontal))
}

/// A candidate is drawn in the grid when its top and bottom sides are
/// drawn horizontally and its left and right sides are drawn vertically
/// over the row range `[top row, bottom row)`.
pub open spec fn square_drawn(grid: Seq<Seq<char>>, square: Square) -> bool {
    &&& h_edge_drawn(grid, square.top_line)
    &&& h_edge_drawn(grid, square.bottom_line)
    &&& v_edge_drawn(grid, (square.top_line.1, square.top_line.0, square.bottom_line.0))
    &&& v_edge_drawn(grid, (square.top_line.2, square.top_line.0, square.bottom_line.0))
}

/// The number of candidates among the first `n` of `squares` drawn in the
/// grid.
pub open spec fn drawn_count_upto(grid: Seq<Seq<char>>, squares: Seq<Square>, n: int) -> nat
    decreases n,
{
    if n <= 0 {
        0
    } else {
        drawn_count_upto(grid, squares, n - 1) + if square_drawn(grid, squares[n - 1]) {
            1nat
        } else {
            0nat
        }
    }
}

/// The number of candidates in `squares` drawn in the grid.
pub open spec fn drawn_count(grid: Seq<Seq<char>>, squares: Seq<Square>) -> nat {
    drawn_count_upto(grid, squares, squares.len() as int)
}

/// The number of rectangles drawn in the grid: the candidates built from
/// aligned same-row corner pairs on two different rows whose four sides
/// are all drawn; zero for a grid of no rows.
pub open spec fn rect_count(grid: Seq<Seq<char>>) -> nat {
    if grid.len() == 0 {
        0
    } else {
        drawn_count(grid, candidates(grid_combos(grid)))
    }
}

/// Counts the rectangles drawn in the grid of text rows `lines` with `+`
/// corners, `-` horizontal edges and `|` vertical edges: zero rows yield
/// zero; otherwise the scanned marks are paired into candidates and the
/// candidates whose four sides are drawn are counted.  The count is
/// returned truncated to 32 bits, the identity for every count that fits.
pub fn count(lines: &[&str]) -> (result: u32)
    ensures
        result == rect_count(grid_of(lines@)) as u32,
        rect_count(grid_of(lines@)) <= u32::MAX ==> result == rect_count(grid_of(lines@)),
        lines@.len() == 0 ==> result == 0,
{
    let ghost grid: Seq<Seq<char>> = grid_of(lines@);
    if lines.len() == 0 {
        proof {
            assert(rect_count(grid) == 0);
        }
        return 0;
    }

    let lines_len: usize = lines.len();
    let square_parts = get_all_square_parts(lines);
    let squares = get_squares(&square_parts, lines_len);
    let valid: usize = count_valid_squares(&square_parts, squares);
    proof {
        assert(square_parts@ == crate::parts::grid_parts(grid));
        assert(crate::bridge::rows_bounded(grid)) by {
            assert(grid.len() == lines@.len() <= usize::MAX);
            assert forall|i: int| 0 <= i < grid.len() implies (#[trigger] grid[i]).len()
                <= usize::MAX by {
                assert(grid[i] == lines@[i]@);
            }
        }
        crate::bridge::lemma_combos_bridge(grid, lines_len);
        crate::bridge::lemma_drawn_count_bridge(grid, squares@, squares@.len() as int);
        assert(valid == rect_count(grid));
    }
    #[verifier::truncate]
    let result: u32 = valid as u32;
    proof {
        assert(result == rect_count(grid) as u32);
    }
    result
}

proof fn lemma_drawn_count_upto_bound(grid: Seq<Seq<char>>, squares: Seq<Square>, n: int)
    requires
        0 <= n <= squares.len(),
    ensures
        drawn_count_upto(grid, squares, n) <= n,
    decreases n,
{
    if n > 0 {
        lemma_drawn_count_upto_bound(grid, squares, n - 1);
    }
}

/// The count never exceeds the number of generated rectangle candidates:
/// at most every candidate can be drawn.
pub proof fn lemma_count_at_most_candidates(grid: Seq<Seq<char>>)
    ensures
        rect_count(grid) <= candidates(grid_combos(grid)).len(),
{
    if grid.len() != 0 {
        let cands = candidates(grid_combos(grid));
        lemma_drawn_count_upto_bound(grid, cands, cands.len() as int);
    }
}

/// Counting is idempotent: the contract of `count` pins its result as a
/// function of the rows alone, so two runs on the same rows agree.
pub proof fn lemma_count_idempotent(lines: Seq<&str>, first: u32, second: u32)
    requires
        first == rect_count(grid_of(lines)) as u32,
        second == rect_count(grid_of(lines)) as u32,
    ensures
        first == second,
{
}

proof fn lemma_line_corners_empty(line: Seq<char>, n: int)
    requires
        0 <= n <= line.len(),
        forall|c: int| 0 <= c < line.len() ==> line[c] != '+',
    ensures
        line_corners_upto(line, n) == Seq::<Column>::empty(),
    decreases n,
{
    if n > 0 {
        lemma_line_corners_empty(line, n - 1);
        assert(line_corners_upto(line, n) =~= Seq::<Column>::empty());
    }
}

proof fn lemma_no_corners_no_combos(grid: Seq<Seq<char>>, n: int)
    requires
        0 <= n <= grid.len(),
        forall|r: int, c: int|
            0 <= r < grid.len() && 0 <= c < grid[r].len() ==> #[trigger] grid[r][c] != '+',
    ensures
        grid_combos_upto(grid, n) == Seq::<HorizontalLine>::empty(),
    decreases n,
{
    if n > 0 {
        lemma_no_corners_no_combos(grid, n - 1);
        let row = (n - 1) as Row;
        assert(row_corners(grid, row) == Seq::<Column>::empty()) by {
            if (row as int) < grid.len() {
                lemma_line_corners_empty(grid[row as int], grid[row as int].len() as int);
            }
        }
        assert(row_pairs(row, Seq::<Column>::empty()) == Seq::<HorizontalLine>::empty());
        assert(grid_combos_upto(grid, n) =~= Seq::<HorizontalLine>::empty());
    }
}

/// A grid without any `+` character holds no rectangle, whatever `-` and
/// `|` content it has: no corners mean no segments, no candidates and a
/// count of zero.
pub proof fn lemma_no_corners_zero_count(grid: Seq<Seq<char>>)
    requires
        forall|r: int, c: int|
            0 <= r < grid.len() && 0 <= c < grid[r].len() ==> #[trigger] grid[r][c] != '+',
    ensures
        rect_count(grid) == 0,
{
    if grid.len() != 0 {
        lemma_no_corners_no_combos(grid, grid.len() as int);
        assert(candidates(Seq::<HorizontalLine>::empty()) == Seq::<Square>::empty());
        assert(drawn_count(grid, Seq::<Square>::empty()) == 0);
    }
}

} // verus!
