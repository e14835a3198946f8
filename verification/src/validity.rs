//! The rectangle validator: edge checks over the scanned marks, and the
//! count of candidates whose four sides all pass.

use vstd::prelude::*;
use crate::parts::Column;
use crate::parts::Row;
use crate::parts::SquarePart;
use crate::parts::find_part;
use crate::segments::HorizontalLine;
use crate::segments::Square;
use crate::segments::VerticalLine;

verus! {

/// A vertical side is drawn when every row of the half-open range
/// `[top, bottom)` holds a mark at the side's column and none of those
/// marks is a horizontal edge piece.
pub open spec fn v_valid(parts: Seq<SquarePart>, line: VerticalLine) -> bool {
    forall|r: Row|
        line.1 <= r < line.2 ==> ((#[trigger] find_part(parts, r, line.0)) matches Some(p)
            && !(p is Horizontal))
}

/// A horizontal side is drawn when every column of the half-open range
/// `[left, right)` holds a mark at the side's row and none of those marks
/// is a vertical edge piece.
pub open spec fn h_valid(parts: Seq<SquarePart>, line: HorizontalLine) -> bool {
    forall|c: Column|
        line.1 <= c < line.2 ==> ((#[trigger] find_part(parts, line.0, c)) matches Some(p)
            && !(p is Vertical))
}

/// Checks a vertical side: every row in `[top, bottom)` must hold a mark
/// at the given column, and no such mark may be a horizontal edge piece.
pub fn is_vertical_line_valid(square_parts: &[SquarePart], line: VerticalLine) -> (valid: bool)
    ensures
        valid == v_valid(square_parts@, line),
{
    let (column, top_corner, bottom_corner): VerticalLine = line;
    let mut row: usize = top_corner;
    if row >= bottom_corner {
        return true;
    }
    while row < bottom_corner
        invariant
            line == (column, top_corner, bottom_corner),
            top_corner <= row <= bottom_corner,
            forall|r: Row|
                top_corner <= r < row ==> ((#[trigger] find_part(square_parts@, r, column)) matches
                    Some(p) && !(p is Horizontal)),
        decreases bottom_corner - row,
    {
        match crate::parts::get_square_part(square_parts, row, column) {
            Some(square_part) => {
                if let SquarePart::Horizontal(..) = square_part {
                    return false;
                }
            },
            None => {
                return false;
            },
        }
        row += 1;
    }
    true
}

/// Checks a horizontal side: every column in `[left, right)` must hold a
/// mark at the given row, and no such mark may be a vertical edge piece.
pub fn is_horizontal_line_valid(square_parts: &[SquarePart], line: HorizontalLine) -> (valid: bool)
    ensures
        valid == h_valid(square_parts@, line),
{
    let (row, left_corner, right_corner): HorizontalLine = line;
    let mut column: usize = left_corner;
    if column >= right_corner {
        return true;
    }
    while column < right_corner
        invariant
            line == (row, left_corner, right_corner),
            left_corner <= column <= right_corner,
            forall|c: Column|
                left_corner <= c < column ==> ((#[trigger] find_part(square_parts@, row, c)) matches
                    Some(p) && !(p is Vertical)),
        decreases right_corner - column,
    {
        match crate::parts::get_square_part(square_parts, row, column) {
            Some(square_part) => {
                if let SquarePart::Vertical(..) = square_part {
                    return false;
                }
            },
            None => {
                return false;
            },
        }
        column += 1;
    }
    true
}

/// A candidate is valid when its top and bottom sides pass the horizontal
/// check and its left and right sides pass the vertical check over the row
/// range `[top row, bottom row)`.
pub open spec fn square_valid(parts: Seq<SquarePart>, square: Square) -> bool {
    &&& h_valid(parts, square.top_line)
    &&& h_valid(parts, square.bottom_line)
    &&& v_valid(parts, (square.top_line.1, square.top_line.0, square.bottom_line.0))
    &&& v_valid(parts, (square.top_line.2, square.top_line.0, square.bottom_line.0))
}

/// Validates one candidate: both horizontal sides, then both vertical
/// sides spanning from the top line's row to the bottom line's row.
pub fn is_square_valid(square_parts: &[SquarePart], square: &Square) -> (valid: bool)
    ensures
        valid == square_valid(square_parts@, *square),
{
    let (top_row, top_left_corner, top_right_corner): HorizontalLine = square.top_line;
    let (bottom_row, bottom_left_corner, bottom_right_corner): HorizontalLine = square.bottom_line;

    let is_top_line_valid = is_horizontal_line_valid(
        square_parts,
        (top_row, top_left_corner, top_right_corner),
    );
    let is_bottom_line_valid = is_horizontal_line_valid(
        square_parts,
        (bottom_row, bottom_left_corner, bottom_right_corner),
    );

    let is_left_line_valid = is_vertical_line_valid(
        square_parts,
        (top_left_corner, top_row, bottom_row),
    );
    let is_right_line_valid = is_vertical_line_valid(
        square_parts,
        (top_right_corner, top_row, bottom_row),
    );

    is_bottom_line_valid && is_top_line_valid && is_left_line_valid && is_right_line_valid
}

/// The number of candidates among the first `n` of `squares` that pass
/// validation against the marks `parts`.
pub open spec fn valid_count_upto(parts: Seq<SquarePart>, squares: Seq<Square>, n: int) -> nat
    decreases n,
{
    if n <= 0 {
        0
    } else {
        valid_count_upto(parts, squares, n - 1) + if square_valid(parts, squares[n - 1]) {
            1nat
        } else {
            0nat
        }
    }
}

/// The number of candidates in `squares` that pass validation against the
/// marks `parts`.
pub open spec fn valid_count(parts: Seq<SquarePart>, squares: Seq<Square>) -> nat {
    valid_count_upto(parts, squares, squares.len() as int)
}

/// Counts the candidates whose four sides all validate against the marks.
pub fn count_valid_squares(square_parts: &[SquarePart], squares: Vec<Square>) -> (count: usize)
    ensures
        count == valid_count(square_parts@, squares@),
{
    let mut acc: usize = 0;
    let mut i: usize = 0;
    while i < squares.len()
        invariant
            i <= squares@.len(),
            acc == valid_count_upto(square_parts@, squares@, i as int),
            acc <= i,
        decreases squares@.len() - i,
    {
        if is_square_valid(square_parts, &squares[i]) {
            acc += 1;
        }
        i += 1;
    }
    acc
}

} // verus!
