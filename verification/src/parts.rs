//! The grid scanner: classifying grid characters into structural marks,
//! and the positional lookup over the scanned marks.

use vstd::prelude::*;
use vstd::string::StrSliceExecFns;

verus! {

/// A zero-based row index into the grid.
pub type Row = usize;

/// A zero-based column index into a grid row.
pub type Column = usize;

/// A classified structural mark at a grid position: a `+` corner, a `-`
/// horizontal edge piece, or a `|` vertical edge piece.
#[derive(Clone, Copy, Debug, PartialEq, Eq, Structural)]
pub enum SquarePart {
    Corner(Row, Column),
    Horizontal(Row, Column),
    Vertical(Row, Column),
}

impl SquarePart {
    /// The row the mark sits on.
    pub open spec fn row(self) -> Row {
        match self {
            SquarePart::Corner(r, _) => r,
            SquarePart::Horizontal(r, _) => r,
            SquarePart::Vertical(r, _) => r,
        }
    }

    /// The column the mark sits on.
    pub open spec fn col(self) -> Column {
        match self {
            SquarePart::Corner(_, c) => c,
            SquarePart::Horizontal(_, c) => c,
            SquarePart::Vertical(_, c) => c,
        }
    }

    /// Whether the mark sits exactly at the given position.
    pub open spec fn at(self, row: Row, col: Column) -> bool {
        self.row() == row && self.col() == col
    }
}

/// The mark (if any) that one character at position `(row, col)` produces:
/// `+`, `-` and `|` each yield their mark, every other character none.
pub open spec fn char_part(row: Row, col: Column, ch: char) -> Option<SquarePart> {
    if ch == '+' {
        Some(SquarePart::Corner(row, col))
    } else if ch == '-' {
        Some(SquarePart::Horizontal(row, col))
    } else if ch == '|' {
        Some(SquarePart::Vertical(row, col))
    } else {
        None
    }
}

/// The marks of the first `n` characters of row `row`, in column order.
pub open spec fn line_parts_upto(row: Row, line: Seq<char>, n: int) -> Seq<SquarePart>
    decreases n,
{
    if n <= 0 {
        Seq::empty()
    } else {
        line_parts_upto(row, line, n - 1) + match char_part(row, (n - 1) as Column, line[n - 1]) {
            Some(p) => seq![p],
            None => Seq::empty(),
        }
    }
}

/// All marks of row `row`, in column order.
pub open spec fn line_parts(row: Row, line: Seq<char>) -> Seq<SquarePart> {
    line_parts_upto(row, line, line.len() as int)
}

/// The marks of the first `n` rows of the grid, row-major.
pub open spec fn grid_parts_upto(grid: Seq<Seq<char>>, n: int) -> Seq<SquarePart>
    decreases n,
{
    if n <= 0 {
        Seq::empty()
    } else {
        grid_parts_upto(grid, n - 1) + line_parts((n - 1) as Row, grid[n - 1])
    }
}

/// All marks of the grid, in row-major then column-major scan order.
pub open spec fn grid_parts(grid: Seq<Seq<char>>) -> Seq<SquarePart> {
    grid_parts_upto(grid, grid.len() as int)
}

/// Scans the grid once and returns every structural mark, in row-major then
/// column-major order: `+` becomes a corner, `-` a horizontal edge piece,
/// `|` a vertical edge piece; every other character yields nothing.  As a
/// side fact of walking every row, each row's character count fits the
/// machine's index range.
pub fn get_all_square_parts(lines: &[&str]) -> (coords: Vec<SquarePart>)
    ensures
        coords@ == grid_parts(Seq::new(lines@.len(), |i: int| lines@[i]@)),
        forall|i: int| 0 <= i < lines@.len() ==> (#[trigger] lines@[i]@).len() <= usize::MAX,
{
    let ghost grid: Seq<Seq<char>> = Seq::new(lines@.len(), |i: int| lines@[i]@);
    let mut coords: Vec<SquarePart> = Vec::new();
    let mut row: usize = 0;
    while row < lines.len()
        invariant
            row <= lines@.len(),
            grid == Seq::new(lines@.len(), |i: int| lines@[i]@),
            coords@ == grid_parts_upto(grid, row as int),
            forall|i: int| 0 <= i < row ==> (#[trigger] lines@[i]@).len() <= usize::MAX,
        decreases lines@.len() - row,
    {
        let line: &str = lines[row];
        let line_len: usize = line.unicode_len();
        let mut column: usize = 0;
        while column < line_len
            invariant
                column <= line_len,
                line_len == line@.len(),
                row < lines@.len(),
                grid == Seq::new(lines@.len(), |i: int| lines@[i]@),
                line@ == grid[row as int],
                coords@ == grid_parts_upto(grid, row as int) + line_parts_upto(
                    row,
                    line@,
                    column as int,
                ),
            decreases line_len - column,
        {
            let ch: char = line.get_char(column);
            if ch == '+' {
                coords.push(SquarePart::Corner(row, column));
            } else if ch == '-' {
                coords.push(SquarePart::Horizontal(row, column));
            } else if ch == '|' {
                coords.push(SquarePart::Vertical(row, column));
            }
            column += 1;
        }
        proof {
            assert(coords@ == grid_parts_upto(grid, row as int + 1));
        }
        row += 1;
    }
    proof {
        assert(coords@ == grid_parts(grid));
    }
    coords
}

/// The first mark in `parts` at position `(row, col)`, starting the search
/// at index `i`; `None` if no mark from index `i` on sits there.
pub open spec fn find_part_from(
    parts: Seq<SquarePart>,
    i: int,
    row: Row,
    col: Column,
) -> Option<SquarePart>
    decreases parts.len() - i,
{
    if i < 0 || i >= parts.len() {
        None
    } else if parts[i].at(row, col) {
        Some(parts[i])
    } else {
        find_part_from(parts, i + 1, row, col)
    }
}

/// The first mark in `parts` at position `(row, col)`, or `None` if no mark
/// in the sequence sits there.
pub open spec fn find_part(parts: Seq<SquarePart>, row: Row, col: Column) -> Option<SquarePart> {
    find_part_from(parts, 0, row, col)
}

/// Looks up the first mark at the requested position in the scanned mark
/// list, or `None` when the position holds no mark (a blank, an unknown
/// character, or a position outside every row).
pub fn get_square_part(
    square_parts: &[SquarePart],
    requested_row: usize,
    requested_column: usize,
) -> (result: Option<SquarePart>)
    ensures
        result == find_part(square_parts@, requested_row, requested_column),
{
    let mut i: usize = 0;
    while i < square_parts.len()
        invariant
            i <= square_parts@.len(),
            find_part(square_parts@, requested_row, requested_column) == find_part_from(
                square_parts@,
                i as int,
                requested_row,
                requested_column,
            ),
        decreases square_parts@.len() - i,
    {
        let part: SquarePart = square_parts[i];
        let (row, column): (usize, usize) = match part {
            SquarePart::Corner(r, c) => (r, c),
            SquarePart::Horizontal(r, c) => (r, c),
            SquarePart::Vertical(r, c) => (r, c),
        };
        if row == requested_row && column == requested_column {
            return Some(part);
        }
        i += 1;
    }
    None
}

} // verus!
