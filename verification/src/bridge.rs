//! Proofs that the pipeline over the scanned mark list computes exactly
//! what the grid-level model states: looking a position up in the scan
//! equals classifying the grid character there, and the derived segments,
//! candidates and counts agree.

use vstd::prelude::*;
use crate::parts::Column;
use crate::parts::Row;
use crate::parts::SquarePart;
use crate::parts::char_part;
use crate::parts::find_part;
use crate::parts::find_part_from;
use crate::parts::grid_parts;
use crate::parts::grid_parts_upto;
use crate::parts::line_parts;
use crate::parts::line_parts_upto;
use crate::grid::drawn_count_upto;
use crate::grid::grid_combos;
use crate::grid::grid_combos_upto;
use crate::grid::h_edge_drawn;
use crate::grid::line_corners;
use crate::grid::line_corners_upto;
use crate::grid::mark_at;
use crate::grid::row_corners;
use crate::grid::square_drawn;
use crate::grid::v_edge_drawn;
use crate::segments::HorizontalLine;
use crate::segments::Square;
use crate::segments::VerticalLine;
use crate::segments::combos_upto;
use crate::segments::corner_cols;
use crate::segments::corner_cols_upto;
use crate::segments::line_combos;
use crate::validity::h_valid;
use crate::validity::square_valid;
use crate::validity::v_valid;
use crate::validity::valid_count_upto;

verus! {

/// A row-length bound on every row: the grid came from real text rows, so
/// each fits the machine's index range.
pub open spec fn rows_bounded(grid: Seq<Seq<char>>) -> bool {
    &&& grid.len() <= usize::MAX
    &&& forall|i: int| 0 <= i < grid.len() ==> (#[trigger] grid[i]).len() <= usize::MAX
}

proof fn lemma_find_from_concat_right(
    a: Seq<SquarePart>,
    b: Seq<SquarePart>,
    k: int,
    row: Row,
    col: Column,
)
    requires
        0 <= k <= b.len(),
    ensures
        find_part_from(a + b, a.len() + k, row, col) == find_part_from(b, k, row, col),
    decreases b.len() - k,
{
    if k < b.len() {
        assert((a + b)[a.len() + k] == b[k]);
        lemma_find_from_concat_right(a, b, k + 1, row, col);
    }
}

proof fn lemma_find_from_concat(
    a: Seq<SquarePart>,
    b: Seq<SquarePart>,
    i: int,
    row: Row,
    col: Column,
)
    requires
        0 <= i <= a.len(),
    ensures
        find_part_from(a + b, i, row, col) == match find_part_from(a, i, row, col) {
            Some(p) => Some(p),
            None => find_part(b, row, col),
        },
    decreases a.len() - i,
{
    if i == a.len() {
        lemma_find_from_concat_right(a, b, 0, row, col);
    } else {
        assert((a + b)[i] == a[i]);
        if !a[i].at(row, col) {
            lemma_find_from_concat(a, b, i + 1, row, col);
        }
    }
}

/// Searching a concatenation finds the first mark of the front part if one
/// is there, else the first mark of the back part.
proof fn lemma_find_concat(a: Seq<SquarePart>, b: Seq<SquarePart>, row: Row, col: Column)
    ensures
        find_part(a + b, row, col) == match find_part(a, row, col) {
            Some(p) => Some(p),
            None => find_part(b, row, col),
        },
{
    lemma_find_from_concat(a, b, 0, row, col);
}

/// Searching the marks of one row's first `n` characters finds exactly the
/// classification of the character at the searched position.
proof fn lemma_find_line(row: Row, line: Seq<char>, n: int, r: Row, c: Column)
    requires
        0 <= n <= line.len(),
        line.len() <= usize::MAX,
    ensures
        find_part(line_parts_upto(row, line, n), r, c) == if r == row && (c as int) < n {
            char_part(r, c, line[c as int])
        } else {
            Option::<SquarePart>::None
        },
    decreases n,
{
    if n > 0 {
        let prev = line_parts_upto(row, line, n - 1);
        let tail = match char_part(row, (n - 1) as Column, line[n - 1]) {
            Some(p) => seq![p],
            None => Seq::<SquarePart>::empty(),
        };
        lemma_find_line(row, line, n - 1, r, c);
        lemma_find_concat(prev, tail, r, c);
        match char_part(row, (n - 1) as Column, line[n - 1]) {
            Some(p) => {
                assert(find_part_from(tail, 1, r, c) == Option::<SquarePart>::None);
            },
            None => {
                assert(find_part(tail, r, c) == Option::<SquarePart>::None);
            },
        }
    }
}

/// Searching the marks of the grid's first `n` rows finds exactly the
/// classification of the grid character at the searched position.
proof fn lemma_find_grid(grid: Seq<Seq<char>>, n: int, r: Row, c: Column)
    requires
        0 <= n <= grid.len(),
        rows_bounded(grid),
    ensures
        find_part(grid_parts_upto(grid, n), r, c) == if (r as int) < n && (c as int) < grid[r as int].len() {
            char_part(r, c, grid[r as int][c as int])
        } else {
            Option::<SquarePart>::None
        },
    decreases n,
{
    if n > 0 {
        lemma_find_grid(grid, n - 1, r, c);
        lemma_find_concat(grid_parts_upto(grid, n - 1), line_parts((n - 1) as Row, grid[n - 1]), r, c);
        lemma_find_line((n - 1) as Row, grid[n - 1], grid[n - 1].len() as int, r, c);
    }
}

/// Looking a position up in the full scan equals reading the mark of the
/// grid character there.
pub proof fn lemma_find_is_mark_at(grid: Seq<Seq<char>>, r: Row, c: Column)
    requires
        rows_bounded(grid),
    ensures
        find_part(grid_parts(grid), r, c) == mark_at(grid, r, c),
{
    lemma_find_grid(grid, grid.len() as int, r, c);
}

proof fn lemma_corner_upto_concat_left(
    a: Seq<SquarePart>,
    b: Seq<SquarePart>,
    row: Row,
    k: int,
)
    requires
        0 <= k <= a.len(),
    ensures
        corner_cols_upto(a + b, row, k) == corner_cols_upto(a, row, k),
    decreases k,
{
    if k > 0 {
        assert((a + b)[k - 1] == a[k - 1]);
        lemma_corner_upto_concat_left(a, b, row, k - 1);
    }
}

proof fn lemma_corner_upto_concat_right(
    a: Seq<SquarePart>,
    b: Seq<SquarePart>,
    row: Row,
    m: int,
)
    requires
        0 <= m <= b.len(),
    ensures
        corner_cols_upto(a + b, row, a.len() + m) == corner_cols_upto(a, row, a.len() as int)
            + corner_cols_upto(b, row, m),
    decreases m,
{
    if m == 0 {
        lemma_corner_upto_concat_left(a, b, row, a.len() as int);
        assert(corner_cols_upto(a, row, a.len() as int) + corner_cols_upto(b, row, 0)
            =~= corner_cols_upto(a, row, a.len() as int));
    } else {
        assert((a + b)[a.len() + m - 1] == b[m - 1]);
        lemma_corner_upto_concat_right(a, b, row, m - 1);
        assert(corner_cols_upto(a, row, a.len() as int) + corner_cols_upto(b, row, m)
            =~= (corner_cols_upto(a, row, a.len() as int) + corner_cols_upto(b, row, m - 1))
            + match b[m - 1] {
            SquarePart::Corner(r2, c2) => if r2 == row {
                seq![c2]
            } else {
                Seq::<Column>::empty()
            },
            _ => Seq::<Column>::empty(),
        });
    }
}

/// The corner columns of a concatenation are those of the front part
/// followed by those of the back part.
proof fn lemma_corner_concat(a: Seq<SquarePart>, b: Seq<SquarePart>, row: Row)
    ensures
        corner_cols(a + b, row) == corner_cols(a, row) + corner_cols(b, row),
{
    lemma_corner_upto_concat_right(a, b, row, b.len() as int);
    assert((a + b).len() == a.len() + b.len());
}

/// The corner columns found in the marks of one row's first `n` characters
/// are the columns of its `+` characters when the row matches, none
/// otherwise.
proof fn lemma_corner_line(row2: Row, line: Seq<char>, n: int, row: Row)
    requires
        0 <= n <= line.len(),
        line.len() <= usize::MAX,
    ensures
        corner_cols(line_parts_upto(row2, line, n), row) == if row2 == row {
            line_corners_upto(line, n)
        } else {
            Seq::<Column>::empty()
        },
    decreases n,
{
    if n > 0 {
        let prev = line_parts_upto(row2, line, n - 1);
        let tail = match char_part(row2, (n - 1) as Column, line[n - 1]) {
            Some(p) => seq![p],
            None => Seq::<SquarePart>::empty(),
        };
        lemma_corner_line(row2, line, n - 1, row);
        lemma_corner_concat(prev, tail, row);
        assert(corner_cols(tail, row) == if row2 == row && line[n - 1] == '+' {
            seq![(n - 1) as Column]
        } else {
            Seq::<Column>::empty()
        }) by {
            if tail.len() == 1 {
                assert(corner_cols_upto(tail, row, 1) == corner_cols_upto(tail, row, 0) + match tail[0] {
                    SquarePart::Corner(r2, c2) => if r2 == row {
                        seq![c2]
                    } else {
                        Seq::<Column>::empty()
                    },
                    _ => Seq::<Column>::empty(),
                });
                assert(corner_cols(tail, row) =~= match tail[0] {
                    SquarePart::Corner(r2, c2) => if r2 == row {
                        seq![c2]
                    } else {
                        Seq::<Column>::empty()
                    },
                    _ => Seq::<Column>::empty(),
                });
            }
        }
        if row2 == row {
            assert(corner_cols(line_parts_upto(row2, line, n), row) =~= line_corners_upto(line, n));
        } else {
            assert(corner_cols(line_parts_upto(row2, line, n), row) =~= Seq::<Column>::empty());
        }
    }
}

/// The corner columns found in the scan of the grid's first `n` rows are
/// the `+` columns of the searched row when it lies below `n`, none
/// otherwise.
proof fn lemma_corner_grid(grid: Seq<Seq<char>>, n: int, row: Row)
    requires
        0 <= n <= grid.len(),
        rows_bounded(grid),
    ensures
        corner_cols(grid_parts_upto(grid, n), row) == if (row as int) < n {
            line_corners(grid[row as int])
        } else {
            Seq::<Column>::empty()
        },
    decreases n,
{
    if n > 0 {
        lemma_corner_grid(grid, n - 1, row);
        lemma_corner_concat(grid_parts_upto(grid, n - 1), line_parts((n - 1) as Row, grid[n - 1]), row);
        lemma_corner_line((n - 1) as Row, grid[n - 1], grid[n - 1].len() as int, row);
        if (row as int) < n {
            assert(corner_cols(grid_parts_upto(grid, n), row) =~= line_corners(grid[row as int]));
        } else {
            assert(corner_cols(grid_parts_upto(grid, n), row) =~= Seq::<Column>::empty());
        }
    }
}

proof fn lemma_combos_upto_bridge(grid: Seq<Seq<char>>, n: int)
    requires
        0 <= n <= grid.len(),
        rows_bounded(grid),
    ensures
        combos_upto(grid_parts(grid), n) == grid_combos_upto(grid, n),
    decreases n,
{
    if n > 0 {
        lemma_combos_upto_bridge(grid, n - 1);
        lemma_corner_grid(grid, grid.len() as int, (n - 1) as Row);
    }
}

/// The segments enumerated from the scan are exactly the grid's segments.
pub proof fn lemma_combos_bridge(grid: Seq<Seq<char>>, lines_len: usize)
    requires
        lines_len == grid.len(),
        rows_bounded(grid),
    ensures
        line_combos(grid_parts(grid), lines_len) == grid_combos(grid),
{
    lemma_combos_upto_bridge(grid, grid.len() as int);
}

/// A horizontal side validates against the scan exactly when it is drawn
/// in the grid.
proof fn lemma_h_valid_bridge(grid: Seq<Seq<char>>, line: HorizontalLine)
    requires
        rows_bounded(grid),
    ensures
        h_valid(grid_parts(grid), line) == h_edge_drawn(grid, line),
{
    assert forall|c: Column| line.1 <= c < line.2 implies #[trigger] find_part(
        grid_parts(grid),
        line.0,
        c,
    ) == mark_at(grid, line.0, c) by {
        lemma_find_is_mark_at(grid, line.0, c);
    }
    if h_valid(grid_parts(grid), line) {
        assert forall|c: Column| line.1 <= c < line.2 implies ((#[trigger] mark_at(
            grid,
            line.0,
            c,
        )) matches Some(p) && !(p is Vertical)) by {
            assert(find_part(grid_parts(grid), line.0, c) == mark_at(grid, line.0, c));
        }
    }
    if h_edge_drawn(grid, line) {
        assert forall|c: Column| line.1 <= c < line.2 implies ((#[trigger] find_part(
            grid_parts(grid),
            line.0,
            c,
        )) matches Some(p) && !(p is Vertical)) by {
            assert(mark_at(grid, line.0, c) matches Some(p) && !(p is Vertical));
        }
    }
}

/// A vertical side validates against the scan exactly when it is drawn in
/// the grid.
proof fn lemma_v_valid_bridge(grid: Seq<Seq<char>>, line: VerticalLine)
    requires
        rows_bounded(grid),
    ensures
        v_valid(grid_parts(grid), line) == v_edge_drawn(grid, line),
{
    assert forall|r: Row| line.1 <= r < line.2 implies #[trigger] find_part(
        grid_parts(grid),
        r,
        line.0,
    ) == mark_at(grid, r, line.0) by {
        lemma_find_is_mark_at(grid, r, line.0);
    }
    if v_valid(grid_parts(grid), line) {
        assert forall|r: Row| line.1 <= r < line.2 implies ((#[trigger] mark_at(
            grid,
            r,
            line.0,
        )) matches Some(p) && !(p is Horizontal)) by {
            assert(find_part(grid_parts(grid), r, line.0) == mark_at(grid, r, line.0));
        }
    }
    if v_edge_drawn(grid, line) {
        assert forall|r: Row| line.1 <= r < line.2 implies ((#[trigger] find_part(
            grid_parts(grid),
            r,
            line.0,
        )) matches Some(p) && !(p is Horizontal)) by {
            assert(mark_at(grid, r, line.0) matches Some(p) && !(p is Horizontal));
        }
    }
}

/// A candidate validates against the scan exactly when it is drawn in the
/// grid.
pub proof fn lemma_square_valid_bridge(grid: Seq<Seq<char>>, square: Square)
    requires
        rows_bounded(grid),
    ensures
        square_valid(grid_parts(grid), square) == square_drawn(grid, square),
{
    lemma_h_valid_bridge(grid, square.top_line);
    lemma_h_valid_bridge(grid, square.bottom_line);
    lemma_v_valid_bridge(grid, (square.top_line.1, square.top_line.0, square.bottom_line.0));
    lemma_v_valid_bridge(grid, (square.top_line.2, square.top_line.0, square.bottom_line.0));
}

/// The validation count over the scan equals the drawn count over the
/// grid.
pub proof fn lemma_drawn_count_bridge(grid: Seq<Seq<char>>, squares: Seq<Square>, n: int)
    requires
        n <= squares.len(),
        rows_bounded(grid),
    ensures
        valid_count_upto(grid_parts(grid), squares, n) == drawn_count_upto(grid, squares, n),
    decreases n,
{
    if n > 0 {
        lemma_drawn_count_bridge(grid, squares, n - 1);
        lemma_square_valid_bridge(grid, squares[n - 1]);
    }
}

} // verus!
