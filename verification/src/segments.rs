//! The candidate generator: corner columns per row, all same-row corner
//! pairs as horizontal segments, and all aligned segment pairs as
//! rectangle candidates.

use vstd::prelude::*;
use crate::parts::Column;
use crate::parts::Row;
use crate::parts::SquarePart;

verus! {

/// The column of the left corner of a horizontal segment.
pub type LeftCorner = usize;

/// The column of the right corner of a horizontal segment.
pub type RightCorner = usize;

/// The row of the top corner of a vertical segment.
pub type TopCorner = usize;

/// The row of the bottom corner of a vertical segment.
pub type BottomCorner = usize;

/// A tentative horizontal side: a row and the columns of its two corners.
pub type HorizontalLine = (Row, LeftCorner, RightCorner);

/// A tentative vertical side: a column and the rows of its two corners.
pub type VerticalLine = (Column, TopCorner, BottomCorner);

/// A rectangle candidate: two horizontal segments on different rows with
/// identical left and right columns, hypothesized as top and bottom sides.
#[derive(Clone, Copy, Debug, PartialEq, Eq)]
pub struct Square {
    pub top_line: HorizontalLine,
    pub bottom_line: HorizontalLine,
}

/// The columns of the corner marks among the first `n` entries of `parts`
/// whose row is `row`, in the order the entries occur.
pub open spec fn corner_cols_upto(parts: Seq<SquarePart>, row: Row, n: int) -> Seq<Column>
    decreases n,
{
    if n <= 0 {
        Seq::empty()
    } else {
        corner_cols_upto(parts, row, n - 1) + match parts[n - 1] {
            SquarePart::Corner(r, c) => if r == row {
                seq![c]
            } else {
                Seq::empty()
            },
            _ => Seq::empty(),
        }
    }
}

/// The columns of the corner marks of `parts` on row `row`, in the order
/// the marks occur in `parts` (ascending columns for a scanned grid).
pub open spec fn corner_cols(parts: Seq<SquarePart>, row: Row) -> Seq<Column> {
    corner_cols_upto(parts, row, parts.len() as int)
}

/// Collects the columns of the corner marks on the given row.  The result
/// is always present: a row without corners yields an empty list.
pub fn get_square_dots_in_line(square_parts: &[SquarePart], row: usize) -> (dots: Option<
    Vec<usize>,
>)
    ensures
        dots matches Some(v) && v@ == corner_cols(square_parts@, row),
{
    let mut dots: Vec<usize> = Vec::new();
    let mut i: usize = 0;
    while i < square_parts.len()
        invariant
            i <= square_parts@.len(),
            dots@ == corner_cols_upto(square_parts@, row, i as int),
        decreases square_parts@.len() - i,
    {
        if let SquarePart::Corner(square_row, square_column) = square_parts[i] {
            if row == square_row {
                dots.push(square_column);
            }
        }
        i += 1;
    }
    Some(dots)
}

/// The segments pairing `dots[i]` with each of `dots[j]`, `dots[j + 1]`,
/// ..., on row `row`, in that order.
pub open spec fn pairs_with(row: Row, dots: Seq<Column>, i: int, j: int) -> Seq<HorizontalLine>
    decreases dots.len() - j,
{
    if i < 0 || i >= dots.len() || j < 0 || j >= dots.len() {
        Seq::empty()
    } else {
        seq![(row, dots[i], dots[j])] + pairs_with(row, dots, i, j + 1)
    }
}

/// The segments pairing each of `dots[i]`, `dots[i + 1]`, ... with every
/// later entry, on row `row`, in generation order.
pub open spec fn pairs_from(row: Row, dots: Seq<Column>, i: int) -> Seq<HorizontalLine>
    decreases dots.len() - i,
{
    if i < 0 || i >= dots.len() {
        Seq::empty()
    } else {
        pairs_with(row, dots, i, i + 1) + pairs_from(row, dots, i + 1)
    }
}

/// All ordered pairs of the corner columns `dots` on row `row`: every
/// `(dots[i], dots[j])` with `i < j`, earlier `i` first.
pub open spec fn row_pairs(row: Row, dots: Seq<Column>) -> Seq<HorizontalLine> {
    pairs_from(row, dots, 0)
}

/// The horizontal segments of the first `n` rows, row by row.
pub open spec fn combos_upto(parts: Seq<SquarePart>, n: int) -> Seq<HorizontalLine>
    decreases n,
{
    if n <= 0 {
        Seq::empty()
    } else {
        combos_upto(parts, n - 1) + row_pairs((n - 1) as Row, corner_cols(parts, (n - 1) as Row))
    }
}

/// The horizontal segments of rows `0 .. lines_len`: for each row, every
/// ordered pair of its corner columns, rows in ascending order.
pub open spec fn line_combos(parts: Seq<SquarePart>, lines_len: usize) -> Seq<HorizontalLine> {
    combos_upto(parts, lines_len as int)
}

/// Enumerates every horizontal segment: for each row below `lines_len`,
/// every ordered pair of corner columns on that row, including
/// non-adjacent pairs.
pub fn get_line_combos(square_parts: &[SquarePart], lines_len: usize) -> (result: Vec<
    HorizontalLine,
>)
    ensures
        result@ == line_combos(square_parts@, lines_len),
{
    let mut combos: Vec<HorizontalLine> = Vec::new();
    let mut line: usize = 0;
    while line < lines_len
        invariant
            line <= lines_len,
            combos@ == combos_upto(square_parts@, line as int),
        decreases lines_len - line,
    {
        if let Some(dots) = get_square_dots_in_line(square_parts, line) {
            let mut idx: usize = 0;
            while idx < dots.len()
                invariant
                    idx <= dots@.len(),
                    dots@ == corner_cols(square_parts@, line),
                    combos@ + pairs_from(line, dots@, idx as int) == combos_upto(
                        square_parts@,
                        line as int,
                    ) + pairs_from(line, dots@, 0),
                decreases dots@.len() - idx,
            {
                let column: usize = dots[idx];
                proof {
                    assert(combos@ + pairs_with(line, dots@, idx as int, idx as int + 1)
                        + pairs_from(line, dots@, idx as int + 1) =~= combos@ + pairs_from(
                        line,
                        dots@,
                        idx as int,
                    ));
                }
                let mut next_idx: usize = idx + 1;
                while next_idx < dots.len()
                    invariant
                        idx < next_idx <= dots@.len(),
                        dots@ == corner_cols(square_parts@, line),
                        combos@ + pairs_with(line, dots@, idx as int, next_idx as int)
                            + pairs_from(line, dots@, idx as int + 1) == combos_upto(
                            square_parts@,
                            line as int,
                        ) + pairs_from(line, dots@, 0),
                        column == dots@[idx as int],
                    decreases dots@.len() - next_idx,
                {
                    let next_dot_column: usize = dots[next_idx];
                    proof {
                        assert(combos@.push((line, column, next_dot_column)) + pairs_with(
                            line,
                            dots@,
                            idx as int,
                            next_idx as int + 1,
                        ) + pairs_from(line, dots@, idx as int + 1) =~= combos@ + pairs_with(
                            line,
                            dots@,
                            idx as int,
                            next_idx as int,
                        ) + pairs_from(line, dots@, idx as int + 1));
                        assert(combos@ + pairs_with(line, dots@, idx as int, next_idx as int)
                            + pairs_from(line, dots@, idx as int + 1) =~= combos@ + (pairs_with(
                            line,
                            dots@,
                            idx as int,
                            next_idx as int,
                        ) + pairs_from(line, dots@, idx as int + 1)));
                    }
                    combos.push((line, column, next_dot_column));
                    next_idx += 1;
                }
                proof {
                    assert(combos@ + pairs_with(line, dots@, idx as int, dots@.len() as int)
                        + pairs_from(line, dots@, idx as int + 1) =~= combos@ + pairs_from(
                        line,
                        dots@,
                        idx as int + 1,
                    ));
                }
                idx += 1;
            }
            proof {
                assert(combos@ + pairs_from(line, dots@, dots@.len() as int) =~= combos@);
                assert(combos@ =~= combos_upto(square_parts@, line as int + 1));
            }
        }
        line += 1;
    }
    combos
}

/// The candidate (if any) made of segments `combos[i]` (top) and
/// `combos[j]` (bottom): present when the two rows differ and the left and
/// right columns agree.
pub open spec fn pairing(combos: Seq<HorizontalLine>, i: int, j: int) -> Seq<Square> {
    if combos[j].0 != combos[i].0 && combos[i].1 == combos[j].1 && combos[i].2 == combos[j].2 {
        seq![Square { top_line: combos[i], bottom_line: combos[j] }]
    } else {
        Seq::empty()
    }
}

/// The candidates pairing segment `i` with each of segments `j`,
/// `j + 1`, ..., in that order.
pub open spec fn cands_with(combos: Seq<HorizontalLine>, i: int, j: int) -> Seq<Square>
    decreases combos.len() - j,
{
    if i < 0 || i >= combos.len() || j < 0 || j >= combos.len() {
        Seq::empty()
    } else {
        pairing(combos, i, j) + cands_with(combos, i, j + 1)
    }
}

/// The candidates pairing each of segments `i`, `i + 1`, ... with every
/// later segment, in generation order.
pub open spec fn cands_from(combos: Seq<HorizontalLine>, i: int) -> Seq<Square>
    decreases combos.len() - i,
{
    if i < 0 || i >= combos.len() {
        Seq::empty()
    } else {
        cands_with(combos, i, i + 1) + cands_from(combos, i + 1)
    }
}

/// All rectangle candidates over the segment sequence `combos`: every pair
/// `(combos[i], combos[j])` with `i < j`, different rows, and identical
/// left and right columns, earlier `i` first.
pub open spec fn candidates(combos: Seq<HorizontalLine>) -> Seq<Square> {
    cands_from(combos, 0)
}

/// The rectangle candidates of the grid whose marks are `parts` and whose
/// row count is `lines_len`.
pub open spec fn squares_of(parts: Seq<SquarePart>, lines_len: usize) -> Seq<Square> {
    candidates(line_combos(parts, lines_len))
}

/// A candidate as the generator emits it: two segments with identical
/// left and right columns, the top line on a strictly earlier row.
pub open spec fn candidate_well_formed(square: Square) -> bool {
    &&& square.top_line.0 < square.bottom_line.0
    &&& square.top_line.1 == square.bottom_line.1
    &&& square.top_line.2 == square.bottom_line.2
}

/// Segment rows never descend along the sequence.
pub open spec fn rows_ascending(combos: Seq<HorizontalLine>) -> bool {
    forall|a: int, b: int|
        0 <= a <= b < combos.len() ==> (#[trigger] combos[a]).0 <= (#[trigger] combos[b]).0
}

proof fn lemma_pairs_with_rows(row: Row, dots: Seq<Column>, i: int, j: int)
    ensures
        forall|k: int|
            0 <= k < pairs_with(row, dots, i, j).len() ==> (#[trigger] pairs_with(
                row,
                dots,
                i,
                j,
            )[k]).0 == row,
    decreases dots.len() - j,
{
    if !(i < 0 || i >= dots.len() || j < 0 || j >= dots.len()) {
        lemma_pairs_with_rows(row, dots, i, j + 1);
        let s = pairs_with(row, dots, i, j);
        let rest = pairs_with(row, dots, i, j + 1);
        assert forall|k: int| 0 <= k < s.len() implies (#[trigger] s[k]).0 == row by {
            if k == 0 {
                assert(s[0] == (row, dots[i], dots[j]));
            } else {
                assert(s[k] == rest[k - 1]);
            }
        }
    }
}

proof fn lemma_pairs_from_rows(row: Row, dots: Seq<Column>, i: int)
    ensures
        forall|k: int|
            0 <= k < pairs_from(row, dots, i).len() ==> (#[trigger] pairs_from(row, dots, i)[k]).0
                == row,
    decreases dots.len() - i,
{
    if !(i < 0 || i >= dots.len()) {
        lemma_pairs_with_rows(row, dots, i, i + 1);
        lemma_pairs_from_rows(row, dots, i + 1);
        let s = pairs_from(row, dots, i);
        let first = pairs_with(row, dots, i, i + 1);
        let rest = pairs_from(row, dots, i + 1);
        assert forall|k: int| 0 <= k < s.len() implies (#[trigger] s[k]).0 == row by {
            if k < first.len() {
                assert(s[k] == first[k]);
            } else {
                assert(s[k] == rest[k - first.len()]);
            }
        }
    }
}

/// The segment sequence of the first `n` rows holds rows below `n`, in
/// ascending order.
pub proof fn lemma_combos_upto_rows(parts: Seq<SquarePart>, n: int)
    requires
        0 <= n <= usize::MAX,
    ensures
        forall|k: int|
            0 <= k < combos_upto(parts, n).len() ==> (#[trigger] combos_upto(parts, n)[k]).0 < n,
        rows_ascending(combos_upto(parts, n)),
    decreases n,
{
    if n > 0 {
        lemma_combos_upto_rows(parts, n - 1);
        lemma_pairs_from_rows((n - 1) as Row, corner_cols(parts, (n - 1) as Row), 0);
        let s = combos_upto(parts, n);
        let head = combos_upto(parts, n - 1);
        let tail = row_pairs((n - 1) as Row, corner_cols(parts, (n - 1) as Row));
        assert forall|k: int| 0 <= k < s.len() implies (#[trigger] s[k]).0 < n by {
            if k < head.len() {
                assert(s[k] == head[k]);
            } else {
                assert(s[k] == tail[k - head.len()]);
            }
        }
        assert forall|a: int, b: int| 0 <= a <= b < s.len() implies (#[trigger] s[a]).0 <= (
        #[trigger] s[b]).0 by {
            if a < head.len() {
                assert(s[a] == head[a]);
            } else {
                assert(s[a] == tail[a - head.len()]);
            }
            if b < head.len() {
                assert(s[b] == head[b]);
            } else {
                assert(s[b] == tail[b - head.len()]);
            }
        }
    }
}

proof fn lemma_cands_with_well_formed(combos: Seq<HorizontalLine>, i: int, j: int)
    requires
        rows_ascending(combos),
        0 <= i < j,
    ensures
        forall|k: int|
            0 <= k < cands_with(combos, i, j).len() ==> candidate_well_formed(
                #[trigger] cands_with(combos, i, j)[k],
            ),
    decreases combos.len() - j,
{
    if !(i < 0 || i >= combos.len() || j < 0 || j >= combos.len()) {
        lemma_cands_with_well_formed(combos, i, j + 1);
        let s = cands_with(combos, i, j);
        let head = pairing(combos, i, j);
        let rest = cands_with(combos, i, j + 1);
        assert forall|k: int| 0 <= k < s.len() implies candidate_well_formed(
            #[trigger] s[k],
        ) by {
            if k < head.len() {
                assert(s[k] == head[k]);
                assert(combos[i].0 <= combos[j].0);
            } else {
                assert(s[k] == rest[k - head.len()]);
            }
        }
    }
}

proof fn lemma_cands_from_well_formed(combos: Seq<HorizontalLine>, i: int)
    requires
        rows_ascending(combos),
    ensures
        forall|k: int|
            0 <= k < cands_from(combos, i).len() ==> candidate_well_formed(
                #[trigger] cands_from(combos, i)[k],
            ),
    decreases combos.len() - i,
{
    if !(i < 0 || i >= combos.len()) {
        lemma_cands_with_well_formed(combos, i, i + 1);
        lemma_cands_from_well_formed(combos, i + 1);
        let s = cands_from(combos, i);
        let head = cands_with(combos, i, i + 1);
        let rest = cands_from(combos, i + 1);
        assert forall|k: int| 0 <= k < s.len() implies candidate_well_formed(
            #[trigger] s[k],
        ) by {
            if k < head.len() {
                assert(s[k] == head[k]);
            } else {
                assert(s[k] == rest[k - head.len()]);
            }
        }
    }
}

/// Every candidate over a row-ascending segment sequence is well formed:
/// the pairing skips same-row segments and keeps only aligned columns, so
/// the top line lies strictly above the bottom line.
pub proof fn lemma_candidates_well_formed(combos: Seq<HorizontalLine>)
    requires
        rows_ascending(combos),
    ensures
        forall|k: int|
            0 <= k < candidates(combos).len() ==> candidate_well_formed(
                #[trigger] candidates(combos)[k],
            ),
{
    lemma_cands_from_well_formed(combos, 0);
}

/// Every candidate the generator emits is well formed: segments come row
/// by row, so their rows ascend, and the pairing skips same-row pairs.
pub proof fn lemma_squares_well_formed(parts: Seq<SquarePart>, lines_len: usize)
    ensures
        forall|k: int|
            0 <= k < squares_of(parts, lines_len).len() ==> candidate_well_formed(
                #[trigger] squares_of(parts, lines_len)[k],
            ),
{
    lemma_combos_upto_rows(parts, lines_len as int);
    lemma_candidates_well_formed(line_combos(parts, lines_len));
}

/// Pairs every two horizontal segments on different rows with identical
/// left and right columns into a rectangle candidate; the earlier segment
/// becomes the top line.
pub fn get_squares(square_parts: &[SquarePart], lines_len: usize) -> (result: Vec<Square>)
    ensures
        result@ == squares_of(square_parts@, lines_len),
{
    let line_combos = get_line_combos(square_parts, lines_len);
    let mut candidate_squares: Vec<Square> = Vec::new();
    let mut idx: usize = 0;
    while idx < line_combos.len()
        invariant
            idx <= line_combos@.len(),
            line_combos@ == crate::segments::line_combos(square_parts@, lines_len),
            candidate_squares@ + cands_from(line_combos@, idx as int) == candidates(line_combos@),
        decreases line_combos@.len() - idx,
    {
        let (row, left_column, right_column): HorizontalLine = line_combos[idx];
        proof {
            assert(candidate_squares@ + cands_with(line_combos@, idx as int, idx as int + 1)
                + cands_from(line_combos@, idx as int + 1) =~= candidate_squares@ + cands_from(
                line_combos@,
                idx as int,
            ));
        }
        let mut next_idx: usize = idx + 1;
        while next_idx < line_combos.len()
            invariant
                idx < next_idx <= line_combos@.len(),
                candidate_squares@ + cands_with(line_combos@, idx as int, next_idx as int)
                    + cands_from(line_combos@, idx as int + 1) == candidates(line_combos@),
                (row, left_column, right_column) == line_combos@[idx as int],
            decreases line_combos@.len() - next_idx,
        {
            let (bottom_row, bottom_left_column, bottom_right_column): HorizontalLine =
                line_combos[next_idx];
            if bottom_row != row && left_column == bottom_left_column && right_column
                == bottom_right_column {
                let square = Square {
                    top_line: (row, left_column, right_column),
                    bottom_line: (bottom_row, bottom_left_column, bottom_right_column),
                };
                proof {
                    assert(candidate_squares@.push(square) + cands_with(
                        line_combos@,
                        idx as int,
                        next_idx as int + 1,
                    ) + cands_from(line_combos@, idx as int + 1) =~= candidate_squares@
                        + cands_with(line_combos@, idx as int, next_idx as int) + cands_from(
                        line_combos@,
                        idx as int + 1,
                    ));
                }
                candidate_squares.push(square);
            } else {
                proof {
                    assert(candidate_squares@ + cands_with(
                        line_combos@,
                        idx as int,
                        next_idx as int + 1,
                    ) + cands_from(line_combos@, idx as int + 1) =~= candidate_squares@
                        + cands_with(line_combos@, idx as int, next_idx as int) + cands_from(
                        line_combos@,
                        idx as int + 1,
                    ));
                }
            }
            next_idx += 1;
        }
        proof {
            assert(candidate_squares@ + cands_with(
                line_combos@,
                idx as int,
                line_combos@.len() as int,
            ) + cands_from(line_combos@, idx as int + 1) =~= candidate_squares@ + cands_from(
                line_combos@,
                idx as int + 1,
            ));
        }
        idx += 1;
    }
    proof {
        assert(candidate_squares@ + cands_from(line_combos@, line_combos@.len() as int)
            =~= candidate_squares@);
    }
    candidate_squares
}

} // verus!
