//! How the database panel lays a table out as text: the width of each
//! column, a row padded to those widths, and the horizontal window of a
//! line that fits on screen. Widths count characters.

use vstd::prelude::*;
use crate::adb::strings_view;
use crate::database::rows_view;
use crate::text::{chars_of, extend_chars, string_from_chars};

verus! {

/// `n` spaces (none when `n` is not positive).
pub open spec fn spaces(n: int) -> Seq<char> {
    Seq::new(if n > 0 { n as nat } else { 0 }, |_i: int| ' ')
}

/// The width given for column `i`: 0 past the last width.
pub open spec fn width_at(widths: Seq<usize>, i: int) -> int {
    if 0 <= i < widths.len() {
        widths[i] as int
    } else {
        0
    }
}

/// A cell followed by the spaces that fill it out to width `w`.
pub open spec fn padded_cell(cell: Seq<char>, w: int) -> Seq<char> {
    cell + spaces(w - cell.len())
}

/// The cells of a row, each padded to its column's width, with `gutter`
/// spaces between neighbours.
pub open spec fn row_text(cells: Seq<Seq<char>>, widths: Seq<usize>, gutter: nat) -> Seq<char>
    decreases cells.len(),
{
    if cells.len() == 0 {
        seq![]
    } else {
        let i = cells.len() - 1;
        row_text(cells.drop_last(), widths, gutter) + (if i > 0 {
            spaces(gutter as int)
        } else {
            seq![]
        }) + padded_cell(cells[i], width_at(widths, i))
    }
}

/// Column `i` is `w` wide: as wide as its header and every cell of it, and
/// as wide as one of them.
pub open spec fn is_column_width(
    columns: Seq<Seq<char>>,
    rows: Seq<Seq<Seq<char>>>,
    i: int,
    w: int,
) -> bool {
    &&& columns[i].len() <= w
    &&& forall|r: int| 0 <= r < rows.len() && i < rows[r].len() ==> #[trigger] rows[r][i].len() <= w
    &&& (columns[i].len() == w || exists|r: int|
        0 <= r < rows.len() && i < rows[r].len() && #[trigger] rows[r][i].len() == w)
}

fn char_count(s: &str) -> (n: usize)
    ensures
        n == s@.len(),
{
    chars_of(s).len()
}

/// The width of each column: the widest of its header and its cells. Cells
/// past the last header are not counted.
pub fn compute_col_widths(columns: &[String], rows: &[Vec<String>]) -> (r: Vec<usize>)
    ensures
        r@.len() == columns@.len(),
        forall|i: int|
            0 <= i < columns@.len() ==> is_column_width(
                strings_view(columns@),
                rows_view(rows@),
                i,
                #[trigger] r@[i] as int,
            ),
{
    let ghost cols = strings_view(columns@);
    let ghost all = rows_view(rows@);
    let mut widths: Vec<usize> = Vec::new();
    let mut i: usize = 0;
    while i < columns.len()
        invariant
            i <= columns@.len(),
            cols == strings_view(columns@),
            widths@.len() == i,
            forall|k: int| 0 <= k < i ==> widths@[k] as int == #[trigger] cols[k].len(),
        decreases columns@.len() - i,
    {
        widths.push(char_count(columns[i].as_str()));
        i = i + 1;
    }
    let mut r: usize = 0;
    while r < rows.len()
        invariant
            r <= rows@.len(),
            cols == strings_view(columns@),
            all == rows_view(rows@),
            widths@.len() == columns@.len(),
            forall|k: int|
                0 <= k < columns@.len() ==> is_column_width(cols, all.take(r as int), k, #[trigger] widths@[k] as int),
        decreases rows@.len() - r,
    {
        let row = &rows[r];
        let ghost before = widths@;
        let mut c: usize = 0;
        while c < row.len()
            invariant
                r < rows@.len(),
                row == rows@[r as int],
                c <= row@.len(),
                cols == strings_view(columns@),
                all == rows_view(rows@),
                widths@.len() == columns@.len(),
                before.len() == columns@.len(),
                forall|k: int|
                    0 <= k < columns@.len() ==> is_column_width(cols, all.take(r as int), k, #[trigger] before[k] as int),
                forall|k: int|
                    0 <= k < columns@.len() ==> #[trigger] widths@[k] as int == if k < c && (
                    all[r as int][k].len() as int) > before[k] as int {
                        all[r as int][k].len() as int
                    } else {
                        before[k] as int
                    },
            decreases row@.len() - c,
        {
            if c < widths.len() {
                let n = char_count(row[c].as_str());
                assert(all[r as int][c as int] == row@[c as int]@);
                if n > widths[c] {
                    widths.set(c, n);
                }
            }
            c = c + 1;
        }
        proof {
            let next = all.take(r + 1);
            assert(next =~= all.take(r as int).push(all[r as int]));
            assert forall|k: int| 0 <= k < columns@.len() implies is_column_width(
                cols,
                next,
                k,
                #[trigger] widths@[k] as int,
            ) by {
                let w = widths@[k] as int;
                assert(is_column_width(cols, all.take(r as int), k, before[k] as int));
                assert forall|q: int| 0 <= q < next.len() && k < next[q].len() implies #[trigger] next[q][k].len()
                    <= w by {
                    if q < r {
                        assert(next[q] == all.take(r as int)[q]);
                    } else {
                        assert(next[q] == all[r as int]);
                        assert(all[r as int].len() == row@.len());
                    }
                }
                if cols[k].len() == w {
                } else if w == before[k] as int {
                    let q = choose|q: int|
                        0 <= q < all.take(r as int).len() && k < all.take(r as int)[q].len()
                            && #[trigger] all.take(r as int)[q][k].len() == before[k] as int;
                    assert(next[q] == all.take(r as int)[q]);
                } else {
                    assert(next[r as int] == all[r as int]);
                    assert(next[r as int][k].len() == w);
                }
            }
        }
        r = r + 1;
    }
    proof {
        assert(all.take(rows@.len() as int) =~= all);
    }
    widths
}

fn push_spaces(out: &mut Vec<char>, n: usize)
    ensures
        final(out)@ == old(out)@ + spaces(n as int),
{
    let mut k: usize = 0;
    while k < n
        invariant
            k <= n,
            out@ == old(out)@ + spaces(k as int),
        decreases n - k,
    {
        out.push(' ');
        proof {
            assert(spaces(k + 1) =~= spaces(k as int).push(' '));
            assert(old(out)@ + spaces(k + 1) =~= (old(out)@ + spaces(k as int)).push(' '));
        }
        k = k + 1;
    }
}

/// The row's cells padded to `widths` (0 past the last width) and joined by
/// `gutter` spaces.
pub fn format_row(cells: &[String], widths: &[usize], gutter: usize) -> (r: String)
    ensures
        r@ == row_text(strings_view(cells@), widths@, gutter as nat),
{
    let ghost cs = strings_view(cells@);
    let mut out: Vec<char> = Vec::new();
    let mut i: usize = 0;
    while i < cells.len()
        invariant
            i <= cells@.len(),
            cs == strings_view(cells@),
            out@ == row_text(cs.take(i as int), widths@, gutter as nat),
        decreases cells@.len() - i,
    {
        let ghost prev = out@;
        if i > 0 {
            push_spaces(&mut out, gutter);
        }
        let cell = chars_of(cells[i].as_str());
        extend_chars(&mut out, cell.as_slice());
        let w: usize = if i < widths.len() {
            widths[i]
        } else {
            0
        };
        let pad: usize = if w > cell.len() {
            w - cell.len()
        } else {
            0
        };
        push_spaces(&mut out, pad);
        proof {
            let next = cs.take(i + 1);
            assert(next.drop_last() =~= cs.take(i as int));
            assert(next[i as int] == cs[i as int]);
            assert(cs[i as int] == cells@[i as int]@);
            assert(spaces(pad as int) =~= spaces(w - cell@.len()));
            assert(out@ =~= row_text(next, widths@, gutter as nat));
        }
        i = i + 1;
    }
    proof {
        assert(cs.take(cells@.len() as int) =~= cs);
    }
    string_from_chars(out.as_slice())
}

/// The part of `line` that a window `width` characters wide shows when
/// scrolled `offset` characters to the right.
pub open spec fn window_of(line: Seq<char>, offset: int, width: int) -> Seq<char> {
    if width == 0 {
        seq![]
    } else {
        let n = line.len() as int;
        let end = if offset + width < n {
            offset + width
        } else {
            n
        };
        let start = if offset < n {
            offset
        } else {
            n
        };
        line.subrange(start, end)
    }
}

pub fn slice_line(line: &str, offset: usize, width: usize) -> (r: String)
    requires
        offset + width <= usize::MAX,
    ensures
        r@ == window_of(line@, offset as int, width as int),
{
    if width == 0 {
        let none: Vec<char> = Vec::new();
        return string_from_chars(none.as_slice());
    }
    let chars = chars_of(line);
    let end: usize = if offset + width < chars.len() {
        offset + width
    } else {
        chars.len()
    };
    let start: usize = if offset < chars.len() {
        offset
    } else {
        chars.len()
    };
    let part = slice_of(chars.as_slice(), start, end);
    string_from_chars(part.as_slice())
}

fn slice_of(s: &[char], start: usize, end: usize) -> (r: Vec<char>)
    requires
        start <= end <= s@.len(),
    ensures
        r@ == s@.subrange(start as int, end as int),
{
    let mut r: Vec<char> = Vec::new();
    let mut i: usize = start;
    while i < end
        invariant
            start <= i <= end <= s@.len(),
            r@ == s@.subrange(start as int, i as int),
        decreases end - i,
    {
        r.push(s[i]);
        proof {
            assert(s@.subrange(start as int, i + 1) =~= s@.subrange(start as int, i as int).push(s@[i as int]));
        }
        i = i + 1;
    }
    r
}


/// The length of a row of `n` cells that each fit their column: the
/// column widths and the gutters between them.
pub open spec fn row_width(widths: Seq<usize>, n: nat, gutter: nat) -> int
    decreases n,
{
    if n == 0 {
        0
    } else {
        row_width(widths, (n - 1) as nat, gutter) + (if n > 1 {
            gutter as int
        } else {
            0
        }) + width_at(widths, n - 1)
    }
}

proof fn lemma_row_text_len(cells: Seq<Seq<char>>, widths: Seq<usize>, gutter: nat)
    requires
        forall|i: int| 0 <= i < cells.len() ==> #[trigger] cells[i].len() <= width_at(widths, i),
    ensures
        row_text(cells, widths, gutter).len() == row_width(widths, cells.len(), gutter),
    decreases cells.len(),
{
    if cells.len() > 0 {
        let i = cells.len() - 1;
        assert forall|k: int| 0 <= k < cells.drop_last().len() implies #[trigger] cells.drop_last()[k].len()
            <= width_at(widths, k) by {
            assert(cells.drop_last()[k] == cells[k]);
        }
        lemma_row_text_len(cells.drop_last(), widths, gutter);
        assert(cells[i].len() <= width_at(widths, i));
    }
}

/// Laid out at the widths that `compute_col_widths` gives, every row with
/// a cell for each column is exactly as long as the header row: the
/// columns line up.
pub proof fn law_rows_line_up(
    columns: Seq<Seq<char>>,
    rows: Seq<Seq<Seq<char>>>,
    widths: Seq<usize>,
    gutter: nat,
    r: int,
)
    requires
        widths.len() == columns.len(),
        forall|i: int| 0 <= i < columns.len() ==> is_column_width(columns, rows, i, #[trigger] widths[i] as int),
        0 <= r < rows.len(),
        rows[r].len() == columns.len(),
    ensures
        row_text(rows[r], widths, gutter).len() == row_text(columns, widths, gutter).len(),
{
    assert forall|i: int| 0 <= i < rows[r].len() implies #[trigger] rows[r][i].len() <= width_at(widths, i) by {
        assert(is_column_width(columns, rows, i, widths[i] as int));
    }
    assert forall|i: int| 0 <= i < columns.len() implies #[trigger] columns[i].len() <= width_at(widths, i) by {
        assert(is_column_width(columns, rows, i, widths[i] as int));
    }
    lemma_row_text_len(rows[r], widths, gutter);
    lemma_row_text_len(columns, widths, gutter);
}
} // verus!
