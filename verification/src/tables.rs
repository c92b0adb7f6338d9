//! GFM tables in a note: which lines form a table, the cells of a row, and
//! the column widths and alignments its rows give.
use vstd::prelude::*;

use crate::content_layout::{cell_visible_width, shown_text};
use crate::keys::{slice_chars, split_pieces, split_ranges};
use crate::session::{separator_alignment, Alignment, TableMetadata};
use crate::text::{chars_of, string_of_range, string_views, trim, trim_bounds};
use crate::width::unicode_str_width;

verus! {

/// A line of a table: once trimmed it starts and ends with `|`.
pub open spec fn is_table_line(line: Seq<char>) -> bool {
    let t = trim(line);
    t.len() > 0 && t[0] == '|' && t[t.len() - 1] == '|'
}

/// The cells of a table line: what lies between its outer bars, split at
/// every `|`, each trimmed.
pub open spec fn row_cells(line: Seq<char>) -> Seq<Seq<char>> {
    let t = trim(line);
    split_pieces(t.subrange(1, t.len() - 1), '|', 0, 0).map_values(|c: Seq<char>| trim(c))
}

/// A separator cell: nonempty, only `-` and `:`.
pub open spec fn is_separator_cell(c: Seq<char>) -> bool {
    c.len() > 0 && forall|i: int| 0 <= i < c.len() ==> c[i] == '-' || c[i] == ':'
}

/// A separator row: every cell is a separator cell.
pub open spec fn is_separator_row(cells: Seq<Seq<char>>) -> bool {
    forall|k: int| 0 <= k < cells.len() ==> is_separator_cell(#[trigger] cells[k])
}

/// Whether a line belongs to a table.
pub fn table_line(line: &str) -> (b: bool)
    ensures
        b == is_table_line(line@),
{
    let cs = chars_of(line);
    let (a, e) = trim_bounds(cs.as_slice());
    a < e && cs[a] == '|' && cs[e - 1] == '|'
}

/// The end of the table that starts at line `start`: the first line from
/// `start` on that is not a table line, or the number of lines.
pub fn table_block_end(lines: &Vec<String>, start: usize) -> (end: usize)
    requires
        start <= lines@.len(),
    ensures
        start <= end <= lines@.len(),
        forall|k: int| start <= k < end ==> is_table_line(#[trigger] lines@[k]@),
        end < lines@.len() ==> !is_table_line(lines@[end as int]@),
{
    let mut end = start;
    while end < lines.len() && table_line(lines[end].as_str())
        invariant
            start <= end <= lines@.len(),
            forall|k: int| start <= k < end ==> is_table_line(#[trigger] lines@[k]@),
        decreases lines@.len() - end,
    {
        end += 1;
    }
    end
}

fn separator_cell(c: &Vec<char>) -> (b: bool)
    ensures
        b == is_separator_cell(c@),
{
    if c.len() == 0 {
        return false;
    }
    let mut i: usize = 0;
    while i < c.len()
        invariant
            i <= c@.len(),
            forall|j: int| 0 <= j < i ==> c@[j] == '-' || c@[j] == ':',
        decreases c@.len() - i,
    {
        if c[i] != '-' && c[i] != ':' {
            return false;
        }
        i += 1;
    }
    true
}

/// The cells of a table line and whether it is the separator row. A line
/// that trims to a single `|` has no inside to split and is left out.
pub fn table_row(line: &str) -> (r: (Vec<String>, bool))
    requires
        is_table_line(line@),
        trim(line@).len() >= 2,
    ensures
        string_views(r.0@) == row_cells(line@),
        r.1 == is_separator_row(row_cells(line@)),
{
    let cs = chars_of(line);
    let (a, e) = trim_bounds(cs.as_slice());
    let inner = slice_chars(cs.as_slice(), a + 1, e - 1);
    let ghost t = trim(line@);
    assert(inner@ =~= t.subrange(1, t.len() - 1));
    let ranges = split_ranges(inner.as_slice(), '|');
    let ghost pieces = split_pieces(inner@, '|', 0, 0);
    let mut cells: Vec<String> = Vec::new();
    let mut separator = true;
    let mut k: usize = 0;
    while k < ranges.len()
        invariant
            k <= ranges@.len() == pieces.len(),
            forall|j: int|
                0 <= j < ranges@.len() ==> (#[trigger] ranges@[j]).0 <= ranges@[j].1 <= inner@.len()
                    && inner@.subrange(ranges@[j].0 as int, ranges@[j].1 as int) == pieces[j],
            cells@.len() == k,
            forall|j: int| 0 <= j < k ==> (#[trigger] cells@[j])@ == trim(pieces[j]),
            separator == forall|j: int| 0 <= j < k ==> is_separator_cell(#[trigger] trim(pieces[j])),
        decreases ranges@.len() - k,
    {
        let (p0, p1) = ranges[k];
        let piece = slice_chars(inner.as_slice(), p0, p1);
        let (c0, c1) = trim_bounds(piece.as_slice());
        let cell = slice_chars(piece.as_slice(), c0, c1);
        let is_sep = separator_cell(&cell);
        proof {
            assert(cell@ == trim(pieces[k as int]));
            if separator && !is_sep {
                assert(!is_separator_cell(trim(pieces[k as int])));
            }
        }
        separator = separator && is_sep;
        cells.push(string_of_range(cell.as_slice(), 0, cell.len()));
        proof {
            assert(cell@.subrange(0, cell@.len() as int) =~= cell@);
            assert forall|j: int| 0 <= j < k + 1 implies (#[trigger] cells@[j])@ == trim(pieces[j]) by {}
        }
        k += 1;
    }
    proof {
        let rc = row_cells(line@);
        assert(string_views(cells@) =~= rc);
        if separator {
            assert forall|j: int| 0 <= j < rc.len() implies is_separator_cell(#[trigger] rc[j]) by {
                assert(rc[j] == trim(pieces[j]));
            }
        } else {
            let j = choose|j: int| 0 <= j < k && !is_separator_cell(#[trigger] trim(pieces[j]));
            assert(rc[j] == trim(pieces[j]));
        }
    }
    (cells, separator)
}

/// The rows of a table as views: cells and whether the row is a separator.
pub open spec fn row_views(rows: Seq<(Vec<String>, bool)>) -> Seq<(Seq<Seq<char>>, bool)> {
    rows.map_values(|r: (Vec<String>, bool)| (string_views(r.0@), r.1))
}

/// The number of columns: the most cells of any of the first `k` rows.
pub open spec fn column_count(rows: Seq<(Seq<Seq<char>>, bool)>, k: int) -> int
    decreases k,
{
    if k <= 0 {
        0
    } else {
        let prev = column_count(rows, k - 1);
        if rows[k - 1].0.len() > prev {
            rows[k - 1].0.len() as int
        } else {
            prev
        }
    }
}

/// The width a cell asks of its column: its rendered width, at least 3,
/// held to what a `u16` holds.
pub open spec fn cell_demand(cell: Seq<char>) -> int {
    let w = unicode_str_width(shown_text(cell, 0)) as int;
    let w3 = if w > 3 {
        w
    } else {
        3
    };
    if w3 > 65535 {
        65535
    } else {
        w3
    }
}

/// The widest demand on column `c` among the non-separator rows of the
/// first `k` rows that have that column, 0 if none.
pub open spec fn column_demand(rows: Seq<(Seq<Seq<char>>, bool)>, c: int, k: int) -> int
    decreases k,
{
    if k <= 0 {
        0
    } else {
        let prev = column_demand(rows, c, k - 1);
        let r = rows[k - 1];
        if !r.1 && 0 <= c < r.0.len() && cell_demand(r.0[c]) > prev {
            cell_demand(r.0[c])
        } else {
            prev
        }
    }
}

/// The first separator row from row `k` on.
pub open spec fn first_separator(rows: Seq<(Seq<Seq<char>>, bool)>, k: int) -> Option<int>
    decreases rows.len() - k,
{
    if k < 0 || k >= rows.len() {
        None
    } else if rows[k].1 {
        Some(k)
    } else {
        first_separator(rows, k + 1)
    }
}

/// The alignment of column `c`: as the separator row's cell names it, left
/// where there is no separator row or it lacks the column.
pub open spec fn column_alignment(rows: Seq<(Seq<Seq<char>>, bool)>, c: int) -> Alignment {
    match first_separator(rows, 0) {
        Some(s) => if c < rows[s].0.len() {
            separator_alignment(trim(rows[s].0[c]))
        } else {
            Alignment::Left
        },
        None => Alignment::Left,
    }
}

proof fn lemma_column_demand_bound(rows: Seq<(Seq<Seq<char>>, bool)>, c: int, k: int)
    ensures
        0 <= column_demand(rows, c, k) <= 65535,
    decreases k,
{
    if k > 0 {
        lemma_column_demand_bound(rows, c, k - 1);
    }
}

proof fn lemma_first_separator(rows: Seq<(Seq<Seq<char>>, bool)>, k: int)
    requires
        0 <= k,
    ensures
        first_separator(rows, k) matches Some(s) ==> k <= s < rows.len() && rows[s].1 && forall|j: int|
            k <= j < s ==> !rows[j].1,
        first_separator(rows, k) is None ==> forall|j: int| k <= j < rows.len() ==> !rows[j].1,
    decreases rows.len() - k,
{
    if k < rows.len() && !rows[k].1 {
        lemma_first_separator(rows, k + 1);
    }
}

/// The column widths and alignments of a table, and which row, if any,
/// separates its header: each column as wide as its widest non-separator
/// cell demands (see [`cell_demand`]) and at least 3, aligned as the first
/// separator row says.
pub fn table_metadata(rows: &Vec<(Vec<String>, bool)>) -> (r: (TableMetadata, Option<usize>))
    ensures
        ({
            let rv = row_views(rows@);
            let cc = column_count(rv, rv.len() as int);
            &&& r.0.column_widths@.len() == cc
            &&& r.0.alignments@.len() == cc
            &&& forall|c: int|
                0 <= c < cc ==> {
                    let d = column_demand(rv, c, rv.len() as int);
                    #[trigger] r.0.column_widths@[c] == if d > 3 {
                        d
                    } else {
                        3
                    }
                }
            &&& forall|c: int| 0 <= c < cc ==> #[trigger] r.0.alignments@[c] == column_alignment(rv, c)
            &&& match first_separator(rv, 0) {
                Some(s) => r.1 == Some(s as usize),
                None => r.1 is None,
            }
        }),
{
    let ghost rv = row_views(rows@);
    let n = rows.len();
    let mut count: usize = 0;
    let mut i: usize = 0;
    while i < n
        invariant
            n == rows@.len() == rv.len(),
            rv == row_views(rows@),
            i <= n,
            count == column_count(rv, i as int),
        decreases n - i,
    {
        if rows[i].0.len() > count {
            count = rows[i].0.len();
        }
        i += 1;
    }
    let mut widths: Vec<u16> = Vec::new();
    let mut c: usize = 0;
    while c < count
        invariant
            c <= count,
            widths@.len() == c,
            forall|j: int| 0 <= j < c ==> widths@[j] == 0,
        decreases count - c,
    {
        widths.push(0);
        c += 1;
    }
    i = 0;
    while i < n
        invariant
            n == rows@.len() == rv.len(),
            rv == row_views(rows@),
            i <= n,
            count == column_count(rv, n as int),
            widths@.len() == count,
            forall|j: int| 0 <= j < count ==> #[trigger] widths@[j] == column_demand(rv, j, i as int),
        decreases n - i,
    {
        let row = &rows[i];
        proof {
            assert(rv[i as int] == (string_views(row.0@), row.1));
        }
        let ghost before = widths@;
        if !row.1 {
            let mut j: usize = 0;
            while j < row.0.len() && j < count
                invariant
                    rv == row_views(rows@),
                    i < n == rv.len(),
                    rv[i as int] == (string_views(row.0@), row.1),
                    !row.1,
                    j <= count,
                    widths@.len() == count,
                    forall|m: int| j <= m < count ==> #[trigger] widths@[m] == before[m],
                    forall|m: int| 0 <= m < j ==> #[trigger] widths@[m] == column_demand(rv, m, i + 1),
                    forall|m: int| 0 <= m < count ==> #[trigger] before[m] == column_demand(rv, m, i as int),
                decreases count - j,
            {
                let w = cell_visible_width(row.0[j].as_str());
                let w3 = if w > 3 {
                    w
                } else {
                    3
                };
                let w16: u16 = if w3 > 65535 {
                    65535
                } else {
                    w3 as u16
                };
                proof {
                    assert(rv[i as int].0[j as int] == row.0@[j as int]@);
                    assert(w16 == cell_demand(row.0@[j as int]@));
                }
                if w16 > widths[j] {
                    widths.set(j, w16);
                }
                j += 1;
            }
            proof {
                assert forall|m: int| 0 <= m < count implies #[trigger] widths@[m] == column_demand(rv, m, i + 1) by {
                    if m >= j {
                        assert(m >= row.0@.len());
                    }
                }
            }
        }
        i += 1;
    }
    let mut k: usize = 0;
    while k < count
        invariant
            k <= count,
            widths@.len() == count,
            count == column_count(rv, n as int),
            n == rv.len(),
            forall|m: int| k <= m < count ==> #[trigger] widths@[m] == column_demand(rv, m, n as int),
            forall|m: int|
                0 <= m < k ==> {
                    let d = column_demand(rv, m, n as int);
                    #[trigger] widths@[m] == if d > 3 {
                        d
                    } else {
                        3
                    }
                },
        decreases count - k,
    {
        proof {
            lemma_column_demand_bound(rv, k as int, n as int);
        }
        if widths[k] < 3 {
            widths.set(k, 3);
        }
        k += 1;
    }
    let mut separator: Option<usize> = None;
    i = 0;
    while i < n
        invariant_except_break
            first_separator(rv, 0) == first_separator(rv, i as int),
            separator is None,
        invariant
            n == rows@.len() == rv.len(),
            rv == row_views(rows@),
            i <= n,
        ensures
            match first_separator(rv, 0) {
                Some(s) => separator == Some(s as usize),
                None => separator is None,
            },
            separator matches Some(s) ==> s < n,
        decreases n - i,
    {
        proof {
            assert(rv[i as int].1 == rows@[i as int].1);
        }
        if rows[i].1 {
            separator = Some(i);
            break;
        }
        i += 1;
    }
    let mut alignments: Vec<Alignment> = Vec::new();
    c = 0;
    while c < count
        invariant
            n == rows@.len() == rv.len(),
            rv == row_views(rows@),
            c <= count,
            alignments@.len() == c,
            match first_separator(rv, 0) {
                Some(s) => separator == Some(s as usize),
                None => separator is None,
            },
            separator matches Some(s) ==> s < n,
            forall|m: int| 0 <= m < c ==> #[trigger] alignments@[m] == column_alignment(rv, m),
        decreases count - c,
    {
        proof {
            lemma_first_separator(rv, 0);
        }
        let a = match separator {
            Some(s) => {
                proof {
                    assert(rv[s as int].0.len() == rows@[s as int].0@.len());
                }
                if c < rows[s].0.len() {
                    proof {
                        assert(rv[s as int].0[c as int] == rows@[s as int].0@[c as int]@);
                    }
                    Alignment::from_separator_cell(rows[s].0[c].as_str())
                } else {
                    Alignment::Left
                }
            },
            None => Alignment::Left,
        };
        proof {
            assert(a == column_alignment(rv, c as int));
        }
        alignments.push(a);
        c += 1;
    }
    (TableMetadata { column_widths: widths, alignments }, separator)
}

} // verus!
