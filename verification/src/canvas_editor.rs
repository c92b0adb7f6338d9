//! The text editor that opens over a canvas node: a draft string with a
//! cursor that moves by grapheme clusters, soft-wrapped rows for multi-line
//! fields and horizontal scrolling for single-line ones.
//!
//! The cursor is a byte offset into the draft, as the rest of the
//! application expects. Internally the editor works on characters and
//! converts at the edges through [`byte_at`].
use vstd::prelude::*;
use vstd::seq_lib::lemma_flatten_concat;

use unicode_segmentation::UnicodeSegmentation;

use crate::geometry::{add_u16, Position, Rect};
use crate::links::sat;
use crate::text::{
    byte_cut, find_from, find_from_exec, lemma_find_from,
    char_len_utf8, char_utf8_len, chars_of, lemma_utf8_len_concat, lemma_utf8_len_push, lemma_utf8_len_prefix, push_range,
    string_of_range, string_views, utf8_len, utf8_len_range,
};
use crate::width::{str_width, unicode_str_width};

verus! {

/// `str::graphemes(true)`: the extended grapheme clusters of a text, in
/// order.
pub uninterp spec fn unicode_graphemes(s: Seq<char>) -> Seq<Seq<char>>;

/// Calls `UnicodeSegmentation::graphemes(s, true)` and collects the
/// clusters. Claims: the result is the named segmentation
/// [`unicode_graphemes`] of `s`; the clusters, joined in order, give back
/// `s`; and none is empty (the iterator hands out consecutive non-empty
/// slices of `s` from its start to its end).
#[verifier::external_body]
fn graphemes_of(s: &str) -> (r: Vec<String>)
    ensures
        string_views(r@) == unicode_graphemes(s@),
        string_views(r@).flatten() == s@,
        forall|i: int| 0 <= i < r@.len() ==> (#[trigger] r@[i])@.len() > 0,
{
    s.graphemes(true).map(str::to_string).collect()
}

/// Characters before cluster `k` of `g`.
pub open spec fn gstart(g: Seq<Seq<char>>, k: int) -> int {
    g.take(k).flatten().len() as int
}

pub proof fn lemma_gstart_step(g: Seq<Seq<char>>, k: int)
    requires
        0 <= k < g.len(),
    ensures
        g.take(k + 1).flatten() == g.take(k).flatten() + g[k],
        gstart(g, k + 1) == gstart(g, k) + g[k].len(),
{
    assert(g.take(k + 1) =~= g.take(k).push(g[k]));
    g.take(k).lemma_flatten_push(g[k]);
}

pub proof fn lemma_gstart_prefix(g: Seq<Seq<char>>, k: int)
    requires
        0 <= k <= g.len(),
    ensures
        gstart(g, k) <= g.flatten().len(),
        g.flatten().take(gstart(g, k)) == g.take(k).flatten(),
        g.flatten().skip(gstart(g, k)) == g.skip(k).flatten(),
{
    assert(g =~= g.take(k) + g.skip(k));
    lemma_flatten_concat(g.take(k), g.skip(k));
    assert(g.flatten().take(gstart(g, k)) =~= g.take(k).flatten());
    assert(g.flatten().skip(gstart(g, k)) =~= g.skip(k).flatten());
}

/// Byte offset of character `i` of `s`.
pub open spec fn byte_at(s: Seq<char>, i: int) -> int {
    utf8_len(s.take(i)) as int
}

/// Index of the last cluster of `g`, from `k` on, that starts at byte
/// offset `c` or before; `best` when none does.
pub open spec fn fit_from(s: Seq<char>, g: Seq<Seq<char>>, c: int, k: int, best: int) -> int
    decreases g.len() - k,
{
    if k < 0 || k >= g.len() || byte_at(s, gstart(g, k)) > c {
        best
    } else {
        fit_from(s, g, c, k + 1, k)
    }
}

/// The grapheme boundary (a character index) that byte offset `c` of `s`
/// falls back to: the end of the text from its end on, else the start of
/// the last cluster that starts at `c` or before.
pub open spec fn nearest_boundary(s: Seq<char>, c: int) -> int {
    if c >= utf8_len(s) {
        s.len() as int
    } else {
        gstart(unicode_graphemes(s), fit_from(s, unicode_graphemes(s), c, 0, 0))
    }
}

/// The boundary before character `c`: the start of the last cluster of
/// `s[..c]`, or 0.
pub open spec fn prev_boundary(s: Seq<char>, c: int) -> int {
    let p = unicode_graphemes(s.take(c));
    if p.len() == 0 {
        0
    } else {
        c - p.last().len()
    }
}

/// The boundary after character `c`: the start of the second cluster of
/// `s[c..]`, or the end of the text.
pub open spec fn next_boundary(s: Seq<char>, c: int) -> int {
    let q = unicode_graphemes(s.skip(c));
    if q.len() >= 2 {
        c + q[0].len()
    } else {
        s.len() as int
    }
}

/// Columns a cluster takes: its width, and at least one.
pub open spec fn gw(g: Seq<char>) -> int {
    if unicode_str_width(g) < 1 {
        1
    } else {
        unicode_str_width(g) as int
    }
}

/// `cells` holds the character length (never zero) and the columns of
/// each cluster of `g`.
pub open spec fn cells_match(cells: Seq<(usize, usize)>, g: Seq<Seq<char>>) -> bool {
    &&& cells.len() == g.len()
    &&& forall|i: int|
        0 <= i < cells.len() ==> cells[i].0 == (#[trigger] g[i]).len() && cells[i].0 > 0 && cells[i].1
            == gw(g[i])
}

/// Character length and columns of each cluster of `cs[a..b]`.
fn grapheme_lens(cs: &[char], a: usize, b: usize) -> (r: Vec<(usize, usize)>)
    requires
        a <= b <= cs@.len(),
    ensures
        r@.len() == unicode_graphemes(cs@.subrange(a as int, b as int)).len(),
        forall|i: int|
            0 <= i < r@.len() ==> r@[i].0 == (#[trigger] unicode_graphemes(
                cs@.subrange(a as int, b as int),
            )[i]).len() && r@[i].0 > 0 && r@[i].1 == gw(
                unicode_graphemes(cs@.subrange(a as int, b as int))[i],
            ),
        unicode_graphemes(cs@.subrange(a as int, b as int)).flatten() == cs@.subrange(
            a as int,
            b as int,
        ),
{
    let piece = string_of_range(cs, a, b);
    let gs = graphemes_of(piece.as_str());
    let ghost g = unicode_graphemes(cs@.subrange(a as int, b as int));
    let mut out: Vec<(usize, usize)> = Vec::new();
    let mut k: usize = 0;
    while k < gs.len()
        invariant
            k <= gs@.len(),
            g == string_views(gs@),
            out@.len() == k,
            forall|i: int| 0 <= i < gs@.len() ==> (#[trigger] gs@[i])@.len() > 0,
            forall|i: int|
                0 <= i < k ==> out@[i].0 == (#[trigger] g[i]).len() && out@[i].0 > 0 && out@[i].1
                    == gw(g[i]),
        decreases gs@.len() - k,
    {
        let cl = chars_of(gs[k].as_str());
        assert(g[k as int] == gs@[k as int]@);
        let w = str_width(gs[k].as_str());
        let w1 = if w < 1 {
            1
        } else {
            w
        };
        let ghost before = out@;
        out.push((cl.len(), w1));
        let ghost oldk = k as int;
        k += 1;
        assert forall|i: int| 0 <= i < k implies out@[i].0 == (#[trigger] g[i]).len() && out@[i].0
            > 0 && out@[i].1 == gw(g[i]) by {
            if i < oldk {
                assert(out@[i] == before[i]);
            }
        }
    }
    out
}

/// Total UTF-8 length of `cs`.
fn total_bytes(cs: &[char]) -> (n: usize)
    requires
        utf8_len(cs@) <= usize::MAX,
    ensures
        n == utf8_len(cs@),
{
    assert(cs@.subrange(0, cs@.len() as int) =~= cs@);
    utf8_len_range(cs, 0, cs.len())
}

/// Byte offset of character `i` of `cs`.
fn byte_at_exec(cs: &[char], i: usize) -> (n: usize)
    requires
        i <= cs@.len(),
        utf8_len(cs@) <= usize::MAX,
    ensures
        n == byte_at(cs@, i as int),
{
    proof {
        lemma_utf8_len_prefix(cs@, i as int);
        assert(cs@.subrange(0, i as int) =~= cs@.take(i as int));
    }
    utf8_len_range(cs, 0, i)
}

/// [`nearest_boundary`] of byte offset `c`.
fn nearest_boundary_exec(cs: &[char], c: usize) -> (k: usize)
    requires
        utf8_len(cs@) <= usize::MAX,
    ensures
        k == nearest_boundary(cs@, c as int),
        k <= cs@.len(),
{
    let n = cs.len();
    let total = total_bytes(cs);
    if c >= total {
        return n;
    }
    let lens = grapheme_lens(cs, 0, n);
    let ghost s = cs@;
    let ghost g = unicode_graphemes(s);
    assert(cs@.subrange(0, n as int) =~= s);
    let mut k: usize = 0;
    let mut start: usize = 0;
    let mut best_k: usize = 0;
    let mut best: usize = 0;
    while k < lens.len()
        invariant
            s == cs@,
            n == s.len(),
            g == unicode_graphemes(s),
            g.flatten() == s,
            lens@.len() == g.len(),
            forall|i: int| 0 <= i < lens@.len() ==> lens@[i].0 == (#[trigger] g[i]).len(),
            utf8_len(s) <= usize::MAX,
            k <= g.len(),
            start == gstart(g, k as int),
            start <= n,
            best == gstart(g, best_k as int),
            best_k <= k,
            fit_from(s, g, c as int, 0, 0) == fit_from(s, g, c as int, k as int, best_k as int),
        ensures
            best_k <= g.len(),
            best == gstart(g, best_k as int),
            fit_from(s, g, c as int, 0, 0) == best_k,
        decreases g.len() - k,
    {
        proof {
            lemma_gstart_step(g, k as int);
            lemma_gstart_prefix(g, k as int + 1);
        }
        let at = byte_at_exec(cs, start);
        if at > c {
            break;
        }
        best_k = k;
        best = start;
        start = start + lens[k].0;
        k += 1;
    }
    proof {
        lemma_gstart_prefix(g, best_k as int);
    }
    best
}

/// [`prev_boundary`] of character `c`.
fn prev_boundary_exec(cs: &[char], c: usize) -> (k: usize)
    requires
        c <= cs@.len(),
    ensures
        k == prev_boundary(cs@, c as int),
        k <= c,
{
    let lens = grapheme_lens(cs, 0, c);
    assert(cs@.subrange(0, c as int) =~= cs@.take(c as int));
    let m = lens.len();
    if m == 0 {
        return 0;
    }
    proof {
        let g = unicode_graphemes(cs@.take(c as int));
        assert(g =~= g.take(m - 1).push(g.last()));
        lemma_gstart_step(g, m - 1);
        assert(g.take(m as int) =~= g);
        lemma_gstart_prefix(g, m - 1);
    }
    c - lens[m - 1].0
}

/// [`next_boundary`] of character `c`.
fn next_boundary_exec(cs: &[char], c: usize) -> (k: usize)
    requires
        c <= cs@.len(),
    ensures
        k == next_boundary(cs@, c as int),
        c <= k <= cs@.len(),
{
    let n = cs.len();
    let lens = grapheme_lens(cs, c, n);
    assert(cs@.subrange(c as int, n as int) =~= cs@.skip(c as int));
    if lens.len() >= 2 {
        proof {
            let g = unicode_graphemes(cs@.skip(c as int));
            lemma_gstart_step(g, 0);
            lemma_gstart_prefix(g, 1);
            assert(g.take(0) =~= Seq::<Seq<char>>::empty());
        }
        c + lens[0].0
    } else {
        n
    }
}

/// The rows that the line `s[a..e]` wraps into at `width` columns, from
/// cluster `k` of its clusters `g` on: a row ends before a cluster that would
/// overflow it, unless the row is still empty.
pub open spec fn wrap_from(
    g: Seq<Seq<char>>,
    a: int,
    e: int,
    width: int,
    k: int,
    row_start: int,
    used: int,
) -> Seq<(int, int)>
    decreases g.len() - k,
{
    if k < 0 || k >= g.len() {
        seq![(row_start, e)]
    } else {
        let x = a + gstart(g, k);
        let w = gw(g[k]);
        if used > 0 && sat(used + w) > width {
            seq![(row_start, x)] + wrap_from(g, a, e, width, k + 1, x, w)
        } else {
            wrap_from(g, a, e, width, k + 1, row_start, sat(used + w))
        }
    }
}

pub open spec fn pat_newline() -> Seq<char> {
    seq!['\n']
}

/// The visual rows of `s` from line start `ls` on, at `width` columns: each
/// line (up to a `\n`) wraps into rows, an empty line is one empty row, and
/// a text that ends with `\n` ends with an empty row.
pub open spec fn rows_from(s: Seq<char>, width: int, ls: int) -> Seq<(int, int)>
    decreases s.len() - ls,
{
    if ls < 0 || ls > s.len() {
        seq![]
    } else {
        let nl = find_from(s, pat_newline(), ls);
        let le = if nl is Some {
            nl->0
        } else {
            s.len() as int
        };
        proof {
            lemma_find_from(s, pat_newline(), ls);
        }
        let line = if ls >= le {
            seq![(ls, le)]
        } else {
            wrap_from(unicode_graphemes(s.subrange(ls, le)), ls, le, width, 0, ls, 0)
        };
        if nl is None {
            line
        } else if le + 1 == s.len() {
            line + seq![(s.len() as int, s.len() as int)]
        } else {
            line + rows_from(s, width, le + 1)
        }
    }
}

/// The visual rows of `s` at `width` columns (at least one).
pub open spec fn visual_rows(s: Seq<char>, width: int) -> Seq<(int, int)> {
    rows_from(
        s,
        if width < 1 {
            1
        } else {
            width
        },
        0,
    )
}

/// Rows that follow one another: each starts where the one before ends, or
/// one character later (after a line break), and none ends before it starts.
pub open spec fn rows_chained(rows: Seq<(int, int)>) -> bool {
    &&& forall|i: int| 0 <= i < rows.len() ==> (#[trigger] rows[i]).0 <= rows[i].1
    &&& forall|i: int|
        0 <= i < rows.len() - 1 ==> (#[trigger] rows[i + 1]).0 == rows[i].1 || rows[i + 1].0 == rows[i].1
            + 1
}

/// Rows that cover `s[a..e]`.
pub open spec fn rows_cover(rows: Seq<(int, int)>, a: int, e: int) -> bool {
    &&& rows.len() > 0
    &&& rows[0].0 == a
    &&& rows.last().1 == e
    &&& rows_chained(rows)
    &&& forall|i: int| 0 <= i < rows.len() ==> a <= (#[trigger] rows[i]).0 && rows[i].1 <= e
}

pub proof fn lemma_rows_append(x: Seq<(int, int)>, a: int, m: int, y: Seq<(int, int)>, e: int)
    requires
        rows_cover(x, a, m),
        rows_cover(y, m, e) || rows_cover(y, m + 1, e),
    ensures
        rows_cover(x + y, a, e),
{
    let z = x + y;
    assert forall|i: int| 0 <= i < z.len() implies (#[trigger] z[i]).0 <= z[i].1 by {
        if i < x.len() {
            assert(z[i] == x[i]);
        } else {
            assert(z[i] == y[i - x.len()]);
        }
    }
    assert forall|i: int| 0 <= i < z.len() - 1 implies (#[trigger] z[i + 1]).0 == z[i].1 || z[i + 1].0
        == z[i].1 + 1 by {
        if i + 1 < x.len() {
            assert(z[i] == x[i]);
            assert(z[i + 1] == x[i + 1]);
        } else if i + 1 == x.len() {
            assert(z[i] == x.last());
            assert(z[i + 1] == y[0]);
        } else {
            assert(z[i] == y[i - x.len()]);
            assert(z[i + 1] == y[i - x.len() + 1]);
        }
    }
    assert(z.last() == y.last());
    assert forall|i: int| 0 <= i < z.len() implies a <= (#[trigger] z[i]).0 && z[i].1 <= e by {
        if i < x.len() {
            assert(z[i] == x[i]);
        } else {
            assert(z[i] == y[i - x.len()]);
        }
    }
}

pub proof fn lemma_wrap_from(
    g: Seq<Seq<char>>,
    a: int,
    e: int,
    width: int,
    k: int,
    row_start: int,
    used: int,
)
    requires
        0 <= k <= g.len(),
        g.flatten().len() == e - a,
        forall|i: int| 0 <= i < g.len() ==> (#[trigger] g[i]).len() > 0,
        a <= row_start <= a + gstart(g, k),
    ensures
        rows_cover(wrap_from(g, a, e, width, k, row_start, used), row_start, e),
    decreases g.len() - k,
{
    lemma_gstart_prefix(g, k);
    if k < g.len() {
        lemma_gstart_step(g, k);
        lemma_gstart_prefix(g, k + 1);
        let x = a + gstart(g, k);
        let w = gw(g[k]);
        if used > 0 && sat(used + w) > width {
            lemma_wrap_from(g, a, e, width, k + 1, x, w);
            lemma_rows_append(seq![(row_start, x)], row_start, x, wrap_from(g, a, e, width, k + 1, x, w), e);
        } else {
            lemma_wrap_from(g, a, e, width, k + 1, row_start, sat(used + w));
        }
    } else {
        assert(g.take(k) =~= g);
    }
}

/// Grapheme segmentation splits `t` into nonempty clusters that, joined in
/// order, give `t` back (what `graphemes_of` claims of every text it is
/// called on).
pub open spec fn segments_cleanly(t: Seq<char>) -> bool {
    &&& unicode_graphemes(t).flatten() == t
    &&& forall|i: int| 0 <= i < unicode_graphemes(t).len() ==> (#[trigger] unicode_graphemes(t)[i]).len() > 0
}

proof fn lemma_rows_from_cover(s: Seq<char>, width: int, ls: int)
    requires
        0 <= ls <= s.len(),
        forall|a: int, b: int| 0 <= a <= b <= s.len() ==> segments_cleanly(#[trigger] s.subrange(a, b)),
    ensures
        rows_cover(rows_from(s, width, ls), ls, s.len() as int),
    decreases s.len() - ls,
{
    lemma_find_from(s, pat_newline(), ls);
    let nl = find_from(s, pat_newline(), ls);
    let le = if nl is Some {
        nl->0
    } else {
        s.len() as int
    };
    let line = if ls >= le {
        seq![(ls, le)]
    } else {
        wrap_from(unicode_graphemes(s.subrange(ls, le)), ls, le, width, 0, ls, 0)
    };
    if ls < le {
        let g = unicode_graphemes(s.subrange(ls, le));
        assert(segments_cleanly(s.subrange(ls, le)));
        assert(g.take(0) =~= Seq::<Seq<char>>::empty());
        lemma_wrap_from(g, ls, le, width, 0, ls, 0);
    }
    assert(rows_cover(line, ls, le));
    if nl is Some {
        if le + 1 == s.len() {
            lemma_rows_append(line, ls, le, seq![(s.len() as int, s.len() as int)], s.len() as int);
        } else {
            lemma_rows_from_cover(s, width, le + 1);
            lemma_rows_append(line, ls, le, rows_from(s, width, le + 1), s.len() as int);
        }
    }
}

/// The visual rows of a text cover it in order: the first starts at 0, the
/// last ends at its end, each starts where the one before ends (or just
/// after a line break), and none runs backwards or past the text; given
/// that grapheme segmentation splits every piece of the text cleanly.
pub proof fn lemma_visual_rows_cover(s: Seq<char>, width: int)
    requires
        forall|a: int, b: int| 0 <= a <= b <= s.len() ==> segments_cleanly(#[trigger] s.subrange(a, b)),
    ensures
        rows_cover(visual_rows(s, width), 0, s.len() as int),
{
    lemma_rows_from_cover(s, if width < 1 { 1 } else { width }, 0);
}

/// `x` is where a cluster of `g`, laid out from `a`, starts, or where the
/// last one ends.
pub open spec fn on_cluster_boundary(g: Seq<Seq<char>>, a: int, x: int) -> bool {
    exists|i: int| 0 <= i <= g.len() && x == a + #[trigger] gstart(g, i)
}

/// The rows a line wraps into start and end on boundaries between its
/// grapheme clusters: no row splits a cluster.
pub proof fn lemma_wrap_rows_on_cluster_boundaries(
    g: Seq<Seq<char>>,
    a: int,
    e: int,
    width: int,
    k: int,
    row_start: int,
    used: int,
)
    requires
        0 <= k <= g.len(),
        e == a + gstart(g, g.len() as int),
        on_cluster_boundary(g, a, row_start),
    ensures
        forall|r: int|
            0 <= r < wrap_from(g, a, e, width, k, row_start, used).len() ==> on_cluster_boundary(
                g,
                a,
                (#[trigger] wrap_from(g, a, e, width, k, row_start, used)[r]).0,
            ) && on_cluster_boundary(g, a, wrap_from(g, a, e, width, k, row_start, used)[r].1),
    decreases g.len() - k,
{
    let rows = wrap_from(g, a, e, width, k, row_start, used);
    assert(on_cluster_boundary(g, a, e)) by {
        assert(e == a + gstart(g, g.len() as int));
    }
    if k < g.len() {
        let x = a + gstart(g, k);
        let w = gw(g[k]);
        assert(on_cluster_boundary(g, a, x)) by {
            assert(x == a + gstart(g, k));
        }
        if used > 0 && sat(used + w) > width {
            let rest = wrap_from(g, a, e, width, k + 1, x, w);
            lemma_wrap_rows_on_cluster_boundaries(g, a, e, width, k + 1, x, w);
            assert forall|r: int| 0 <= r < rows.len() implies on_cluster_boundary(g, a, (#[trigger] rows[r]).0)
                && on_cluster_boundary(g, a, rows[r].1) by {
                if r > 0 {
                    assert(rows[r] == rest[r - 1]);
                }
            }
        } else {
            lemma_wrap_rows_on_cluster_boundaries(g, a, e, width, k + 1, row_start, sat(used + w));
            assert(rows == wrap_from(g, a, e, width, k + 1, row_start, sat(used + w)));
        }
    } else {
        assert(rows[0] == (row_start, e));
    }
}

/// The columns clusters `i..j` of `g` take, counted as wrapping counts
/// them (capped at `usize::MAX`).
pub open spec fn span_used(g: Seq<Seq<char>>, i: int, j: int) -> int
    decreases j - i,
{
    if j <= i {
        0
    } else {
        sat(span_used(g, i, j - 1) + gw(g[j - 1]))
    }
}

/// A row of clusters `i..j` fits in `width` columns, or holds a single
/// cluster (one too wide for any row).
pub open spec fn row_fits(g: Seq<Seq<char>>, i: int, j: int, width: int) -> bool {
    j - i <= 1 || span_used(g, i, j) <= width
}

proof fn lemma_span_used_positive(g: Seq<Seq<char>>, i: int, j: int)
    requires
        i < j,
    ensures
        span_used(g, i, j) >= 1,
    decreases j - i,
{
    if i < j - 1 {
        lemma_span_used_positive(g, i, j - 1);
    } else {
        assert(span_used(g, i, i) == 0);
    }
}

/// Each row a line wraps into runs between cluster boundaries and fits
/// the width, unless it holds a single cluster too wide for any row.
pub proof fn lemma_wrap_rows_fit(
    g: Seq<Seq<char>>,
    a: int,
    e: int,
    width: int,
    k: int,
    i0: int,
    used: int,
)
    requires
        0 <= i0 <= k <= g.len(),
        e == a + gstart(g, g.len() as int),
        used == span_used(g, i0, k),
        row_fits(g, i0, k, width),
    ensures
        forall|r: int|
            0 <= r < wrap_from(g, a, e, width, k, a + gstart(g, i0), used).len() ==> exists|i: int, j: int|
                0 <= i <= j <= g.len() && (#[trigger] wrap_from(g, a, e, width, k, a + gstart(g, i0), used)[r]) == (
                    a + gstart(g, i),
                    a + gstart(g, j),
                ) && row_fits(g, i, j, width),
    decreases g.len() - k,
{
    let rows = wrap_from(g, a, e, width, k, a + gstart(g, i0), used);
    if k < g.len() {
        let x = a + gstart(g, k);
        let w = gw(g[k]);
        if used > 0 && sat(used + w) > width {
            assert(span_used(g, k, k) == 0);
            assert(span_used(g, k, k + 1) == w);
            lemma_wrap_rows_fit(g, a, e, width, k + 1, k, w);
            let rest = wrap_from(g, a, e, width, k + 1, x, w);
            assert forall|r: int| 0 <= r < rows.len() implies exists|i: int, j: int|
                0 <= i <= j <= g.len() && (#[trigger] rows[r]) == (a + gstart(g, i), a + gstart(g, j)) && row_fits(
                    g,
                    i,
                    j,
                    width,
                ) by {
                if r == 0 {
                    assert(rows[0] == (a + gstart(g, i0), a + gstart(g, k)));
                    assert(row_fits(g, i0, k, width));
                } else {
                    assert(rows[r] == rest[r - 1]);
                }
            }
        } else {
            if i0 < k {
                lemma_span_used_positive(g, i0, k);
            }
            assert(span_used(g, i0, k + 1) == sat(used + w));
            lemma_wrap_rows_fit(g, a, e, width, k + 1, i0, sat(used + w));
            assert(rows == wrap_from(g, a, e, width, k + 1, a + gstart(g, i0), sat(used + w)));
        }
    } else {
        assert(rows[0] == (a + gstart(g, i0), e));
        assert(rows[0] == (a + gstart(g, i0), a + gstart(g, g.len() as int)));
    }
}

pub open spec fn rows_view(v: Seq<(usize, usize)>) -> Seq<(int, int)> {
    v.map_values(|x: (usize, usize)| (x.0 as int, x.1 as int))
}

proof fn lemma_rows_view_push(v: Seq<(usize, usize)>, x: (usize, usize))
    ensures
        rows_view(v.push(x)) == rows_view(v).push((x.0 as int, x.1 as int)),
{
    assert(rows_view(v.push(x)) =~= rows_view(v).push((x.0 as int, x.1 as int)));
}

/// Appends the rows that line `cs[a..e]` wraps into.
fn wrap_line(cs: &[char], a: usize, e: usize, width: usize, rows: &mut Vec<(usize, usize)>)
    requires
        a < e <= cs@.len(),
    ensures
        rows_view(final(rows)@) == rows_view(old(rows)@) + wrap_from(
            unicode_graphemes(cs@.subrange(a as int, e as int)),
            a as int,
            e as int,
            width as int,
            0,
            a as int,
            0,
        ),
        rows_cover(
            wrap_from(
                unicode_graphemes(cs@.subrange(a as int, e as int)),
                a as int,
                e as int,
                width as int,
                0,
                a as int,
                0,
            ),
            a as int,
            e as int,
        ),
{
    let cells = grapheme_lens(cs, a, e);
    let ghost g = unicode_graphemes(cs@.subrange(a as int, e as int));
    let ghost base = rows_view(rows@);
    let ghost whole = wrap_from(g, a as int, e as int, width as int, 0, a as int, 0);
    proof {
        lemma_wrap_from(g, a as int, e as int, width as int, 0, a as int, 0);
        assert(g.take(0) =~= Seq::<Seq<char>>::empty());
    }
    let mut k: usize = 0;
    let mut start: usize = 0;
    let mut row_start: usize = a;
    let mut used: usize = 0;
    assert(base + whole =~= rows_view(rows@) + whole);
    while k < cells.len()
        invariant
            a < e <= cs@.len(),
            g == unicode_graphemes(cs@.subrange(a as int, e as int)),
            g.flatten() == cs@.subrange(a as int, e as int),
            cells_match(cells@, g),
            k <= g.len(),
            start == gstart(g, k as int),
            a + start <= e,
            base + whole == rows_view(rows@) + wrap_from(
                g,
                a as int,
                e as int,
                width as int,
                k as int,
                row_start as int,
                used as int,
            ),
        decreases g.len() - k,
    {
        proof {
            lemma_gstart_step(g, k as int);
            lemma_gstart_prefix(g, k as int + 1);
        }
        let x = a + start;
        let w = cells[k].1;
        let ghost before = rows@;
        if used > 0 && used.saturating_add(w) > width {
            rows.push((row_start, x));
            proof {
                lemma_rows_view_push(before, (row_start, x));
                let rest = wrap_from(g, a as int, e as int, width as int, k + 1, x as int, w as int);
                assert(rows_view(before) + (seq![(row_start as int, x as int)] + rest) =~= rows_view(
                    rows@,
                ) + rest);
            }
            row_start = x;
            used = w;
        } else {
            used = used.saturating_add(w);
        }
        start = start + cells[k].0;
        k += 1;
    }
    proof {
        assert(rows_view(rows@) + seq![(row_start as int, e as int)] =~= rows_view(rows@.push(
            (row_start, e),
        )));
    }
    rows.push((row_start, e));
}

/// The visual rows of `cs` at `width` columns.
fn visual_rows_exec(cs: &[char], width: usize) -> (r: Vec<(usize, usize)>)
    ensures
        rows_view(r@) == visual_rows(cs@, width as int),
        rows_cover(rows_view(r@), 0, cs@.len() as int),
{
    let n = cs.len();
    let w1 = if width < 1 {
        1
    } else {
        width
    };
    let newline = ['\n'];
    assert(newline@ =~= pat_newline());
    let ghost s = cs@;
    let mut rows: Vec<(usize, usize)> = Vec::new();
    let mut ls: usize = 0;
    assert(rows_view(rows@) + rows_from(s, w1 as int, 0) =~= rows_from(s, w1 as int, 0));
    loop
        invariant_except_break
            ls <= n,
            visual_rows(s, width as int) == rows_view(rows@) + rows_from(s, w1 as int, ls as int),
            ls == 0 ==> rows@.len() == 0,
            ls > 0 ==> rows_cover(rows_view(rows@), 0, ls - 1),
        invariant
            s == cs@,
            n == s.len(),
            newline@ == pat_newline(),
        ensures
            rows_view(rows@) == visual_rows(cs@, width as int),
            rows_cover(rows_view(rows@), 0, cs@.len() as int),
        decreases n - ls,
    {
        proof {
            lemma_find_from(s, pat_newline(), ls as int);
        }
        let nl = find_from_exec(cs, &newline, ls);
        let le = match nl {
            Some(k) => k,
            None => n,
        };
        let ghost before = rows_view(rows@);
        let ghost line = if ls >= le {
            seq![(ls as int, le as int)]
        } else {
            wrap_from(unicode_graphemes(s.subrange(ls as int, le as int)), ls as int, le as int, w1 as int, 0, ls as int, 0)
        };
        if ls == le {
            proof {
                lemma_rows_view_push(rows@, (ls, le));
            }
            rows.push((ls, le));
        } else {
            wrap_line(cs, ls, le, w1, &mut rows);
        }
        proof {
            assert(rows_cover(line, ls as int, le as int));
            if ls > 0 {
                lemma_rows_append(before, 0, ls - 1, line, le as int);
            } else {
                assert(before =~= Seq::<(int, int)>::empty());
                assert(before + line =~= line);
            }
            assert(rows_view(rows@) == before + line);
        }
        match nl {
            None => {
                assert(rows_view(rows@) + Seq::<(int, int)>::empty() =~= rows_view(rows@));
                break;
            },
            Some(k) => {
                ls = k + 1;
                if ls == n {
                    let ghost mid = rows_view(rows@);
                    proof {
                        lemma_rows_view_push(rows@, (n, n));
                        assert(before + (line + seq![(n as int, n as int)]) =~= mid.push((n as int, n as int)));
                        lemma_rows_append(mid, 0, k as int, seq![(n as int, n as int)], n as int);
                    }
                    rows.push((n, n));
                    break;
                }
                proof {
                    assert(before + (line + rows_from(s, w1 as int, ls as int)) =~= rows_view(rows@)
                        + rows_from(s, w1 as int, ls as int));
                }
            },
        }
    }
    rows
}

/// Where cursor `c` (a boundary) stands among `rows`, from row `i` on: the
/// first row it lies within, or at whose end it lies unless the next row
/// continues there after a soft wrap; the last row otherwise. The column is
/// the width of the row's text before the cursor.
pub open spec fn vcursor_from(s: Seq<char>, rows: Seq<(int, int)>, c: int, i: int) -> (int, int)
    decreases rows.len() - i,
{
    if i < 0 || i >= rows.len() {
        let last = rows.len() - 1;
        let r = rows[last];
        (last, unicode_str_width(s.subrange(r.0, if c < r.1 { c } else { r.1 })) as int)
    } else if c < rows[i].1 || (c == rows[i].1 && !(i + 1 < rows.len() && rows[i + 1].0 == c)) {
        (i, unicode_str_width(s.subrange(rows[i].0, c)) as int)
    } else {
        vcursor_from(s, rows, c, i + 1)
    }
}

/// Row and column of the caret when the cursor stands at boundary `c` and
/// rows are `width` columns wide.
pub open spec fn caret_of(s: Seq<char>, width: int, c: int) -> (int, int) {
    vcursor_from(s, visual_rows(s, width), nearest_boundary(s, byte_at(s, c)), 0)
}

/// The boundary of `s[a..e]` nearest to `column` columns into it, from
/// cluster `k` of its clusters `g` on, `used` columns in: a column at or
/// before a cluster's start lands there; one inside a cluster lands on its
/// nearer edge (the far edge on a tie); past the end lands at `e`.
pub open spec fn col_from(g: Seq<Seq<char>>, a: int, e: int, column: int, k: int, used: int) -> int
    decreases g.len() - k,
{
    if k < 0 || k >= g.len() {
        e
    } else {
        let x = a + gstart(g, k);
        let w = gw(g[k]);
        if column <= used {
            x
        } else if column < sat(used + w) {
            if column - used < w - (column - used) {
                x
            } else {
                x + g[k].len()
            }
        } else {
            col_from(g, a, e, column, k + 1, sat(used + w))
        }
    }
}

/// The boundary of `s[a..e]` nearest to `column` columns into it.
pub open spec fn at_column(s: Seq<char>, a: int, e: int, column: int) -> int {
    col_from(unicode_graphemes(s.subrange(a, e)), a, e, column, 0, 0)
}

/// Columns of `cs[a..b]`.
fn cols(cs: &[char], a: usize, b: usize) -> (w: usize)
    requires
        a <= b <= cs@.len(),
    ensures
        w == unicode_str_width(cs@.subrange(a as int, b as int)),
{
    let piece = string_of_range(cs, a, b);
    str_width(piece.as_str())
}

/// [`vcursor_from`] for cursor byte offset `cb`, normalised first.
fn visual_cursor(cs: &[char], cb: usize, rows: &Vec<(usize, usize)>) -> (r: (usize, usize))
    requires
        utf8_len(cs@) <= usize::MAX,
        rows_cover(rows_view(rows@), 0, cs@.len() as int),
    ensures
        (r.0 as int, r.1 as int) == vcursor_from(
            cs@,
            rows_view(rows@),
            nearest_boundary(cs@, cb as int),
            0,
        ),
        r.0 < rows@.len(),
{
    let c = nearest_boundary_exec(cs, cb);
    let ghost rv = rows_view(rows@);
    let m = rows.len();
    let mut i: usize = 0;
    while i < m
        invariant
            m == rows@.len(),
            rv == rows_view(rows@),
            rows_cover(rv, 0, cs@.len() as int),
            c <= cs@.len(),
            c == nearest_boundary(cs@, cb as int),
            i <= m,
            i < m ==> c >= rv[i as int].0,
            i > 0 ==> c >= rv[i - 1].1,
            vcursor_from(cs@, rv, c as int, 0) == vcursor_from(cs@, rv, c as int, i as int),
        decreases m - i,
    {
        let (start, end) = rows[i];
        assert(rv[i as int] == (start as int, end as int));
        proof {
            if i + 1 < m {
                assert(rv[i + 1] == (rows@[i + 1].0 as int, rows@[i + 1].1 as int));
            }
        }
        let continues = i + 1 < m && rows[i + 1].0 == c;
        assert(rv.len() == m);
        if c < end || (c == end && !continues) {
            let w = cols(cs, start, c);
            assert(vcursor_from(cs@, rv, c as int, i as int) == (i as int, w as int));
            return (i, w);
        }
        proof {
            if i + 1 < m {
                assert(rv[i + 1] == (rows@[i + 1].0 as int, rows@[i + 1].1 as int));
            }
        }
        i += 1;
    }
    let (start, end) = rows[m - 1];
    assert(rv[m - 1] == (start as int, end as int));
    assert(rv.last() == rv[m - 1]);
    let upto = if c < end {
        c
    } else {
        end
    };
    let w = cols(cs, start, upto);
    (m - 1, w)
}

/// [`at_column`] of `cs[a..e]`.
fn at_column_exec(cs: &[char], a: usize, e: usize, column: usize) -> (k: usize)
    requires
        a <= e <= cs@.len(),
    ensures
        k == at_column(cs@, a as int, e as int, column as int),
        a <= k <= e,
{
    let cells = grapheme_lens(cs, a, e);
    let ghost g = unicode_graphemes(cs@.subrange(a as int, e as int));
    let mut k: usize = 0;
    let mut start: usize = 0;
    let mut used: usize = 0;
    proof {
        assert(g.take(0) =~= Seq::<Seq<char>>::empty());
    }
    while k < cells.len()
        invariant
            a <= e <= cs@.len(),
            g == unicode_graphemes(cs@.subrange(a as int, e as int)),
            g.flatten() == cs@.subrange(a as int, e as int),
            cells_match(cells@, g),
            k <= g.len(),
            start == gstart(g, k as int),
            a + start <= e,
            at_column(cs@, a as int, e as int, column as int) == col_from(
                g,
                a as int,
                e as int,
                column as int,
                k as int,
                used as int,
            ),
        decreases g.len() - k,
    {
        proof {
            lemma_gstart_step(g, k as int);
            lemma_gstart_prefix(g, k as int + 1);
        }
        let x = a + start;
        let w = cells[k].1;
        if column <= used {
            return x;
        }
        if column < used.saturating_add(w) {
            if column - used < w - (column - used) {
                return x;
            } else {
                return x + cells[k].0;
            }
        }
        used = used.saturating_add(w);
        start = start + cells[k].0;
        k += 1;
    }
    e
}

/// The character index where byte offset `b` of `cs` starts a character.
fn char_index_of(cs: &[char], b: usize) -> (r: usize)
    requires
        byte_cut(cs@, 0, b as int) matches Some(Some(_)),
    ensures
        byte_cut(cs@, 0, b as int) == Some(Some(r as int)),
        r <= cs@.len(),
{
    let n = cs.len();
    let mut k: usize = 0;
    let mut left = b;
    while left > 0 && k < n
        invariant
            k <= n == cs@.len(),
            byte_cut(cs@, 0, b as int) == byte_cut(cs@, k as int, left as int),
            byte_cut(cs@, 0, b as int) matches Some(Some(_)),
        decreases n - k,
    {
        let w = char_len_utf8(cs[k]);
        left -= w;
        k += 1;
    }
    k
}

/// `a - b`, or 0 when `b` is larger.
pub open spec fn sat_sub(a: int, b: int) -> int {
    if a >= b {
        a - b
    } else {
        0
    }
}

pub open spec fn min_int(a: int, b: int) -> int {
    if a <= b {
        a
    } else {
        b
    }
}

/// The first row shown once the caret at `caret_row` is kept in view, with
/// a row of context around it when at least three rows are shown, and no
/// further down than `maximum`.
pub open spec fn follow_scroll(scroll: int, caret_row: int, height: int, maximum: int) -> int {
    let context = if height >= 3 {
        1int
    } else {
        0int
    };
    let moved = if caret_row < sat(scroll + context) {
        sat_sub(caret_row, context)
    } else if sat(caret_row + context) >= sat(scroll + height) {
        sat_sub(sat(caret_row + context + 1), height)
    } else {
        scroll
    };
    min_int(moved, maximum)
}

/// Where cluster scanning for a horizontal scroll of `requested` columns
/// stops, from cluster `k` on with `used` columns before it: the first
/// cluster that reaches past `requested`, and the columns before it.
pub open spec fn slice_start(g: Seq<Seq<char>>, requested: int, k: int, used: int) -> (int, int)
    decreases g.len() - k,
{
    if k < 0 || k >= g.len() {
        (g.len() as int, used)
    } else if sat(used + gw(g[k])) > requested {
        (k, used)
    } else {
        slice_start(g, requested, k + 1, sat(used + gw(g[k])))
    }
}

/// How many characters of the clusters `g` fit in `width` columns, from
/// cluster `k` on with `visible` columns filled and `end` characters taken:
/// at least one cluster, and none that would overflow after that.
pub open spec fn slice_end(g: Seq<Seq<char>>, width: int, k: int, visible: int, end: int) -> int
    decreases g.len() - k,
{
    if k < 0 || k >= g.len() {
        end
    } else if visible > 0 && sat(visible + gw(g[k])) > width {
        end
    } else if sat(visible + gw(g[k])) >= width {
        gstart(g, k) + g[k].len()
    } else {
        slice_end(g, width, k + 1, sat(visible + gw(g[k])), gstart(g, k) + g[k].len())
    }
}

/// The part of a single-line text shown at a scroll of `requested` columns
/// in `width` columns: its start and end (characters), and the scroll that
/// puts the first shown cluster at the left edge.
pub open spec fn horizontal_slice(s: Seq<char>, requested: int, width: int) -> (int, int, int) {
    if width == 0 || s.len() == 0 {
        (0, 0, 0)
    } else {
        let g = unicode_graphemes(s);
        let (k, used) = slice_start(g, requested, 0, 0);
        if k >= g.len() {
            (s.len() as int, s.len() as int, used)
        } else {
            let start = gstart(g, k);
            (start, start + slice_end(unicode_graphemes(s.skip(start)), width, 0, 0, 0), used)
        }
    }
}

/// [`horizontal_slice`] of `cs`.
fn horizontal_slice_exec(cs: &[char], requested: usize, width: usize) -> (r: (usize, usize, usize))
    ensures
        (r.0 as int, r.1 as int, r.2 as int) == horizontal_slice(cs@, requested as int, width as int),
        r.0 <= r.1 <= cs@.len(),
{
    let n = cs.len();
    if width == 0 || n == 0 {
        return (0, 0, 0);
    }
    let cells = grapheme_lens(cs, 0, n);
    let ghost g = unicode_graphemes(cs@);
    assert(cs@.subrange(0, n as int) =~= cs@);
    let mut k: usize = 0;
    let mut start: usize = 0;
    let mut used: usize = 0;
    assert(g.take(0) =~= Seq::<Seq<char>>::empty());
    while k < cells.len()
        invariant
            n == cs@.len(),
            g == unicode_graphemes(cs@),
            g.flatten() == cs@,
            cells_match(cells@, g),
            k <= g.len(),
            start == gstart(g, k as int),
            start <= n,
            slice_start(g, requested as int, 0, 0) == slice_start(g, requested as int, k as int, used as int),
        ensures
            k <= g.len(),
            start == gstart(g, k as int),
            start <= n,
            slice_start(g, requested as int, 0, 0) == (k as int, used as int),
        decreases g.len() - k,
    {
        proof {
            lemma_gstart_step(g, k as int);
            lemma_gstart_prefix(g, k as int + 1);
        }
        let next = used.saturating_add(cells[k].1);
        if next > requested {
            break;
        }
        used = next;
        start = start + cells[k].0;
        k += 1;
    }
    if k == cells.len() {
        return (n, n, used);
    }
    proof {
        lemma_gstart_prefix(g, k as int);
    }
    let tail = grapheme_lens(cs, start, n);
    let ghost h = unicode_graphemes(cs@.subrange(start as int, n as int));
    assert(cs@.subrange(start as int, n as int) =~= cs@.skip(start as int));
    let mut j: usize = 0;
    let mut at: usize = 0;
    let mut visible: usize = 0;
    let mut end: usize = 0;
    assert(h.take(0) =~= Seq::<Seq<char>>::empty());
    while j < tail.len()
        invariant_except_break
            end <= at,
        invariant
            start <= n == cs@.len(),
            h == unicode_graphemes(cs@.skip(start as int)),
            h.flatten() == cs@.skip(start as int),
            cells_match(tail@, h),
            j <= h.len(),
            at == gstart(h, j as int),
            start + at <= n,
            end <= start + n,
            start + end <= n,
            slice_end(h, width as int, 0, 0, 0) == slice_end(h, width as int, j as int, visible as int, end as int),
        ensures
            start + end <= n,
            slice_end(h, width as int, 0, 0, 0) == end,
        decreases h.len() - j,
    {
        proof {
            lemma_gstart_step(h, j as int);
            lemma_gstart_prefix(h, j as int + 1);
        }
        let w = tail[j].1;
        if visible > 0 && visible.saturating_add(w) > width {
            break;
        }
        visible = visible.saturating_add(w);
        end = at + tail[j].0;
        if visible >= width {
            break;
        }
        at = at + tail[j].0;
        j += 1;
    }
    (start, start + end, used)
}

/// The first row shown: the old one, no further down than `maximum`, then
/// moved to keep the caret in view when following it.
fn scrolled_to_caret(scroll: usize, caret_row: usize, height: usize, maximum: usize, follow: bool) -> (r: usize)
    ensures
        r == (if follow {
            follow_scroll(min_int(scroll as int, maximum as int), caret_row as int, height as int, maximum as int)
        } else {
            min_int(scroll as int, maximum as int)
        }),
{
    let mut scroll = if scroll > maximum {
        maximum
    } else {
        scroll
    };
    if follow {
        let context: usize = if height >= 3 {
            1
        } else {
            0
        };
        if caret_row < scroll.saturating_add(context) {
            scroll = caret_row.saturating_sub(context);
        } else if caret_row.saturating_add(context) >= scroll.saturating_add(height) {
            scroll = caret_row.saturating_add(context + 1).saturating_sub(height);
        }
        if scroll > maximum {
            scroll = maximum;
        }
    }
    scroll
}

/// The first column shown: the old one, no further right than `maximum`,
/// then moved to keep the caret at column `caret` in view when following it.
fn sideways_to_caret(scroll: usize, caret: usize, width: usize, maximum: usize, follow: bool) -> (r: usize)
    ensures
        ({
            let clamped = min_int(scroll as int, maximum as int);
            r == (if follow {
                min_int(
                    if caret < clamped {
                        caret as int
                    } else if caret >= sat(clamped + width) {
                        sat_sub(sat(caret + 1), width as int)
                    } else {
                        clamped
                    },
                    maximum as int,
                )
            } else {
                clamped
            })
        }),
{
    let mut scroll = if scroll > maximum {
        maximum
    } else {
        scroll
    };
    if follow {
        if caret < scroll {
            scroll = caret;
        } else if caret >= scroll.saturating_add(width) {
            scroll = caret.saturating_add(1).saturating_sub(width);
        }
        if scroll > maximum {
            scroll = maximum;
        }
    }
    scroll
}

/// The caret of a single-line layout, when its column is shown.
fn single_line_caret(caret: usize, scroll: usize, width: usize, shown: bool, content: Rect) -> (r: Option<Position>)
    requires
        width <= u16::MAX,
    ensures
        r == (if caret >= scroll && sat_sub(caret as int, scroll as int) < width && shown {
            Some(Position { x: add_u16(content.x as int, sat_sub(caret as int, scroll as int)) as u16, y: content.y })
        } else {
            None
        }),
{
    let relative = caret.saturating_sub(scroll);
    if caret >= scroll && relative < width && shown {
        Some(Position::new(content.x.saturating_add(relative as u16), content.y))
    } else {
        None
    }
}

/// The caret of a multi-line layout, when its row is shown.
fn multiline_caret(caret_row: usize, caret_column: usize, scroll: usize, height: usize, content: Rect) -> (r: Option<Position>)
    ensures
        r == (if caret_row >= scroll && caret_row - scroll < height && content.width > 0 && content.height > 0 {
            Some(
                Position {
                    x: add_u16(content.x as int, min_int(caret_column as int, content.width - 1)) as u16,
                    y: add_u16(content.y as int, caret_row - scroll) as u16,
                },
            )
        } else {
            None
        }),
{
    if caret_row >= scroll && caret_row - scroll < height && content.width > 0 && content.height > 0 {
        let limit = (content.width - 1) as usize;
        let column = if caret_column < limit {
            caret_column
        } else {
            limit
        };
        let row = caret_row - scroll;
        let y = if row > u16::MAX as usize {
            u16::MAX
        } else {
            content.y.saturating_add(row as u16)
        };
        Some(Position::new(content.x.saturating_add(column as u16), y))
    } else {
        None
    }
}

/// Which text of a canvas node the editor changes.
#[derive(Debug, Clone, Copy, PartialEq, Eq, Structural)]
pub enum CanvasNodeEditField {
    Text,
    Link,
    GroupLabel,
}

impl CanvasNodeEditField {
    /// The name shown for the field.
    pub fn label(self) -> (s: &'static str)
        ensures
            s@ == (match self {
                CanvasNodeEditField::Text => "text"@,
                CanvasNodeEditField::Link => "link"@,
                CanvasNodeEditField::GroupLabel => "group name"@,
            }),
    {
        match self {
            CanvasNodeEditField::Text => "text",
            CanvasNodeEditField::Link => "link",
            CanvasNodeEditField::GroupLabel => "group name",
        }
    }

    /// Only a node's text spans several lines.
    pub fn multiline(self) -> (b: bool)
        ensures
            b == (self == CanvasNodeEditField::Text),
    {
        self == CanvasNodeEditField::Text
    }
}

/// A row of the editor that a click can land on: its screen area and the
/// byte range of the draft it shows.
#[derive(Debug, Clone, Copy, PartialEq, Eq, Structural)]
pub struct CanvasEditorHitRow {
    pub area: Rect,
    pub start: usize,
    pub end: usize,
}

/// A row of the editor as it is drawn.
#[derive(Debug, Clone)]
pub struct CanvasEditorRenderRow {
    pub area: Rect,
    pub text: String,
}

/// What to draw for the editor: its rows, the caret, and which way text
/// or the caret lies out of view.
#[derive(Debug, Clone)]
pub struct CanvasEditorLayout {
    pub rows: Vec<CanvasEditorRenderRow>,
    pub caret: Option<Position>,
    pub hidden_before: bool,
    pub hidden_after: bool,
    pub caret_before: bool,
    pub caret_after: bool,
    pub multiline: bool,
}

/// The editor open over a canvas node.
#[derive(Debug, Clone)]
pub struct CanvasNodeEditor {
    pub node: usize,
    pub field: CanvasNodeEditField,
    pub draft: String,
    pub cursor: usize,
    pub viewport_width: usize,
    pub viewport_height: usize,
    pub scroll_row: usize,
    pub scroll_column: usize,
    pub preferred_column: Option<usize>,
    pub follow_cursor: bool,
    pub editor_area: Rect,
    pub hit_rows: Vec<CanvasEditorHitRow>,
    pub total_rows: usize,
    pub caret_row: usize,
    pub caret_column: usize,
}

/// A line break as the field keeps it: a space in single-line fields.
pub open spec fn line_break(multiline: bool) -> char {
    if multiline {
        '\n'
    } else {
        ' '
    }
}

/// Inserted text with `\r\n` and lone `\r` turned into line breaks, and
/// line breaks turned into spaces in single-line fields.
pub open spec fn clean_text(t: Seq<char>, multiline: bool) -> Seq<char>
    decreases t.len(),
{
    if t.len() == 0 {
        seq![]
    } else if t.len() >= 2 && t[0] == '\r' && t[1] == '\n' {
        seq![line_break(multiline)] + clean_text(t.skip(2), multiline)
    } else {
        seq![if t[0] == '\r' || t[0] == '\n' {
            line_break(multiline)
        } else {
            t[0]
        }] + clean_text(t.skip(1), multiline)
    }
}

pub proof fn lemma_clean_text_bytes(t: Seq<char>, multiline: bool)
    ensures
        utf8_len(clean_text(t, multiline)) <= utf8_len(t),
    decreases t.len(),
{
    if t.len() > 0 {
        let k: int = if t.len() >= 2 && t[0] == '\r' && t[1] == '\n' {
            2
        } else {
            1
        };
        let rest = clean_text(t.skip(k), multiline);
        lemma_clean_text_bytes(t.skip(k), multiline);
        assert(t =~= t.take(k) + t.skip(k));
        lemma_utf8_len_concat(t.take(k), t.skip(k));
        let h = clean_text(t, multiline)[0];
        assert(clean_text(t, multiline) =~= seq![h] + rest);
        lemma_utf8_len_concat(seq![h], rest);
        assert(seq![h].drop_last() =~= Seq::<char>::empty());
        assert(t.take(1).drop_last() =~= Seq::<char>::empty());
        assert(char_utf8_len('\n') == 1);
        assert(char_utf8_len(' ') == 1);
        assert(char_utf8_len('\r') == 1);
        lemma_utf8_len_push(Seq::<char>::empty(), h);
        assert(seq![h] =~= Seq::<char>::empty().push(h));
        assert(utf8_len(Seq::<char>::empty()) == 0);
        assert(utf8_len(seq![h]) == char_utf8_len(h));
        lemma_utf8_len_push(Seq::<char>::empty(), t[0]);
        assert(t.take(1) =~= Seq::<char>::empty().push(t[0]));
        assert(utf8_len(t.take(1)) == char_utf8_len(t[0]));
        if k == 2 {
            assert(t.take(2).drop_last() =~= t.take(1));
            assert(utf8_len(t.take(2)) == utf8_len(t.take(1)) + char_utf8_len(t[1]));
        }
        assert(h == t[0] || char_utf8_len(h) == 1);
    }
}

/// Text inserted into a single-line field holds no line break.
pub proof fn lemma_clean_single_line(t: Seq<char>)
    ensures
        !clean_text(t, false).contains('\n'),
    decreases t.len(),
{
    if t.len() > 0 {
        let k: int = if t.len() >= 2 && t[0] == '\r' && t[1] == '\n' {
            2
        } else {
            1
        };
        lemma_clean_single_line(t.skip(k));
        let rest = clean_text(t.skip(k), false);
        let whole = clean_text(t, false);
        assert(whole =~= seq![whole[0]] + rest);
        assert(whole[0] != '\n');
        assert forall|i: int| 0 <= i < whole.len() implies whole[i] != '\n' by {
            if i > 0 {
                assert(whole[i] == rest[i - 1]);
            }
        }
    }
}

/// Single-line fields stay on one line: inserting any text into a draft
/// without a line break, at any boundary, gives a draft without one.
pub proof fn lemma_single_line_insert_keeps_one_line(s: Seq<char>, c: int, t: Seq<char>)
    requires
        !s.contains('\n'),
        0 <= c <= s.len(),
    ensures
        !(s.take(c) + clean_text(t, false) + s.skip(c)).contains('\n'),
{
    lemma_clean_single_line(t);
    let u = clean_text(t, false);
    let r = s.take(c) + u + s.skip(c);
    assert forall|i: int| 0 <= i < r.len() implies r[i] != '\n' by {
        if i < c {
            assert(r[i] == s[i]);
        } else if i < c + u.len() {
            assert(r[i] == u[i - c]);
        } else {
            assert(r[i] == s[i - u.len()]);
        }
    }
}

/// Builds [`clean_text`] of `t`.
fn clean_text_exec(t: &str, multiline: bool) -> (out: Vec<char>)
    ensures
        out@ == clean_text(t@, multiline),
{
    let cs = chars_of(t);
    let n = cs.len();
    let brk = if multiline {
        '\n'
    } else {
        ' '
    };
    let mut out: Vec<char> = Vec::new();
    let mut i: usize = 0;
    assert(cs@.skip(0) =~= cs@);
    assert(out@ + clean_text(cs@, multiline) =~= clean_text(cs@, multiline));
    while i < n
        invariant
            n == cs@.len(),
            cs@ == t@,
            i <= n,
            brk == line_break(multiline),
            clean_text(t@, multiline) == out@ + clean_text(cs@.skip(i as int), multiline),
        decreases n - i,
    {
        let ghost rest = cs@.skip(i as int);
        if i + 1 < n && cs[i] == '\r' && cs[i + 1] == '\n' {
            assert(rest.skip(2) =~= cs@.skip(i + 2));
            out.push(brk);
            i += 2;
        } else {
            let c = cs[i];
            let d = if c == '\r' || c == '\n' {
                brk
            } else {
                c
            };
            assert(rest.skip(1) =~= cs@.skip(i + 1));
            out.push(d);
            i += 1;
        }
        assert(out@ + clean_text(cs@.skip(i as int), multiline) =~= out@.drop_last() + (seq![
            out@.last(),
        ] + clean_text(cs@.skip(i as int), multiline)));
    }
    assert(cs@.skip(n as int) =~= Seq::<char>::empty());
    assert(out@ + Seq::<char>::empty() =~= out@);
    out
}

impl CanvasNodeEditor {
    /// The draft's UTF-8 length fits in a `usize`.
    pub open spec fn fits(&self) -> bool {
        utf8_len(self.draft@) <= usize::MAX
    }

    /// The fields that editing and cursor moves leave alone.
    pub open spec fn same_frame(&self, other: &Self) -> bool {
        &&& self.node == other.node
        &&& self.field == other.field
        &&& self.viewport_width == other.viewport_width
        &&& self.viewport_height == other.viewport_height
        &&& self.scroll_row == other.scroll_row
        &&& self.scroll_column == other.scroll_column
        &&& self.editor_area == other.editor_area
        &&& self.hit_rows@ == other.hit_rows@
        &&& self.total_rows == other.total_rows
        &&& self.caret_row == other.caret_row
        &&& self.caret_column == other.caret_column
    }

    /// The grapheme boundary (a character index) the cursor stands at.
    pub open spec fn boundary(&self) -> int {
        nearest_boundary(self.draft@, self.cursor as int)
    }

    /// An editor for `draft` with the cursor at its end, following the
    /// cursor, on a one-cell viewport.
    pub fn new(node: usize, field: CanvasNodeEditField, draft: String) -> (e: Self)
        requires
            utf8_len(draft@) <= usize::MAX,
        ensures
            e.node == node,
            e.field == field,
            e.draft@ == draft@,
            e.cursor == utf8_len(draft@),
            e.viewport_width == 1,
            e.viewport_height == 1,
            e.scroll_row == 0,
            e.scroll_column == 0,
            e.preferred_column is None,
            e.follow_cursor,
            e.editor_area == (Rect { x: 0, y: 0, width: 0, height: 0 }),
            e.hit_rows@.len() == 0,
            e.total_rows == 1,
            e.caret_row == 0,
            e.caret_column == 0,
            e.fits(),
    {
        let cs = chars_of(draft.as_str());
        let cursor = total_bytes(cs.as_slice());
        CanvasNodeEditor {
            node,
            field,
            draft,
            cursor,
            viewport_width: 1,
            viewport_height: 1,
            scroll_row: 0,
            scroll_column: 0,
            preferred_column: None,
            follow_cursor: true,
            editor_area: Rect::new(0, 0, 0, 0),
            hit_rows: Vec::new(),
            total_rows: 1,
            caret_row: 0,
            caret_column: 0,
        }
    }

    /// Inserts `text` at the cursor, after line-break clean-up, and moves
    /// the cursor past it.
    pub fn insert(&mut self, text: &str)
        requires
            old(self).fits(),
            utf8_len(old(self).draft@) + utf8_len(text@) <= usize::MAX,
        ensures
            ({
                let s = old(self).draft@;
                let c = old(self).boundary();
                let t = clean_text(text@, old(self).field == CanvasNodeEditField::Text);
                &&& final(self).draft@ == s.take(c) + t + s.skip(c)
                &&& final(self).cursor == byte_at(s, c) + utf8_len(t)
            }),
            final(self).follow_cursor,
            final(self).preferred_column is None,
            final(self).same_frame(old(self)),
            final(self).fits(),
    {
        let cs = chars_of(self.draft.as_str());
        let n = cs.len();
        let c = nearest_boundary_exec(cs.as_slice(), self.cursor);
        let t = clean_text_exec(text, self.field.multiline());
        let ghost s = cs@;
        proof {
            lemma_clean_text_bytes(text@, self.field == CanvasNodeEditField::Text);
            assert(s =~= s.take(c as int) + s.skip(c as int));
            lemma_utf8_len_concat(s.take(c as int), s.skip(c as int));
            lemma_utf8_len_concat(s.take(c as int), t@);
            lemma_utf8_len_concat(s.take(c as int) + t@, s.skip(c as int));
            assert(cs@.subrange(0, c as int) =~= s.take(c as int));
            assert(cs@.subrange(c as int, n as int) =~= s.skip(c as int));
            assert(t@.subrange(0, t@.len() as int) =~= t@);
        }
        let mut draft = String::new();
        push_range(&mut draft, cs.as_slice(), 0, c);
        push_range(&mut draft, t.as_slice(), 0, t.len());
        push_range(&mut draft, cs.as_slice(), c, n);
        let before = byte_at_exec(cs.as_slice(), c);
        let added = utf8_len_range(t.as_slice(), 0, t.len());
        self.draft = draft;
        self.cursor = before + added;
        self.follow_cursor = true;
        self.preferred_column = None;
    }

    /// Removes the grapheme cluster before the cursor.
    pub fn backspace(&mut self)
        requires
            old(self).fits(),
        ensures
            ({
                let s = old(self).draft@;
                let c = old(self).boundary();
                let p = prev_boundary(s, c);
                &&& final(self).draft@ == (if p < c {
                    s.take(p) + s.skip(c)
                } else {
                    s
                })
                &&& final(self).cursor == byte_at(s, p)
            }),
            final(self).follow_cursor,
            final(self).preferred_column is None,
            final(self).same_frame(old(self)),
            final(self).fits(),
    {
        let cs = chars_of(self.draft.as_str());
        let n = cs.len();
        let c = nearest_boundary_exec(cs.as_slice(), self.cursor);
        let p = prev_boundary_exec(cs.as_slice(), c);
        let ghost s = cs@;
        if p < c {
            proof {
                assert(s =~= s.take(c as int) + s.skip(c as int));
                assert(s.take(c as int) =~= s.take(p as int) + s.subrange(p as int, c as int));
                lemma_utf8_len_concat(s.take(c as int), s.skip(c as int));
                lemma_utf8_len_concat(s.take(p as int), s.subrange(p as int, c as int));
                lemma_utf8_len_concat(s.take(p as int), s.skip(c as int));
                assert(cs@.subrange(0, p as int) =~= s.take(p as int));
                assert(cs@.subrange(c as int, n as int) =~= s.skip(c as int));
            }
            let mut draft = String::new();
            push_range(&mut draft, cs.as_slice(), 0, p);
            push_range(&mut draft, cs.as_slice(), c, n);
            self.draft = draft;
        }
        self.cursor = byte_at_exec(cs.as_slice(), p);
        self.follow_cursor = true;
        self.preferred_column = None;
    }

    /// Removes the grapheme cluster after the cursor.
    pub fn delete(&mut self)
        requires
            old(self).fits(),
        ensures
            ({
                let s = old(self).draft@;
                let c = old(self).boundary();
                let x = next_boundary(s, c);
                &&& final(self).draft@ == (if x > c {
                    s.take(c) + s.skip(x)
                } else {
                    s
                })
                &&& final(self).cursor == byte_at(s, c)
            }),
            final(self).follow_cursor,
            final(self).preferred_column is None,
            final(self).same_frame(old(self)),
            final(self).fits(),
    {
        let cs = chars_of(self.draft.as_str());
        let n = cs.len();
        let c = nearest_boundary_exec(cs.as_slice(), self.cursor);
        let x = next_boundary_exec(cs.as_slice(), c);
        let ghost s = cs@;
        if x > c {
            proof {
                assert(s =~= s.take(c as int) + s.skip(c as int));
                assert(s.skip(c as int) =~= s.subrange(c as int, x as int) + s.skip(x as int));
                lemma_utf8_len_concat(s.take(c as int), s.skip(c as int));
                lemma_utf8_len_concat(s.subrange(c as int, x as int), s.skip(x as int));
                lemma_utf8_len_concat(s.take(c as int), s.skip(x as int));
                assert(cs@.subrange(0, c as int) =~= s.take(c as int));
                assert(cs@.subrange(x as int, n as int) =~= s.skip(x as int));
            }
            let mut draft = String::new();
            push_range(&mut draft, cs.as_slice(), 0, c);
            push_range(&mut draft, cs.as_slice(), x, n);
            self.draft = draft;
        }
        self.cursor = byte_at_exec(cs.as_slice(), c);
        self.follow_cursor = true;
        self.preferred_column = None;
    }

    /// Moves the cursor one grapheme cluster left (`delta < 0`) or right.
    pub fn move_horizontal(&mut self, delta: isize)
        requires
            old(self).fits(),
        ensures
            ({
                let s = old(self).draft@;
                let c = old(self).boundary();
                final(self).cursor == byte_at(
                    s,
                    if delta < 0 {
                        prev_boundary(s, c)
                    } else {
                        next_boundary(s, c)
                    },
                )
            }),
            final(self).draft@ == old(self).draft@,
            final(self).follow_cursor,
            final(self).preferred_column is None,
            final(self).same_frame(old(self)),
    {
        let cs = chars_of(self.draft.as_str());
        let c = nearest_boundary_exec(cs.as_slice(), self.cursor);
        let k = if delta < 0 {
            prev_boundary_exec(cs.as_slice(), c)
        } else {
            next_boundary_exec(cs.as_slice(), c)
        };
        self.cursor = byte_at_exec(cs.as_slice(), k);
        self.follow_cursor = true;
        self.preferred_column = None;
    }

    /// Moves the cursor to the start or the end of the draft.
    pub fn move_document_boundary(&mut self, end: bool)
        requires
            old(self).fits(),
        ensures
            final(self).cursor == (if end {
                utf8_len(old(self).draft@) as int
            } else {
                0
            }),
            final(self).draft@ == old(self).draft@,
            final(self).follow_cursor,
            final(self).preferred_column is None,
            final(self).same_frame(old(self)),
    {
        self.cursor = if end {
            let cs = chars_of(self.draft.as_str());
            total_bytes(cs.as_slice())
        } else {
            0
        };
        self.follow_cursor = true;
        self.preferred_column = None;
    }

    /// The rows of the draft at the current viewport width.
    pub open spec fn rows(&self) -> Seq<(int, int)> {
        visual_rows(self.draft@, self.viewport_width as int)
    }

    /// Moves the cursor one visual row up (`delta < 0`) or down in a
    /// multi-line field, keeping to the column it started from.
    pub fn move_vertical(&mut self, delta: isize)
        requires
            old(self).fits(),
        ensures
            ({
                let o = old(self);
                let s = o.draft@;
                let c = o.boundary();
                let rows = o.rows();
                let (row, column) = caret_of(s, o.viewport_width as int, c);
                let preferred = match o.preferred_column {
                    Some(p) => p as int,
                    None => column,
                };
                let target = if delta < 0 {
                    if row >= 1 { row - 1 } else { 0 }
                } else if row + 1 < rows.len() - 1 {
                    row + 1
                } else {
                    rows.len() - 1
                };
                if o.field != CanvasNodeEditField::Text {
                    *final(self) == *o
                } else {
                    &&& final(self).cursor == byte_at(
                        s,
                        if target != row {
                            at_column(s, rows[target].0, rows[target].1, preferred)
                        } else {
                            c
                        },
                    )
                    &&& final(self).preferred_column == Some(preferred as usize)
                    &&& final(self).follow_cursor
                    &&& final(self).draft@ == s
                    &&& final(self).same_frame(o)
                }
            }),
    {
        if !self.field.multiline() {
            return;
        }
        let cs = chars_of(self.draft.as_str());
        let c = nearest_boundary_exec(cs.as_slice(), self.cursor);
        let cb = byte_at_exec(cs.as_slice(), c);
        self.cursor = cb;
        let rows = visual_rows_exec(cs.as_slice(), self.viewport_width);
        let (row, column) = visual_cursor(cs.as_slice(), cb, &rows);
        let preferred = match self.preferred_column {
            Some(p) => p,
            None => column,
        };
        let last = rows.len() - 1;
        let target = if delta < 0 {
            if row >= 1 {
                row - 1
            } else {
                0
            }
        } else if row + 1 < last {
            row + 1
        } else {
            last
        };
        if target != row {
            let (a, e) = rows[target];
            proof {
                assert(rows_view(rows@)[target as int] == (a as int, e as int));
            }
            let k = at_column_exec(cs.as_slice(), a, e, preferred);
            self.cursor = byte_at_exec(cs.as_slice(), k);
        }
        self.preferred_column = Some(preferred);
        self.follow_cursor = true;
    }

    /// Moves the cursor a screenful of rows up (`delta < 0`) or down in a
    /// multi-line field, keeping to the column it started from.
    pub fn move_page(&mut self, delta: isize)
        requires
            old(self).fits(),
        ensures
            ({
                let o = old(self);
                let s = o.draft@;
                let c = o.boundary();
                let rows = o.rows();
                let (row, column) = caret_of(s, o.viewport_width as int, c);
                let preferred = match o.preferred_column {
                    Some(p) => p as int,
                    None => column,
                };
                let distance = if o.viewport_height < 1 { 1 } else { o.viewport_height as int };
                let target = if delta < 0 {
                    if row >= distance { row - distance } else { 0 }
                } else if sat(row + distance) < rows.len() - 1 {
                    sat(row + distance)
                } else {
                    rows.len() - 1
                };
                if o.field != CanvasNodeEditField::Text {
                    *final(self) == *o
                } else {
                    &&& final(self).cursor == byte_at(
                        s,
                        at_column(s, rows[target].0, rows[target].1, preferred),
                    )
                    &&& final(self).preferred_column == Some(preferred as usize)
                    &&& final(self).follow_cursor
                    &&& final(self).draft@ == s
                    &&& final(self).same_frame(o)
                }
            }),
    {
        if !self.field.multiline() {
            return;
        }
        let cs = chars_of(self.draft.as_str());
        let c = nearest_boundary_exec(cs.as_slice(), self.cursor);
        let cb = byte_at_exec(cs.as_slice(), c);
        self.cursor = cb;
        let rows = visual_rows_exec(cs.as_slice(), self.viewport_width);
        let (row, column) = visual_cursor(cs.as_slice(), cb, &rows);
        let preferred = match self.preferred_column {
            Some(p) => p,
            None => column,
        };
        let distance = if self.viewport_height < 1 {
            1
        } else {
            self.viewport_height
        };
        let last = rows.len() - 1;
        let target = if delta < 0 {
            row.saturating_sub(distance)
        } else {
            let down = row.saturating_add(distance);
            if down < last {
                down
            } else {
                last
            }
        };
        let (a, e) = rows[target];
        proof {
            assert(rows_view(rows@)[target as int] == (a as int, e as int));
        }
        let k = at_column_exec(cs.as_slice(), a, e, preferred);
        self.cursor = byte_at_exec(cs.as_slice(), k);
        self.preferred_column = Some(preferred);
        self.follow_cursor = true;
    }

    /// Moves the cursor to the start or the end of its visual row (of the
    /// whole draft in a single-line field).
    pub fn move_row_boundary(&mut self, end: bool)
        requires
            old(self).fits(),
        ensures
            ({
                let o = old(self);
                let s = o.draft@;
                let c = o.boundary();
                let rows = o.rows();
                let row = caret_of(s, o.viewport_width as int, c).0;
                final(self).cursor == if o.field == CanvasNodeEditField::Text {
                    byte_at(s, if end { rows[row].1 } else { rows[row].0 })
                } else if end {
                    utf8_len(s) as int
                } else {
                    0
                }
            }),
            final(self).draft@ == old(self).draft@,
            final(self).follow_cursor,
            final(self).preferred_column is None,
            final(self).same_frame(old(self)),
    {
        let cs = chars_of(self.draft.as_str());
        let c = nearest_boundary_exec(cs.as_slice(), self.cursor);
        let cb = byte_at_exec(cs.as_slice(), c);
        self.cursor = cb;
        if self.field.multiline() {
            let rows = visual_rows_exec(cs.as_slice(), self.viewport_width);
            let (row, _column) = visual_cursor(cs.as_slice(), cb, &rows);
            let (a, e) = rows[row];
            proof {
                assert(rows_view(rows@)[row as int] == (a as int, e as int));
                assert(rows_chained(rows_view(rows@)));
            }
            self.cursor = byte_at_exec(cs.as_slice(), if end {
                e
            } else {
                a
            });
        } else {
            self.cursor = if end {
                total_bytes(cs.as_slice())
            } else {
                0
            };
        }
        self.follow_cursor = true;
        self.preferred_column = None;
    }

    /// Every hit row spans whole characters of the draft.
    pub open spec fn hit_rows_fit(&self) -> bool {
        forall|i: int|
            0 <= i < self.hit_rows@.len() ==> {
                let r = #[trigger] self.hit_rows@[i];
                &&& byte_cut(self.draft@, 0, r.start as int) matches Some(Some(a))
                &&& byte_cut(self.draft@, 0, r.end as int) matches Some(Some(b))
                &&& a <= b
            }
    }

    /// Index of the first hit row whose area holds `p`, from `i` on.
    pub open spec fn hit_row_from(&self, p: Position, i: int) -> Option<int>
        decreases self.hit_rows@.len() - i,
    {
        if i < 0 || i >= self.hit_rows@.len() {
            None
        } else if self.hit_rows@[i].area.holds(p) {
            Some(i)
        } else {
            self.hit_row_from(p, i + 1)
        }
    }

    /// Puts the cursor at the boundary nearest to a click at `pointer`, if
    /// the click lands on a row of the editor; says whether it did.
    pub fn place_cursor(&mut self, pointer: Position) -> (placed: bool)
        requires
            old(self).fits(),
            old(self).hit_rows_fit(),
        ensures
            ({
                let o = old(self);
                let s = o.draft@;
                match o.hit_row_from(pointer, 0) {
                    None => !placed && *final(self) == *o,
                    Some(i) => {
                        let r = o.hit_rows@[i];
                        let a = byte_cut(s, 0, r.start as int)->0->0;
                        let b = byte_cut(s, 0, r.end as int)->0->0;
                        let column = if pointer.x >= r.area.x { pointer.x - r.area.x } else { 0 };
                        &&& placed
                        &&& final(self).cursor == byte_at(s, at_column(s, a, b, column))
                        &&& final(self).draft@ == s
                        &&& final(self).follow_cursor
                        &&& final(self).preferred_column is None
                        &&& final(self).same_frame(o)
                    },
                }
            }),
    {
        let m = self.hit_rows.len();
        let mut i: usize = 0;
        while i < m
            invariant
                m == self.hit_rows@.len(),
                i <= m,
                self.hit_row_from(pointer, 0) == self.hit_row_from(pointer, i as int),
            ensures
                i <= m,
                self.hit_row_from(pointer, 0) == self.hit_row_from(pointer, i as int),
                i < m ==> self.hit_rows@[i as int].area.holds(pointer),
            decreases m - i,
        {
            if self.hit_rows[i].area.contains(pointer) {
                break;
            }
            i += 1;
        }
        if i == m {
            return false;
        }
        let row = self.hit_rows[i];
        assert(self.hit_rows@[i as int] == row);
        let column: usize = pointer.x.saturating_sub(row.area.x) as usize;
        let cs = chars_of(self.draft.as_str());
        let a = char_index_of(cs.as_slice(), row.start);
        let b = char_index_of(cs.as_slice(), row.end);
        let k = at_column_exec(cs.as_slice(), a, b, column);
        self.cursor = byte_at_exec(cs.as_slice(), k);
        self.follow_cursor = true;
        self.preferred_column = None;
        true
    }

    /// Where the text of a multi-line editor goes within `area`: all of it
    /// but a one-column scroll rail on the right when there is room for one.
    pub open spec fn ml_content(area: Rect) -> Rect {
        Rect {
            x: area.x,
            y: area.y,
            width: (if area.width >= 2 {
                area.width - 1
            } else {
                area.width as int
            }) as u16,
            height: area.height,
        }
    }

    /// Where the text of a single-line editor goes within `area`: its first
    /// row, less a gutter column on each side when it is wide enough.
    pub open spec fn sl_content(area: Rect) -> Rect {
        let height = min_int(area.height as int, 1) as u16;
        if area.width >= 3 {
            Rect { x: add_u16(area.x as int, 1) as u16, y: area.y, width: (area.width - 2) as u16, height }
        } else {
            Rect { x: area.x, y: area.y, width: area.width, height }
        }
    }

    /// The screen row `i` rows below the top of `content`.
    pub open spec fn row_area(content: Rect, i: int) -> Rect {
        Rect { x: content.x, y: add_u16(content.y as int, i) as u16, width: content.width, height: 1 }
    }

    /// The fields that laying out leaves alone.
    pub open spec fn same_text(&self, other: &Self) -> bool {
        &&& self.node == other.node
        &&& self.field == other.field
        &&& self.draft@ == other.draft@
        &&& self.cursor == other.cursor
        &&& self.preferred_column == other.preferred_column
        &&& self.follow_cursor == other.follow_cursor
        &&& self.editor_area == other.editor_area
    }

    /// `f` and `l` are what laying out the multi-line editor `o` in `area`
    /// gives: soft-wrapped rows at the content width, scrolled to keep the
    /// caret in view when following it, one render row and one hit row per
    /// row shown (appended to those of `o`), and the caret where it shows.
    pub open spec fn multiline_laid_out(o: Self, f: Self, l: CanvasEditorLayout, area: Rect, base: Seq<CanvasEditorHitRow>) -> bool {
        let s = o.draft@;
        let content = Self::ml_content(area);
        let vw = if content.width < 1 { 1int } else { content.width as int };
        let vh = if content.height < 1 { 1int } else { content.height as int };
        let rows = visual_rows(s, vw);
        let (cr, cc) = vcursor_from(s, rows, nearest_boundary(s, o.cursor as int), 0);
        let maximum = sat_sub(rows.len() as int, vh);
        let clamped = min_int(o.scroll_row as int, maximum);
        let scroll = if o.follow_cursor {
            follow_scroll(clamped, cr, vh, maximum)
        } else {
            clamped
        };
        let count = min_int(vh, rows.len() - scroll);
        &&& f.same_text(&o)
        &&& f.scroll_column == o.scroll_column
        &&& f.viewport_width == vw
        &&& f.viewport_height == vh
        &&& f.total_rows == rows.len()
        &&& f.caret_row == cr
        &&& f.caret_column == cc
        &&& f.scroll_row == scroll
        &&& l.rows@.len() == count
        &&& f.hit_rows@.len() == base.len() + count
        &&& forall|i: int|
            0 <= i < count ==> (#[trigger] l.rows@[i]).area == Self::row_area(content, i)
                && l.rows@[i].text@ == s.subrange(rows[scroll + i].0, rows[scroll + i].1)
        &&& forall|i: int| 0 <= i < base.len() ==> f.hit_rows@[i] == base[i]
        &&& forall|i: int|
            0 <= i < count ==> f.hit_rows@[base.len() + i] == (CanvasEditorHitRow {
                area: Self::row_area(content, i),
                start: byte_at(s, rows[scroll + i].0) as usize,
                end: byte_at(s, rows[scroll + i].1) as usize,
            })
        &&& l.caret == (if cr >= scroll && cr - scroll < vh && content.width > 0 && content.height > 0 {
            Some(
                Position {
                    x: add_u16(content.x as int, min_int(cc, content.width - 1)) as u16,
                    y: add_u16(content.y as int, cr - scroll) as u16,
                },
            )
        } else {
            None
        })
        &&& l.hidden_before == (scroll > 0)
        &&& l.hidden_after == (sat(scroll + vh) < rows.len())
        &&& l.caret_before == (cr < scroll)
        &&& l.caret_after == (cr >= sat(scroll + vh))
        &&& l.multiline
    }

    /// `f` and `l` are what laying out the single-line editor `o`, its
    /// cursor at boundary `c`, in `area` gives: the draft scrolled
    /// sideways to keep the caret in view when following it, shown from
    /// the first cluster at that scroll, as one render row and one hit row
    /// (appended to those of `o`) when the content area is not empty.
    pub open spec fn single_line_laid_out(o: Self, f: Self, l: CanvasEditorLayout, area: Rect, c: int, base: Seq<CanvasEditorHitRow>) -> bool {
        let s = o.draft@;
        let content = Self::sl_content(area);
        let vw = if content.width < 1 { 1int } else { content.width as int };
        let total = unicode_str_width(s) as int;
        let cc = unicode_str_width(s.take(c)) as int;
        let maximum = sat_sub(total, sat_sub(vw, 1));
        let clamped = min_int(o.scroll_column as int, maximum);
        let wanted = if o.follow_cursor {
            min_int(
                if cc < clamped {
                    cc
                } else if cc >= sat(clamped + vw) {
                    sat_sub(sat(cc + 1), vw)
                } else {
                    clamped
                },
                maximum,
            )
        } else {
            clamped
        };
        let (start, end, scroll) = horizontal_slice(s, wanted, vw);
        let shown = content.width > 0 && content.height > 0;
        let relative = sat_sub(cc, scroll);
        &&& f.same_text(&o)
        &&& f.scroll_row == o.scroll_row
        &&& f.viewport_width == vw
        &&& f.viewport_height == 1
        &&& f.total_rows == 1
        &&& f.caret_row == 0
        &&& f.caret_column == cc
        &&& f.scroll_column == scroll
        &&& l.rows@.len() == (if shown { 1int } else { 0int })
        &&& (shown ==> l.rows@[0].area == content && l.rows@[0].text@ == s.subrange(start, end))
        &&& f.hit_rows@ == (if shown {
            base.push(
                CanvasEditorHitRow { area: content, start: byte_at(s, start) as usize, end: byte_at(s, end) as usize },
            )
        } else {
            base
        })
        &&& l.caret == (if cc >= scroll && relative < vw && shown {
            Some(Position { x: add_u16(content.x as int, relative) as u16, y: content.y })
        } else {
            None
        })
        &&& l.hidden_before == (scroll > 0)
        &&& l.hidden_after == (total > sat(scroll + vw))
        &&& l.caret_before == (cc < scroll)
        &&& l.caret_after == (cc >= sat(scroll + vw))
        &&& !l.multiline
    }

    #[verifier::rlimit(40)]
    #[verifier::spinoff_prover]
    fn layout_multiline(&mut self, area: Rect) -> (l: CanvasEditorLayout)
        requires
            old(self).fits(),
        ensures
            Self::multiline_laid_out(*old(self), *final(self), l, area, old(self).hit_rows@),
    {
        let cs = chars_of(self.draft.as_str());
        let ghost s = cs@;
        let rail: u16 = if area.width >= 2 {
            1
        } else {
            0
        };
        let content = Rect::new(area.x, area.y, area.width - rail, area.height);
        let vw: usize = if content.width < 1 {
            1
        } else {
            content.width as usize
        };
        let vh: usize = if content.height < 1 {
            1
        } else {
            content.height as usize
        };
        self.viewport_width = vw;
        self.viewport_height = vh;
        let visual = visual_rows_exec(cs.as_slice(), vw);
        let (caret_row, caret_column) = visual_cursor(cs.as_slice(), self.cursor, &visual);
        self.total_rows = visual.len();
        self.caret_row = caret_row;
        self.caret_column = caret_column;
        let maximum = visual.len().saturating_sub(vh);
        let scroll = scrolled_to_caret(self.scroll_row, caret_row, vh, maximum, self.follow_cursor);
        self.scroll_row = scroll;
        let count = if vh < visual.len() - scroll {
            vh
        } else {
            visual.len() - scroll
        };
        let out = self.push_rows(cs.as_slice(), &visual, scroll, count, content);
        let caret = multiline_caret(caret_row, caret_column, scroll, vh, content);
        let visible_end = scroll.saturating_add(vh);
        CanvasEditorLayout {
            rows: out,
            caret,
            hidden_before: scroll > 0,
            hidden_after: visible_end < visual.len(),
            caret_before: caret_row < scroll,
            caret_after: caret_row >= visible_end,
            multiline: true,
        }
    }

    fn single_line_content(area: Rect) -> (r: Rect)
        ensures
            r == Self::sl_content(area),
    {
        let height: u16 = if area.height < 1 {
            area.height
        } else {
            1
        };
        if area.width >= 3 {
            Rect::new(area.x.saturating_add(1), area.y, area.width - 2, height)
        } else {
            Rect::new(area.x, area.y, area.width, height)
        }
    }

    #[verifier::rlimit(40)]
    #[verifier::spinoff_prover]
    fn layout_single_line(&mut self, area: Rect, c: usize) -> (l: CanvasEditorLayout)
        requires
            old(self).fits(),
            c <= old(self).draft@.len(),
        ensures
            Self::single_line_laid_out(*old(self), *final(self), l, area, c as int, old(self).hit_rows@),
    {
        let cs = chars_of(self.draft.as_str());
        let n = cs.len();
        let ghost s = cs@;
        let content = Self::single_line_content(area);
        let vw: usize = if content.width < 1 {
            1
        } else {
            content.width as usize
        };
        self.viewport_width = vw;
        self.viewport_height = 1;
        let total = cols(cs.as_slice(), 0, n);
        let caret_column = cols(cs.as_slice(), 0, c);
        assert(s.subrange(0, n as int) =~= s);
        assert(s.subrange(0, c as int) =~= s.take(c as int));
        self.total_rows = 1;
        self.caret_row = 0;
        self.caret_column = caret_column;
        let maximum = total.saturating_sub(vw.saturating_sub(1));
        let scroll = sideways_to_caret(self.scroll_column, caret_column, vw, maximum, self.follow_cursor);
        let (start, end, normalized) = horizontal_slice_exec(cs.as_slice(), scroll, vw);
        self.scroll_column = normalized;
        let shown = content.width > 0 && content.height > 0;
        let mut rows: Vec<CanvasEditorRenderRow> = Vec::new();
        if shown {
            let text = string_of_range(cs.as_slice(), start, end);
            rows.push(CanvasEditorRenderRow { area: content, text });
            let ba = byte_at_exec(cs.as_slice(), start);
            let be = byte_at_exec(cs.as_slice(), end);
            self.hit_rows.push(CanvasEditorHitRow { area: content, start: ba, end: be });
        }
        let caret = single_line_caret(caret_column, normalized, vw, shown, content);
        let visible_end = normalized.saturating_add(vw);
        CanvasEditorLayout {
            rows,
            caret,
            hidden_before: normalized > 0,
            hidden_after: total > visible_end,
            caret_before: caret_column < normalized,
            caret_after: caret_column >= visible_end,
            multiline: false,
        }
    }

    /// Lays the editor out in `area`: remembers the area, normalises the
    /// cursor to a grapheme boundary, and builds the rows, hit rows and
    /// caret of a multi-line or a single-line field.
    pub fn layout(&mut self, area: Rect) -> (l: CanvasEditorLayout)
        requires
            old(self).fits(),
        ensures
            ({
                let o = *old(self);
                let f = *final(self);
                let c = o.boundary();
                let start = CanvasNodeEditor { editor_area: area, cursor: byte_at(o.draft@, c) as usize, ..o };
                let none = Seq::<CanvasEditorHitRow>::empty();
                if o.field == CanvasNodeEditField::Text {
                    Self::multiline_laid_out(start, f, l, area, none)
                } else {
                    Self::single_line_laid_out(start, f, l, area, c, none)
                }
            }),
    {
        self.editor_area = area;
        self.hit_rows = Vec::new();
        let cs = chars_of(self.draft.as_str());
        let c = nearest_boundary_exec(cs.as_slice(), self.cursor);
        self.cursor = byte_at_exec(cs.as_slice(), c);
        if self.field.multiline() {
            self.layout_multiline(area)
        } else {
            self.layout_single_line(area, c)
        }
    }

    /// Appends a hit row for each of `count` rows from row `scroll` on, and
    /// returns their render rows.
    fn push_rows(
        &mut self,
        cs: &[char],
        visual: &Vec<(usize, usize)>,
        scroll: usize,
        count: usize,
        content: Rect,
    ) -> (out: Vec<CanvasEditorRenderRow>)
        requires
            cs@ == old(self).draft@,
            utf8_len(cs@) <= usize::MAX,
            rows_cover(rows_view(visual@), 0, cs@.len() as int),
            scroll + count <= visual@.len(),
            count <= u16::MAX,
        ensures
            ({
                let s = cs@;
                let rows = rows_view(visual@);
                let o = *old(self);
                let f = *final(self);
                &&& f.same_text(&o)
                &&& f.scroll_row == o.scroll_row
                &&& f.scroll_column == o.scroll_column
                &&& f.viewport_width == o.viewport_width
                &&& f.viewport_height == o.viewport_height
                &&& f.total_rows == o.total_rows
                &&& f.caret_row == o.caret_row
                &&& f.caret_column == o.caret_column
                &&& out@.len() == count
                &&& f.hit_rows@.len() == o.hit_rows@.len() + count
                &&& forall|j: int|
                    0 <= j < count ==> (#[trigger] out@[j]).area == Self::row_area(content, j)
                        && out@[j].text@ == s.subrange(rows[scroll + j].0, rows[scroll + j].1)
                &&& forall|j: int| 0 <= j < o.hit_rows@.len() ==> f.hit_rows@[j] == o.hit_rows@[j]
                &&& forall|j: int|
                    0 <= j < count ==> f.hit_rows@[o.hit_rows@.len() + j] == (CanvasEditorHitRow {
                        area: Self::row_area(content, j),
                        start: byte_at(s, rows[scroll + j].0) as usize,
                        end: byte_at(s, rows[scroll + j].1) as usize,
                    })
            }),
    {
        let ghost s = cs@;
        let ghost rows = rows_view(visual@);
        let vl = visual.len();
        let mut out: Vec<CanvasEditorRenderRow> = Vec::new();
        let ghost base = self.hit_rows@;
        let mut i: usize = 0;
        while i < count
            invariant
                s == cs@,
                s == self.draft@,
                self.same_text(old(self)),
                self.scroll_row == old(self).scroll_row,
                self.scroll_column == old(self).scroll_column,
                self.viewport_width == old(self).viewport_width,
                self.viewport_height == old(self).viewport_height,
                self.total_rows == old(self).total_rows,
                self.caret_row == old(self).caret_row,
                self.caret_column == old(self).caret_column,
                base == old(self).hit_rows@,
                utf8_len(s) <= usize::MAX,
                rows == rows_view(visual@),
                vl == visual@.len(),
                rows.len() == vl,
                rows_cover(rows, 0, s.len() as int),
                scroll + count <= vl,
                count <= u16::MAX,
                i <= count,
                out@.len() == i,
                self.hit_rows@.len() == base.len() + i,
                forall|j: int|
                    0 <= j < i ==> (#[trigger] out@[j]).area == Self::row_area(content, j)
                        && out@[j].text@ == s.subrange(rows[scroll + j].0, rows[scroll + j].1),
                forall|j: int| 0 <= j < base.len() ==> self.hit_rows@[j] == base[j],
                forall|j: int|
                    0 <= j < i ==> self.hit_rows@[base.len() + j] == (CanvasEditorHitRow {
                        area: Self::row_area(content, j),
                        start: byte_at(s, rows[scroll + j].0) as usize,
                        end: byte_at(s, rows[scroll + j].1) as usize,
                    }),
            decreases count - i,
        {
            let (a, e) = visual[scroll + i];
            assert(rows[scroll + i] == (a as int, e as int));
            let row_area = Rect::new(content.x, content.y.saturating_add(i as u16), content.width, 1);
            let text = string_of_range(cs, a, e);
            let ba = byte_at_exec(cs, a);
            let be = byte_at_exec(cs, e);
            let ghost before_out = out@;
            let ghost before_hits = self.hit_rows@;
            out.push(CanvasEditorRenderRow { area: row_area, text });
            self.hit_rows.push(CanvasEditorHitRow { area: row_area, start: ba, end: be });
            proof {
                assert forall|j: int| 0 <= j < i + 1 implies (#[trigger] out@[j]).area == Self::row_area(content, j)
                    && out@[j].text@ == s.subrange(rows[scroll + j].0, rows[scroll + j].1) by {
                    if j < i {
                        assert(out@[j] == before_out[j]);
                    }
                }
                assert forall|j: int| 0 <= j < i + 1 implies self.hit_rows@[base.len() + j] == (CanvasEditorHitRow {
                        area: Self::row_area(content, j),
                        start: byte_at(s, rows[scroll + j].0) as usize,
                        end: byte_at(s, rows[scroll + j].1) as usize,
                    }) by {
                    if j < i {
                        assert(self.hit_rows@[base.len() + j] == before_hits[base.len() + j]);
                    }
                }
            }
            i += 1;
        }
        out
    }

    /// Scrolls a multi-line editor whose rows overflow it by `delta` rows,
    /// no further than the last screenful, and stops following the cursor.
    pub fn scroll(&mut self, delta: isize)
        ensures
            ({
                let o = old(self);
                if o.field != CanvasNodeEditField::Text || o.total_rows <= o.viewport_height {
                    *final(self) == *o
                } else {
                    let height = if o.viewport_height == 0 { 1int } else { o.viewport_height as int };
                    let maximum = if o.total_rows >= height { o.total_rows - height } else { 0int };
                    &&& final(self).scroll_row == (if delta < 0 {
                        if o.scroll_row + delta < 0 { 0int } else { o.scroll_row + delta }
                    } else {
                        let up = if o.scroll_row + delta > usize::MAX { usize::MAX as int } else { o.scroll_row + delta };
                        if up < maximum { up } else { maximum }
                    })
                    &&& !final(self).follow_cursor
                    &&& final(self).draft@ == o.draft@
                    &&& final(self).cursor == o.cursor
                    &&& final(self).preferred_column == o.preferred_column
                    &&& final(self).node == o.node
                    &&& final(self).field == o.field
                    &&& final(self).viewport_width == o.viewport_width
                    &&& final(self).viewport_height == o.viewport_height
                    &&& final(self).scroll_column == o.scroll_column
                    &&& final(self).editor_area == o.editor_area
                    &&& final(self).hit_rows@ == o.hit_rows@
                    &&& final(self).total_rows == o.total_rows
                    &&& final(self).caret_row == o.caret_row
                    &&& final(self).caret_column == o.caret_column
                }
            }),
    {
        if !self.field.multiline() || self.total_rows <= self.viewport_height {
            return;
        }
        let height = if self.viewport_height == 0 {
            1
        } else {
            self.viewport_height
        };
        let maximum = self.total_rows.saturating_sub(height);
        self.scroll_row = if delta < 0 {
            let back: usize = if delta == isize::MIN {
                (isize::MAX as usize) + 1
            } else {
                (-delta) as usize
            };
            self.scroll_row.saturating_sub(back)
        } else {
            let up = self.scroll_row.saturating_add(delta as usize);
            if up < maximum {
                up
            } else {
                maximum
            }
        };
        self.follow_cursor = false;
    }
}

/// A handle on the border of a selected canvas node that resizes it.
#[derive(Debug, Clone, Copy, PartialEq, Eq, Structural)]
pub enum CanvasResizeHandle {
    Top,
    TopRight,
    Right,
    BottomRight,
    Bottom,
    BottomLeft,
    Left,
    TopLeft,
}

impl CanvasResizeHandle {
    /// Dragging the handle moves the node's left edge.
    pub fn affects_left(self) -> (b: bool)
        ensures
            b == (self is Left || self is TopLeft || self is BottomLeft),
    {
        matches!(self, CanvasResizeHandle::Left | CanvasResizeHandle::TopLeft | CanvasResizeHandle::BottomLeft)
    }

    /// Dragging the handle moves the node's right edge.
    pub fn affects_right(self) -> (b: bool)
        ensures
            b == (self is Right || self is TopRight || self is BottomRight),
    {
        matches!(self, CanvasResizeHandle::Right | CanvasResizeHandle::TopRight | CanvasResizeHandle::BottomRight)
    }

    /// Dragging the handle moves the node's top edge.
    pub fn affects_top(self) -> (b: bool)
        ensures
            b == (self is Top || self is TopLeft || self is TopRight),
    {
        matches!(self, CanvasResizeHandle::Top | CanvasResizeHandle::TopLeft | CanvasResizeHandle::TopRight)
    }

    /// Dragging the handle moves the node's bottom edge.
    pub fn affects_bottom(self) -> (b: bool)
        ensures
            b == (self is Bottom || self is BottomLeft || self is BottomRight),
    {
        matches!(self, CanvasResizeHandle::Bottom | CanvasResizeHandle::BottomLeft | CanvasResizeHandle::BottomRight)
    }

    /// The handle sits on a corner.
    pub fn is_corner(self) -> (b: bool)
        ensures
            b == (self is TopLeft || self is TopRight || self is BottomRight || self is BottomLeft),
    {
        matches!(
            self,
            CanvasResizeHandle::TopLeft | CanvasResizeHandle::TopRight | CanvasResizeHandle::BottomRight
                | CanvasResizeHandle::BottomLeft
        )
    }

    /// The arrow drawn for the handle: vertical, horizontal or diagonal.
    pub fn glyph(self) -> (c: char)
        ensures
            c == (match self {
                CanvasResizeHandle::Top | CanvasResizeHandle::Bottom => '↕',
                CanvasResizeHandle::Left | CanvasResizeHandle::Right => '↔',
                CanvasResizeHandle::TopLeft | CanvasResizeHandle::BottomRight => '╲',
                CanvasResizeHandle::TopRight | CanvasResizeHandle::BottomLeft => '╱',
            }),
    {
        match self {
            CanvasResizeHandle::Top | CanvasResizeHandle::Bottom => '↕',
            CanvasResizeHandle::Left | CanvasResizeHandle::Right => '↔',
            CanvasResizeHandle::TopLeft | CanvasResizeHandle::BottomRight => '╲',
            CanvasResizeHandle::TopRight | CanvasResizeHandle::BottomLeft => '╱',
        }
    }
}

} // verus!
