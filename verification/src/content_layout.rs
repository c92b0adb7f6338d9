//! Sizes in the rendered note: rows of inline image thumbnails, table
//! column widths, the visible width of a table cell, and the keys under
//! which image placements keep their terminal state.
use vstd::prelude::*;

use crate::keys::{decimal_text, lemma_decimal_text, push_decimal_usize};
use crate::links::{
    begins_with, lemma_find_end, lemma_link_tail, link_tail, link_tail_exec, pat_image,
    pat_image_text, pat_wiki_close, pat_wiki_open,
};
use crate::markdown::starts_with;
use crate::text::{chars_of, find_from, find_from_exec, push_char, push_range, push_str};
use crate::width::{str_width, unicode_str_width};

verus! {

/// Columns left free around a row of thumbnails.
pub const INLINE_THUMBNAIL_HORIZONTAL_PADDING: u16 = 2;

/// Columns between two thumbnails.
pub const INLINE_THUMBNAIL_GAP: u16 = 1;

/// Narrowest thumbnail, in columns.
pub const INLINE_THUMBNAIL_MIN_WIDTH: u16 = 12;

/// Widest thumbnail, in columns.
pub const INLINE_THUMBNAIL_MAX_WIDTH: u16 = 40;

/// Narrowest a table column is squeezed to.
pub const TABLE_COLUMN_MIN_WIDTH: usize = 6;

/// Columns of one thumbnail `height` rows high: twice its height (terminal
/// cells are about twice as tall as wide), within the narrowest and widest
/// thumbnail.
pub open spec fn thumbnail_width(height: int) -> int {
    if 2 * height < INLINE_THUMBNAIL_MIN_WIDTH {
        INLINE_THUMBNAIL_MIN_WIDTH as int
    } else if 2 * height > INLINE_THUMBNAIL_MAX_WIDTH {
        INLINE_THUMBNAIL_MAX_WIDTH as int
    } else {
        2 * height
    }
}

/// How many thumbnails `height` rows high fit side by side in `width`
/// columns, less the padding: at least one.
pub open spec fn thumbnails_per_row(width: int, height: int) -> int {
    let room = if width > INLINE_THUMBNAIL_HORIZONTAL_PADDING {
        width - INLINE_THUMBNAIL_HORIZONTAL_PADDING
    } else {
        0
    };
    let fit = (room + INLINE_THUMBNAIL_GAP) / (thumbnail_width(height) + INLINE_THUMBNAIL_GAP);
    if fit < 1 {
        1
    } else {
        fit
    }
}

/// Rows that `count` thumbnails take, `height` rows each, wrapped at
/// `width` columns; capped at `u16::MAX`.
pub open spec fn thumbnails_height(count: int, width: int, height: int) -> int {
    let per_row = thumbnails_per_row(width, height);
    let rows = (count + per_row - 1) / per_row;
    if rows * height > u16::MAX {
        u16::MAX as int
    } else {
        rows * height
    }
}

/// [`thumbnail_width`].
pub fn inline_thumbnail_width(height: u16) -> (w: u16)
    ensures
        w == thumbnail_width(height as int),
{
    if height < INLINE_THUMBNAIL_MIN_WIDTH / 2 {
        INLINE_THUMBNAIL_MIN_WIDTH
    } else if height > INLINE_THUMBNAIL_MAX_WIDTH / 2 {
        INLINE_THUMBNAIL_MAX_WIDTH
    } else {
        2 * height
    }
}

/// How many thumbnails fit on one row.
pub fn inline_thumbnails_per_row(width: u16, height: u16) -> (n: usize)
    ensures
        n == thumbnails_per_row(width as int, height as int),
        n >= 1,
{
    let room = width.saturating_sub(INLINE_THUMBNAIL_HORIZONTAL_PADDING) as usize;
    let slot = (inline_thumbnail_width(height) + INLINE_THUMBNAIL_GAP) as usize;
    let fit = (room + INLINE_THUMBNAIL_GAP as usize) / slot;
    if fit < 1 {
        1
    } else {
        fit
    }
}

/// Rows that `count` thumbnails take.
pub fn inline_thumbnails_height(count: usize, width: u16, height: u16) -> (h: u16)
    ensures
        h == thumbnails_height(count as int, width as int, height as int),
{
    let per_row = inline_thumbnails_per_row(width, height);
    if count == 0 {
        assert((0 + per_row - 1) / (per_row as int) == 0) by (nonlinear_arith)
            requires
                per_row >= 1,
        ;
        return 0;
    }
    proof {
        let c = count as int;
        let p = per_row as int;
        assert((c - 1) / p <= c - 1 && (c - 1) / p >= 0) by (nonlinear_arith)
            requires
                p >= 1,
                c >= 1,
        ;
        assert((c - 1) / p + 1 == (c + p - 1) / p) by (nonlinear_arith)
            requires
                p >= 1,
                c >= 1,
        ;
    }
    let rows = (count - 1) / per_row + 1;
    proof {
        assert((rows as u128) * (height as u128) <= 0x1_0000_0000_0000_0000 * 0x1_0000) by (nonlinear_arith)
            requires
                rows <= usize::MAX,
                height <= u16::MAX,
                usize::MAX <= 0xffff_ffff_ffff_ffff,
        ;
    }
    let total = (rows as u128) * (height as u128);
    if total > u16::MAX as u128 {
        u16::MAX
    } else {
        total as u16
    }
}

/// Columns a table column of natural width `w` keeps under cap `c`: all of
/// them when it fits, else the cap, but never below the narrowest column
/// (nor below its natural width when that is narrower still).
pub open spec fn capped_width(w: int, c: int) -> int {
    if w <= c {
        w
    } else {
        let floor = if w < TABLE_COLUMN_MIN_WIDTH {
            w
        } else {
            TABLE_COLUMN_MIN_WIDTH as int
        };
        if c > floor {
            c
        } else {
            floor
        }
    }
}

/// Total width of the columns `ws[k..]` under cap `c`.
pub open spec fn capped_total(ws: Seq<usize>, c: int, k: int) -> int
    decreases ws.len() - k,
{
    if k < 0 || k >= ws.len() {
        0
    } else {
        capped_width(ws[k] as int, c) + capped_total(ws, c, k + 1)
    }
}

/// The largest cap, from `c` down, under which the columns fit in
/// `available`; 0 when none does.
pub open spec fn best_cap(ws: Seq<usize>, available: int, c: int) -> int
    decreases c,
{
    if c <= 0 || capped_total(ws, c, 0) <= available {
        if c < 0 {
            0
        } else {
            c
        }
    } else {
        best_cap(ws, available, c - 1)
    }
}

/// The widest of the columns `ws[k..]`.
pub open spec fn widest(ws: Seq<usize>, k: int) -> int
    decreases ws.len() - k,
{
    if k < 0 || k >= ws.len() {
        0
    } else if ws[k] as int > widest(ws, k + 1) {
        ws[k] as int
    } else {
        widest(ws, k + 1)
    }
}

/// Table column widths fitted into `available` columns: unchanged when the
/// natural widths fit, else every column wider than a common cap is cut to
/// it, the largest cap that fits (columns never go below the narrowest
/// column width).
pub open spec fn fitted_widths(ws: Seq<usize>, available: int) -> Seq<int> {
    if capped_total(ws, widest(ws, 0), 0) <= available {
        ws.map_values(|w: usize| w as int)
    } else {
        let c = best_cap(ws, available, if widest(ws, 0) < available { widest(ws, 0) } else { available });
        ws.map_values(|w: usize| capped_width(w as int, c))
    }
}

proof fn lemma_capped_uncut(ws: Seq<usize>, c: int, k: int)
    requires
        0 <= k <= ws.len(),
        c >= widest(ws, k),
    ensures
        capped_total(ws, c, k) >= 0,
        forall|i: int| k <= i < ws.len() ==> capped_width(#[trigger] ws[i] as int, c) == ws[i],
    decreases ws.len() - k,
{
    if k < ws.len() {
        lemma_capped_uncut(ws, c, k + 1);
    }
}

/// Whether the columns fit in `available` under cap `c`.
fn fits_under(ws: &[usize], c: usize, available: usize) -> (b: bool)
    ensures
        b == (capped_total(ws@, c as int, 0) <= available),
{
    let n = ws.len();
    let mut k: usize = n;
    let mut total: usize = 0;
    while k > 0
        invariant
            k <= n == ws@.len(),
            total <= available,
            total == capped_total(ws@, c as int, k as int),
        decreases k,
    {
        k -= 1;
        let w = ws[k];
        let kept = if w <= c {
            w
        } else {
            let floor = if w < TABLE_COLUMN_MIN_WIDTH {
                w
            } else {
                TABLE_COLUMN_MIN_WIDTH
            };
            if c > floor {
                c
            } else {
                floor
            }
        };
        if kept > available - total {
            proof {
                lemma_capped_total_nonneg(ws@, c as int, 0, k as int);
            }
            return false;
        }
        total = total + kept;
    }
    true
}

/// Totals only grow towards the front.
proof fn lemma_capped_total_nonneg(ws: Seq<usize>, c: int, j: int, k: int)
    requires
        0 <= j <= k <= ws.len(),
        c >= 0,
    ensures
        capped_total(ws, c, j) >= capped_total(ws, c, k),
        capped_total(ws, c, k) >= 0,
    decreases k - j,
{
    if j < k {
        lemma_capped_total_nonneg(ws, c, j + 1, k);
    } else {
        lemma_capped_total_tail_nonneg(ws, c, k);
    }
}

proof fn lemma_capped_total_tail_nonneg(ws: Seq<usize>, c: int, k: int)
    requires
        0 <= k <= ws.len(),
        c >= 0,
    ensures
        capped_total(ws, c, k) >= 0,
    decreases ws.len() - k,
{
    if k < ws.len() {
        lemma_capped_total_tail_nonneg(ws, c, k + 1);
    }
}

/// Column widths of a table fitted into `available` columns.
pub fn cap_column_widths(natural: &[usize], available: usize) -> (out: Vec<usize>)
    ensures
        out@.map_values(|w: usize| w as int) == fitted_widths(natural@, available as int),
{
    let n = natural.len();
    let mut most: usize = 0;
    let mut k: usize = n;
    while k > 0
        invariant
            k <= n == natural@.len(),
            most == widest(natural@, k as int),
        decreases k,
    {
        k -= 1;
        if natural[k] > most {
            most = natural[k];
        }
    }
    proof {
        lemma_capped_uncut(natural@, most as int, 0);
    }
    let cap = if fits_under(natural, most, available) {
        most
    } else {
        let mut c = if most < available {
            most
        } else {
            available
        };
        while c > 0 && !fits_under(natural, c, available)
            invariant
                best_cap(natural@, available as int, if most < available { most as int } else {
                    available as int
                }) == best_cap(natural@, available as int, c as int),
            decreases c,
        {
            c -= 1;
        }
        c
    };
    let ghost fits_all = capped_total(natural@, most as int, 0) <= available;
    let mut out: Vec<usize> = Vec::new();
    let mut i: usize = 0;
    while i < n
        invariant
            i <= n == natural@.len(),
            out@.len() == i,
            forall|j: int|
                0 <= j < i ==> (#[trigger] out@[j]) as int == capped_width(natural@[j] as int, cap as int),
        decreases n - i,
    {
        let w = natural[i];
        let kept = if w <= cap {
            w
        } else {
            let floor = if w < TABLE_COLUMN_MIN_WIDTH {
                w
            } else {
                TABLE_COLUMN_MIN_WIDTH
            };
            if cap > floor {
                cap
            } else {
                floor
            }
        };
        out.push(kept);
        i += 1;
    }
    proof {
        let f = fitted_widths(natural@, available as int);
        let o = out@.map_values(|w: usize| w as int);
        if fits_all {
            assert forall|j: int| 0 <= j < n implies o[j] == f[j] by {
                assert(capped_width(natural@[j] as int, most as int) == natural@[j]);
            }
        }
        assert(o =~= f);
    }
    out
}

/// The text a table cell shows from character `i` on: a link `[label](url)`
/// shows its label (its URL when the label is empty), a text-only image
/// `!![alt](url)` likewise, a wiki link `[[target]]` its target, a preview
/// image `![alt](path)` nothing, and the emphasis and code markers `*` and
/// `` ` `` nothing; any other character shows itself.
pub open spec fn shown_text(s: Seq<char>, i: int) -> Seq<char>
    decreases s.len() - i,
{
    if i < 0 || i >= s.len() {
        seq![]
    } else if starts_with(s.skip(i), pat_image_text()) && link_tail(s, i + 2) is Some {
        let (b, q) = link_tail(s, i + 2)->0;
        proof {
            lemma_link_tail(s, i + 2);
        }
        (if b == i + 3 {
            s.subrange(b + 2, q)
        } else {
            s.subrange(i + 3, b)
        }) + shown_text(s, q + 1)
    } else if starts_with(s.skip(i), pat_image()) && link_tail(s, i + 1) is Some {
        let (_b, q) = link_tail(s, i + 1)->0;
        proof {
            lemma_link_tail(s, i + 1);
        }
        shown_text(s, q + 1)
    } else if starts_with(s.skip(i), pat_wiki_open()) && find_from(s, pat_wiki_close(), i + 2) is Some {
        let c = find_from(s, pat_wiki_close(), i + 2)->0;
        proof {
            lemma_find_end(s, pat_wiki_close(), i + 2);
        }
        s.subrange(i + 2, c) + shown_text(s, c + 2)
    } else if s[i] == '[' && link_tail(s, i) is Some {
        let (b, q) = link_tail(s, i)->0;
        proof {
            lemma_link_tail(s, i);
        }
        (if b == i + 1 {
            s.subrange(b + 2, q)
        } else {
            s.subrange(i + 1, b)
        }) + shown_text(s, q + 1)
    } else if s[i] == '*' || s[i] == '`' {
        shown_text(s, i + 1)
    } else {
        seq![s[i]] + shown_text(s, i + 1)
    }
}

/// One step of [`shown_text`] at character `i`: the range of characters
/// it shows and where it goes on.
fn shown_step(cs: &[char], i: usize) -> (r: (usize, usize, usize))
    requires
        i < cs@.len(),
    ensures
        i < r.0 <= cs@.len(),
        r.1 <= r.2 <= cs@.len(),
        shown_text(cs@, i as int) == cs@.subrange(r.1 as int, r.2 as int) + shown_text(cs@, r.0 as int),
{
    let n = cs.len();
    assert(i < n);
    let image_text = ['!', '!', '['];
    let image = ['!', '['];
    let wiki_open = ['[', '['];
    let wiki_close = [']', ']'];
    assert(image_text@ =~= pat_image_text());
    assert(image@ =~= pat_image());
    assert(wiki_open@ =~= pat_wiki_open());
    assert(wiki_close@ =~= pat_wiki_close());
    assert(pat_image_text().len() == 3);
    assert(pat_wiki_close().len() == 2);
    let ghost s = cs@;
    proof {
        lemma_link_tail(s, i + 2);
        lemma_link_tail(s, i + 1);
        lemma_link_tail(s, i as int);
        lemma_find_end(s, pat_wiki_close(), i + 2);
    }
    if begins_with(cs, i, &image_text) {
        assert(s[i + 2] == '[') by {
            assert(s.skip(i as int).take(3)[2] == pat_image_text()[2]);
        }
        if let Some((b, q)) = link_tail_exec(cs, i + 2) {
            if b == i + 3 {
                return (q + 1, b + 2, q);
            } else {
                return (q + 1, i + 3, b);
            }
        }
    }
    if begins_with(cs, i, &image) {
        if let Some((_b, q)) = link_tail_exec(cs, i + 1) {
            assert(s.subrange(q as int, q as int) + shown_text(s, q + 1) =~= shown_text(s, q + 1));
            return (q + 1, q, q);
        }
    }
    if begins_with(cs, i, &wiki_open) {
        if let Some(c) = find_from_exec(cs, &wiki_close, i + 2) {
            return (c + 2, i + 2, c);
        }
    }
    if cs[i] == '[' {
        if let Some((b, q)) = link_tail_exec(cs, i) {
            if b == i + 1 {
                return (q + 1, b + 2, q);
            } else {
                return (q + 1, i + 1, b);
            }
        }
    }
    let c = cs[i];
    if c == '*' || c == '`' {
        assert(s.subrange(i as int, i as int) + shown_text(s, i + 1) =~= shown_text(s, i + 1));
        (i + 1, i, i)
    } else {
        assert(s.subrange(i as int, i + 1) =~= seq![c]);
        (i + 1, i, i + 1)
    }
}

/// Columns a table cell takes once its Markdown is rendered.
pub fn cell_visible_width(cell: &str) -> (w: usize)
    ensures
        w == unicode_str_width(shown_text(cell@, 0)),
{
    let cs = chars_of(cell);
    let n = cs.len();
    let ghost s = cs@;
    let mut out = String::new();
    let mut i: usize = 0;
    assert(out@ + shown_text(s, 0) =~= shown_text(s, 0));
    while i < n
        invariant
            n == s.len(),
            s == cs@,
            i <= n,
            shown_text(s, 0) == out@ + shown_text(s, i as int),
        decreases n - i,
    {
        let (next, a, e) = shown_step(cs.as_slice(), i);
        let ghost before = out@;
        push_range(&mut out, cs.as_slice(), a, e);
        proof {
            assert(before + (s.subrange(a as int, e as int) + shown_text(s, next as int)) =~= out@ + shown_text(
                s,
                next as int,
            ));
        }
        i = next;
    }
    assert(out@ + shown_text(s, i as int) =~= out@);
    str_width(out.as_str())
}

pub open spec fn tag_standalone() -> Seq<char> {
    seq!['s', 't', 'a', 'n', 'd', 'a', 'l', 'o', 'n', 'e', ':']
}

pub open spec fn tag_inline() -> Seq<char> {
    seq!['i', 'n', 'l', 'i', 'n', 'e', ':']
}

/// The key of the image standing alone in content item `item`:
/// `standalone:ITEM:PATH`.
pub open spec fn standalone_key(item: nat, path: Seq<char>) -> Seq<char> {
    tag_standalone() + decimal_text(item) + seq![':'] + path
}

/// The key of inline image number `index` of content item `item`:
/// `inline:ITEM:INDEX:PATH`.
pub open spec fn inline_key(item: nat, index: nat, path: Seq<char>) -> Seq<char> {
    tag_inline() + decimal_text(item) + seq![':'] + decimal_text(index) + seq![':'] + path
}

/// The key under which the image standing alone in content item `item`
/// keeps its terminal state.
pub fn standalone_image_state_key(item: usize, path: &str) -> (k: String)
    ensures
        k@ == standalone_key(item as nat, path@),
{
    let mut k = String::new();
    push_str(&mut k, "standalone:");
    proof {
        reveal_strlit("standalone:");
        assert("standalone:"@ =~= tag_standalone());
    }
    push_decimal_usize(&mut k, item);
    push_char(&mut k, ':');
    push_str(&mut k, path);
    assert(k@ =~= standalone_key(item as nat, path@));
    k
}

/// The key under which inline image number `index` of content item `item`
/// keeps its terminal state.
pub fn inline_image_state_key(item: usize, index: usize, path: &str) -> (k: String)
    ensures
        k@ == inline_key(item as nat, index as nat, path@),
{
    let mut k = String::new();
    push_str(&mut k, "inline:");
    proof {
        reveal_strlit("inline:");
        assert("inline:"@ =~= tag_inline());
    }
    push_decimal_usize(&mut k, item);
    push_char(&mut k, ':');
    push_decimal_usize(&mut k, index);
    push_char(&mut k, ':');
    push_str(&mut k, path);
    assert(k@ =~= inline_key(item as nat, index as nat, path@));
    k
}

/// Image placements never share a key: a standalone image and an inline one
/// differ, and so do two inline images of the same item and path at
/// different positions.
pub proof fn lemma_image_keys_distinct(item: nat, index: nat, other: nat, path: Seq<char>)
    requires
        index != other,
    ensures
        standalone_key(item, path) != inline_key(item, index, path),
        inline_key(item, index, path) != inline_key(item, other, path),
{
    assert(standalone_key(item, path)[0] == 's');
    assert(inline_key(item, index, path)[0] == 'i');
    lemma_decimal_text(item);
    lemma_decimal_text(index);
    lemma_decimal_text(other);
    let head = tag_inline() + decimal_text(item) + seq![':'];
    let x = decimal_text(index);
    let y = decimal_text(other);
    let a = inline_key(item, index, path);
    let b = inline_key(item, other, path);
    assert(a == head + x + seq![':'] + path);
    assert(b == head + y + seq![':'] + path);
    if a == b {
        let h = head.len() as int;
        if x.len() == y.len() {
            assert forall|i: int| 0 <= i < x.len() implies x[i] == y[i] by {
                assert(a[h + i] == x[i]);
                assert(b[h + i] == y[i]);
            }
            assert(x =~= y);
        } else if x.len() < y.len() {
            assert(a[h + x.len() as int] == ':');
            assert(b[h + x.len() as int] == y[x.len() as int]);
        } else {
            assert(b[h + y.len() as int] == ':');
            assert(a[h + y.len() as int] == x[y.len() as int]);
        }
    }
}

} // verus!
