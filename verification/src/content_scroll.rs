//! How many rows a wrapped line of text takes, and which item the content
//! pane starts drawing from so that the cursor item is on screen.
use vstd::prelude::*;

use crate::content_layout::{cell_visible_width, shown_text};
use crate::text::{chars_of, is_whitespace, string_of_range, unicode_white_space};
use crate::width::unicode_str_width;

verus! {

/// The rows taken by the shown items with index in `lo..hi`.
pub open spec fn shown_rows(h: Seq<u16>, v: Seq<bool>, lo: int, hi: int) -> int
    decreases hi - lo,
{
    if hi <= lo {
        0
    } else {
        shown_rows(h, v, lo, hi - 1) + if v[hi - 1] {
            h[hi - 1] as int
        } else {
            0
        }
    }
}

/// Scanning forward from item `i` with `used` rows filled: the last shown
/// item that still fits in `height` rows before the first that does not
/// (`last` when none does).
pub open spec fn last_fitting(h: Seq<u16>, v: Seq<bool>, i: int, used: int, height: int, last: int) -> int
    decreases h.len() - i,
{
    if i < 0 || i >= h.len() {
        last
    } else if !v[i] {
        last_fitting(h, v, i + 1, used, height, last)
    } else if used + h[i] > height {
        last
    } else {
        last_fitting(h, v, i + 1, used + h[i], height, i)
    }
}

/// Scanning backward from item `i` with `used` rows filled: the first shown
/// item that still fits in `height` rows before the first that does not
/// (`first` when none does).
pub open spec fn first_fitting_back(h: Seq<u16>, v: Seq<bool>, i: int, used: int, height: int, first: int) -> int
    decreases i + 1,
{
    if i < 0 {
        first
    } else if !v[i] {
        first_fitting_back(h, v, i - 1, used, height, first)
    } else if used + h[i] > height {
        first
    } else {
        first_fitting_back(h, v, i - 1, used + h[i], height, i)
    }
}

/// Scanning forward from item `i` (up to the cursor) with `used` rows of the
/// rows `total` up to the cursor dropped: the item after the first shown one
/// whose dropping leaves at most `height` rows, or 0 when none does.
pub open spec fn first_trim(h: Seq<u16>, v: Seq<bool>, i: int, used: int, total: int, height: int, cursor: int) -> int
    decreases h.len() - i,
{
    if i < 0 || i >= h.len() {
        0
    } else if !v[i] {
        first_trim(h, v, i + 1, used, total, height, cursor)
    } else if i > cursor {
        0
    } else if total - (used + h[i]) <= height {
        i + 1
    } else {
        first_trim(h, v, i + 1, used + h[i], total, height, cursor)
    }
}

/// Where the content pane starts and the scroll position it records
/// (the start plus one), as the renderer decides it.
///
/// Paging: when the cursor is on the first page (the shown items from the
/// top that fit) the pane starts at the top; otherwise it starts at the
/// first item of the shown items before the cursor that fit with it.
///
/// Floating cursor: the pane keeps its start (one before the recorded
/// position) while the cursor is on the page from there; above it, the pane
/// starts at the cursor; below it, it starts after the first items whose
/// dropping lets the rest up to the cursor fit.
pub open spec fn scroll_decision(
    h: Seq<u16>,
    v: Seq<bool>,
    cursor: int,
    height: int,
    floating: bool,
    stored: int,
) -> (int, int) {
    if floating {
        let base = if stored > 0 {
            stored - 1
        } else {
            0
        };
        let last = last_fitting(h, v, base, 0, height, base);
        if cursor < base {
            (cursor, cursor + 1)
        } else if cursor > last {
            let total = shown_rows(h, v, 0, cursor + 1);
            let start = first_trim(h, v, 0, 0, total, height, cursor);
            (start, start + 1)
        } else {
            (base, stored)
        }
    } else {
        let last = last_fitting(h, v, 0, 0, height, 0);
        if cursor <= last {
            (0, 1)
        } else {
            let first = first_fitting_back(h, v, cursor, 0, height, cursor);
            (first, first + 1)
        }
    }
}

proof fn lemma_shown_rows_step(h: Seq<u16>, v: Seq<bool>, lo: int, hi: int)
    requires
        lo <= hi,
    ensures
        shown_rows(h, v, lo, hi + 1) == shown_rows(h, v, lo, hi) + if v[hi] {
            h[hi] as int
        } else {
            0
        },
{
}

proof fn lemma_shown_rows_low_step(h: Seq<u16>, v: Seq<bool>, lo: int, hi: int)
    requires
        lo < hi,
    ensures
        shown_rows(h, v, lo, hi) == shown_rows(h, v, lo + 1, hi) + if v[lo] {
            h[lo] as int
        } else {
            0
        },
    decreases hi - lo,
{
    assert(shown_rows(h, v, lo, lo) == 0);
    assert(shown_rows(h, v, lo + 1, lo + 1) == 0);
    if lo + 1 < hi {
        lemma_shown_rows_low_step(h, v, lo, hi - 1);
        lemma_shown_rows_step(h, v, lo + 1, hi - 1);
    }
}

proof fn lemma_shown_rows_monotone(h: Seq<u16>, v: Seq<bool>, lo: int, a: int, b: int)
    requires
        lo <= a <= b,
    ensures
        shown_rows(h, v, lo, a) <= shown_rows(h, v, lo, b),
    decreases b - a,
{
    if a < b {
        lemma_shown_rows_monotone(h, v, lo, a, b - 1);
        lemma_shown_rows_step(h, v, lo, b - 1);
    }
}

/// The forward scan ends where it started or on an item whose shown items
/// from the start through it fit.
proof fn lemma_last_fitting(h: Seq<u16>, v: Seq<bool>, start: int, i: int, used: int, height: int, last: int)
    requires
        0 <= start <= i,
        used == shown_rows(h, v, start, i),
    ensures
        ({
            let r = last_fitting(h, v, i, used, height, last);
            r == last || shown_rows(h, v, start, r + 1) <= height
        }),
    decreases h.len() - i,
{
    if i < h.len() {
        lemma_shown_rows_step(h, v, start, i);
        if !v[i] {
            lemma_last_fitting(h, v, start, i + 1, used, height, last);
        } else if used + h[i] <= height {
            lemma_last_fitting(h, v, start, i + 1, used + h[i], height, i);
        }
    }
}

/// The backward scan ends where it started or on an item whose shown items
/// through the cursor fit, never after where it started.
proof fn lemma_first_fitting_back(h: Seq<u16>, v: Seq<bool>, cursor: int, i: int, used: int, height: int, first: int)
    requires
        -1 <= i <= first <= cursor < h.len(),
        used == shown_rows(h, v, i + 1, cursor + 1),
    ensures
        ({
            let r = first_fitting_back(h, v, i, used, height, first);
            &&& r <= first
            &&& (r == first || shown_rows(h, v, r, cursor + 1) <= height)
        }),
    decreases i + 1,
{
    if i >= 0 {
        lemma_shown_rows_low_step(h, v, i, cursor + 1);
        if !v[i] {
            lemma_first_fitting_back(h, v, cursor, i - 1, used, height, first);
        } else if used + h[i] <= height {
            lemma_first_fitting_back(h, v, cursor, i - 1, used + h[i], height, i);
        }
    }
}

/// Where the content pane starts drawing and the scroll position to record
/// (see `scroll_decision`). `heights[i]` is item `i`'s height in rows and
/// `visible[i]` whether it is shown (not folded away); `stored_offset` is
/// the recorded position from the last frame.
pub fn content_scroll_offset(
    heights: &[u16],
    visible: &[bool],
    cursor: usize,
    viewport_height: u16,
    floating: bool,
    stored_offset: usize,
) -> (r: (usize, usize))
    requires
        heights.len() == visible.len(),
        cursor < heights.len(),
        forall|i: int| 0 <= i < heights.len() ==> heights@[i] + viewport_height <= u16::MAX,
        floating ==> shown_rows(heights@, visible@, 0, cursor + 1) <= u16::MAX,
        floating ==> cursor + 1 < usize::MAX,
    ensures
        r.0 == scroll_decision(heights@, visible@, cursor as int, viewport_height as int, floating, stored_offset as int).0,
        r.1 == scroll_decision(heights@, visible@, cursor as int, viewport_height as int, floating, stored_offset as int).1,
        !floating && visible@[cursor as int] && heights@[cursor as int] <= viewport_height ==> {
            &&& r.0 <= cursor
            &&& shown_rows(heights@, visible@, r.0 as int, cursor + 1) <= viewport_height
        },
{
    if floating {
        floating_offset(heights, visible, cursor, viewport_height, stored_offset)
    } else {
        paging_offset(heights, visible, cursor, viewport_height)
    }
}

fn last_fitting_exec(heights: &[u16], visible: &[bool], from: usize, height: u16) -> (last: usize)
    requires
        heights.len() == visible.len(),
        forall|i: int| 0 <= i < heights.len() ==> heights@[i] + height <= u16::MAX,
    ensures
        last == last_fitting(heights@, visible@, from as int, 0, height as int, from as int),
{
    let n = heights.len();
    let ghost h = heights@;
    let ghost v = visible@;
    let mut used: u16 = 0;
    let mut last = from;
    let mut i = from;
    while i < n
        invariant_except_break
            last_fitting(h, v, from as int, 0, height as int, from as int) == last_fitting(
                h,
                v,
                i as int,
                used as int,
                height as int,
                last as int,
            ),
        invariant
            n == h.len(),
            h == heights@,
            v == visible@,
            n == v.len(),
            used <= height,
            from <= i,
            forall|k: int| 0 <= k < n ==> h[k] + height <= u16::MAX,
        ensures
            last_fitting(h, v, from as int, 0, height as int, from as int) == last as int,
        decreases n - i,
    {
        if !visible[i] {
            i += 1;
            continue;
        }
        let item_height = heights[i];
        if used + item_height > height {
            break;
        }
        used += item_height;
        last = i;
        i += 1;
    }
    last
}

fn paging_offset(heights: &[u16], visible: &[bool], cursor: usize, height: u16) -> (r: (usize, usize))
    requires
        heights.len() == visible.len(),
        cursor < heights.len(),
        forall|i: int| 0 <= i < heights.len() ==> heights@[i] + height <= u16::MAX,
    ensures
        r.0 == scroll_decision(heights@, visible@, cursor as int, height as int, false, 0).0,
        r.1 == scroll_decision(heights@, visible@, cursor as int, height as int, false, 0).1,
        visible@[cursor as int] && heights@[cursor as int] <= height ==> {
            &&& r.0 <= cursor
            &&& shown_rows(heights@, visible@, r.0 as int, cursor + 1) <= height
        },
{
    let ghost h = heights@;
    let ghost v = visible@;
    let last = last_fitting_exec(heights, visible, 0, height);
    proof {
        lemma_last_fitting(h, v, 0, 0, 0, height as int, 0);
    }
    if cursor <= last {
        proof {
            if v[cursor as int] && h[cursor as int] <= height {
                if last > 0 {
                    lemma_shown_rows_monotone(h, v, 0, cursor + 1, last + 1);
                } else {
                    lemma_shown_rows_step(h, v, 0, 0);
                }
            }
        }
        (0, 1)
    } else {
        let n = heights.len();
        let mut used: u16 = 0;
        let mut first = cursor;
        let mut k: usize = cursor + 1;
        while k > 0
            invariant_except_break
                first_fitting_back(h, v, cursor as int, 0, height as int, cursor as int) == first_fitting_back(
                    h,
                    v,
                    k - 1,
                    used as int,
                    height as int,
                    first as int,
                ),
            invariant
                n == h.len(),
                h == heights@,
                v == visible@,
                n == v.len(),
                cursor < n,
                k <= cursor + 1,
                used <= height,
                forall|q: int| 0 <= q < n ==> h[q] + height <= u16::MAX,
            ensures
                first_fitting_back(h, v, cursor as int, 0, height as int, cursor as int) == first as int,
            decreases k,
        {
            let idx = k - 1;
            if visible[idx] {
                let item_height = heights[idx];
                if used + item_height > height {
                    break;
                }
                used += item_height;
                first = idx;
            }
            k -= 1;
        }
        proof {
            assert(shown_rows(h, v, cursor + 1, cursor + 1) == 0);
            lemma_first_fitting_back(h, v, cursor as int, cursor as int, 0, height as int, cursor as int);
            if v[cursor as int] && h[cursor as int] <= height {
                lemma_shown_rows_low_step(h, v, cursor as int, cursor + 1);
            }
        }
        (first, first + 1)
    }
}

fn floating_offset(heights: &[u16], visible: &[bool], cursor: usize, height: u16, stored_offset: usize) -> (r: (
    usize,
    usize,
))
    requires
        heights.len() == visible.len(),
        cursor < heights.len(),
        forall|i: int| 0 <= i < heights.len() ==> heights@[i] + height <= u16::MAX,
        shown_rows(heights@, visible@, 0, cursor + 1) <= u16::MAX,
        cursor + 1 < usize::MAX,
    ensures
        r.0 == scroll_decision(heights@, visible@, cursor as int, height as int, true, stored_offset as int).0,
        r.1 == scroll_decision(heights@, visible@, cursor as int, height as int, true, stored_offset as int).1,
{
    let n = heights.len();
    let ghost h = heights@;
    let ghost v = visible@;
    let base = if stored_offset > 0 {
        stored_offset - 1
    } else {
        0
    };
    let last = last_fitting_exec(heights, visible, base, height);
    if cursor < base {
        return (cursor, cursor + 1);
    }
    if cursor <= last {
        return (base, stored_offset);
    }
    let mut total: u16 = 0;
    let mut k: usize = 0;
    while k <= cursor
        invariant
            n == h.len(),
            h == heights@,
            v == visible@,
            n == v.len(),
            cursor < n,
            k <= cursor + 1,
            total == shown_rows(h, v, 0, k as int),
            shown_rows(h, v, 0, cursor + 1) <= u16::MAX,
        decreases cursor + 1 - k,
    {
        proof {
            lemma_shown_rows_step(h, v, 0, k as int);
            lemma_shown_rows_monotone(h, v, 0, k + 1, cursor + 1);
        }
        if visible[k] {
            total += heights[k];
        }
        k += 1;
    }
    let mut start: usize = 0;
    let mut so_far: u16 = 0;
    let mut j: usize = 0;
    while j < n
        invariant_except_break
            first_trim(h, v, 0, 0, total as int, height as int, cursor as int) == first_trim(
                h,
                v,
                j as int,
                so_far as int,
                total as int,
                height as int,
                cursor as int,
            ),
            start == 0,
            so_far == shown_rows(h, v, 0, j as int),
        invariant
            n == h.len(),
            h == heights@,
            v == visible@,
            n == v.len(),
            cursor < n,
            j <= n,
            start <= cursor + 1,
            total == shown_rows(h, v, 0, cursor + 1),
            total <= u16::MAX,
        ensures
            first_trim(h, v, 0, 0, total as int, height as int, cursor as int) == start as int,
            start <= cursor + 1,
        decreases n - j,
    {
        proof {
            lemma_shown_rows_step(h, v, 0, j as int);
        }
        if !visible[j] {
            j += 1;
            continue;
        }
        if j > cursor {
            break;
        }
        proof {
            lemma_shown_rows_monotone(h, v, 0, j + 1, cursor + 1);
        }
        so_far += heights[j];
        if total - so_far <= height {
            start = j + 1;
            break;
        }
        j += 1;
    }
    (start, start + 1)
}

/// The first index at or after `i` whose character is not whitespace (or
/// the end).
pub open spec fn skip_space(s: Seq<char>, i: int) -> int
    decreases s.len() - i,
{
    if i < 0 || i >= s.len() || !unicode_white_space(s[i]) {
        i
    } else {
        skip_space(s, i + 1)
    }
}

/// The first index at or after `i` whose character is whitespace (or the
/// end).
pub open spec fn word_end(s: Seq<char>, i: int) -> int
    decreases s.len() - i,
{
    if i < 0 || i >= s.len() || unicode_white_space(s[i]) {
        i
    } else {
        word_end(s, i + 1)
    }
}

/// Rows a word of width `w` adds, and the width left used on its last row,
/// after a row filled to `cur` columns of `cw`: a word starts a row when the
/// row is empty or it does not fit after a space; a word wider than a row
/// spills over into more rows.
pub open spec fn place_word(cur: int, w: int, cw: int) -> (int, int) {
    if cur == 0 {
        (if w > cw {
            (w - 1) / cw
        } else {
            0
        }, w)
    } else if cur + 1 + w <= cw {
        (0, cur + 1 + w)
    } else {
        (1 + if w > cw {
            (w - 1) / cw
        } else {
            0
        }, if w < cw {
            w
        } else {
            cw
        })
    }
}

/// Rows taken by the words of `s` from index `i`, wrapped into rows of `cw`
/// columns, with `rows` rows so far and the last filled to `cur` columns.
/// Words are separated by whitespace; a word's width is that of its rendered
/// Markdown.
pub open spec fn wrap_rows(s: Seq<char>, i: int, cw: int, rows: int, cur: int) -> int
    decreases s.len() - i,
{
    let a = skip_space(s, i);
    if i < 0 || a >= s.len() {
        rows
    } else {
        let b = word_end(s, a);
        let w = unicode_str_width(shown_text(s.subrange(a, b), 0)) as int;
        let (more, next) = place_word(cur, w, cw);
        if b <= i || b > s.len() {
            rows
        } else {
            wrap_rows(s, b, cw, rows + more, next)
        }
    }
}

/// Rows a line of text takes in the content pane, `prefix_len` columns of
/// its `available_width` taken by markers: 1 for empty text or no room,
/// else the wrapped rows held to `max_item_height`.
pub open spec fn wrapped_height_of(s: Seq<char>, prefix_len: int, available_width: int, max_item_height: int) -> int {
    let cw = if available_width > prefix_len {
        available_width - prefix_len
    } else {
        0
    };
    if s.len() == 0 || available_width == 0 || cw == 0 {
        1
    } else {
        let rows = wrap_rows(s, 0, cw, 1, 0);
        if rows < max_item_height {
            rows
        } else {
            max_item_height
        }
    }
}

proof fn lemma_skip_space(s: Seq<char>, i: int)
    requires
        0 <= i,
    ensures
        i <= skip_space(s, i),
        skip_space(s, i) < s.len() ==> !unicode_white_space(s[skip_space(s, i)]),
        skip_space(s, i) <= s.len() || i > s.len(),
    decreases s.len() - i,
{
    if i < s.len() && unicode_white_space(s[i]) {
        lemma_skip_space(s, i + 1);
    }
}

proof fn lemma_word_end(s: Seq<char>, i: int)
    requires
        0 <= i <= s.len(),
    ensures
        i <= word_end(s, i) <= s.len(),
        i < s.len() && !unicode_white_space(s[i]) ==> i < word_end(s, i),
    decreases s.len() - i,
{
    if i < s.len() && !unicode_white_space(s[i]) {
        lemma_word_end(s, i + 1);
    }
}

proof fn lemma_wrap_rows_grow(s: Seq<char>, i: int, cw: int, rows: int, cur: int)
    requires
        cw > 0,
        0 <= i,
    ensures
        wrap_rows(s, i, cw, rows, cur) >= rows,
    decreases s.len() - i,
{
    let a = skip_space(s, i);
    if a < s.len() {
        lemma_skip_space(s, i);
        let b = word_end(s, a);
        lemma_word_end(s, a);
        let w = unicode_str_width(shown_text(s.subrange(a, b), 0)) as int;
        let (more, next) = place_word(cur, w, cw);
        assert(more >= 0) by (nonlinear_arith)
            requires
                cw > 0,
                more == place_word(cur, w, cw).0,
                w >= 0,
        {
        }
        if b > i {
            lemma_wrap_rows_grow(s, b, cw, rows + more, next);
        }
    }
}

/// Rows a line of text takes in the content pane (see `wrapped_height_of`).
pub fn wrapped_height(text: &str, prefix_len: usize, available_width: usize, max_item_height: u16) -> (rows: u16)
    requires
        available_width > prefix_len ==> wrap_rows(text@, 0, available_width - prefix_len, 1, 0) <= u16::MAX,
    ensures
        rows == wrapped_height_of(text@, prefix_len as int, available_width as int, max_item_height as int),
{
    let cs = chars_of(text);
    let n = cs.len();
    if n == 0 || available_width == 0 {
        return 1;
    }
    let cw = if available_width > prefix_len {
        available_width - prefix_len
    } else {
        0
    };
    if cw == 0 {
        return 1;
    }
    let ghost s = cs@;
    let ghost total = wrap_rows(s, 0, cw as int, 1, 0);
    let mut rows: u16 = 1;
    let mut cur: usize = 0;
    let mut i: usize = 0;
    while i < n
        invariant
            n == s.len(),
            s == cs@,
            cw > 0,
            i <= n,
            total == wrap_rows(s, i as int, cw as int, rows as int, cur as int),
            total == wrap_rows(s, 0, cw as int, 1, 0),
            total <= u16::MAX,
        decreases n - i,
    {
        let mut a = i;
        while a < n && is_whitespace(cs[a])
            invariant
                n == s.len(),
                s == cs@,
                i <= a <= n,
                skip_space(s, i as int) == skip_space(s, a as int),
            decreases n - a,
        {
            a += 1;
        }
        if a >= n {
            proof {
                assert(wrap_rows(s, i as int, cw as int, rows as int, cur as int) == rows);
            }
            i = n;
            proof {
                assert(wrap_rows(s, n as int, cw as int, rows as int, cur as int) == rows);
            }
        } else {
            let mut b = a;
            while b < n && !is_whitespace(cs[b])
                invariant
                    n == s.len(),
                    s == cs@,
                    a <= b <= n,
                    word_end(s, a as int) == word_end(s, b as int),
                decreases n - b,
            {
                b += 1;
            }
            proof {
                lemma_skip_space(s, i as int);
                lemma_word_end(s, a as int);
            }
            let word = string_of_range(cs.as_slice(), a, b);
            let w = cell_visible_width(word.as_str());
            let ghost step = place_word(cur as int, w as int, cw as int);
            proof {
                assert(word@ == s.subrange(a as int, b as int));
                lemma_wrap_rows_grow(s, b as int, cw as int, rows + step.0, step.1);
            }
            let spill: usize = if w > cw {
                (w - 1) / cw
            } else {
                0
            };
            if cur == 0 {
                rows = rows + spill as u16;
                cur = w;
            } else if cur < cw && w <= cw - 1 - cur {
                cur = cur + 1 + w;
            } else {
                rows = rows + 1 + spill as u16;
                cur = if w < cw {
                    w
                } else {
                    cw
                };
            }
            i = b;
        }
    }
    proof {
        assert(wrap_rows(s, n as int, cw as int, rows as int, cur as int) == rows);
    }
    if rows < max_item_height {
        rows
    } else {
        max_item_height
    }
}

} // verus!
