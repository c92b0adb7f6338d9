//! Links and images inside one line of Markdown text, and the rendered
//! column at which each appears once link syntax is collapsed.
//!
//! Positions in a text are character indices. Inline math is recognised by
//! the Markdown core, not here: callers hand in the spans it found.
use vstd::prelude::*;

use crate::markdown::{backtick_count, bare_url_end, bare_url_end_exec, lemma_bare_url_end, starts_with};
use crate::text::{
    chars_of, find_from, find_from_exec, lemma_find_from, matches_at, push_char, push_range,
    string_of_range, utf8_len, char_len_utf8, lemma_utf8_len_push,
};
use crate::width::{char_width, str_width, unicode_char_width, unicode_str_width};

verus! {

/// An inline math span `$...$` of a text, as the Markdown core found it:
/// it starts at character `start`, ends before character `end`, and its
/// source occupies `width` columns.
#[derive(Clone, Copy, Debug, PartialEq, Eq)]
pub struct InlineMath {
    pub start: usize,
    pub end: usize,
    pub width: usize,
}

/// The first span of `m` that starts at `i` and ends within a text of `n`
/// characters.
pub open spec fn math_at(m: Seq<InlineMath>, n: int, i: int) -> Option<InlineMath>
    decreases m.len(),
{
    if m.len() == 0 {
        None
    } else if m[0].start == i && i < m[0].end <= n {
        Some(m[0])
    } else {
        math_at(m.drop_first(), n, i)
    }
}

pub proof fn lemma_math_at(m: Seq<InlineMath>, n: int, i: int)
    ensures
        math_at(m, n, i) matches Some(x) ==> x.start == i && i < x.end <= n,
    decreases m.len(),
{
    if m.len() > 0 {
        lemma_math_at(m.drop_first(), n, i);
    }
}

/// `x`, capped at `usize::MAX`.
pub open spec fn sat(x: int) -> int {
    if x > usize::MAX {
        usize::MAX as int
    } else {
        x
    }
}

/// Columns that `s[a..b]` occupies.
pub open spec fn span_width(s: Seq<char>, a: int, b: int) -> int {
    unicode_str_width(s.subrange(a, b)) as int
}

/// Columns of one plain character: a tab counts four, a control character
/// none.
pub open spec fn char_cols(c: char) -> int {
    if c == '\t' {
        4
    } else {
        match unicode_char_width(c) {
            Some(w) => w as int,
            None => 0,
        }
    }
}

pub open spec fn pat_image_text() -> Seq<char> {
    seq!['!', '!', '[']
}

pub open spec fn pat_image() -> Seq<char> {
    seq!['!', '[']
}

pub open spec fn pat_wiki_open() -> Seq<char> {
    seq!['[', '[']
}

pub open spec fn pat_wiki_close() -> Seq<char> {
    seq![']', ']']
}

pub open spec fn pat_label_end() -> Seq<char> {
    seq![']', '(']
}

pub open spec fn pat_paren() -> Seq<char> {
    seq![')']
}

pub open spec fn pat_bracket() -> Seq<char> {
    seq!['[']
}

/// From `from` on, the first `](` at `b` and the first `)` after it at `q`.
pub open spec fn link_tail(s: Seq<char>, from: int) -> Option<(int, int)> {
    match find_from(s, pat_label_end(), from) {
        None => None,
        Some(b) => match find_from(s, pat_paren(), b + 2) {
            None => None,
            Some(q) => Some((b, q)),
        },
    }
}

pub proof fn lemma_link_tail(s: Seq<char>, from: int)
    requires
        0 <= from,
    ensures
        link_tail(s, from) matches Some((b, q)) ==> from <= b && b + 2 <= q < s.len() && s[b] == ']'
            && s[b + 1] == '(' && s[q] == ')',
{
    lemma_find_from(s, pat_label_end(), from);
    if let Some(b) = find_from(s, pat_label_end(), from) {
        lemma_find_from(s, pat_paren(), b + 2);
        assert(s.subrange(b, b + 2)[0] == s[b]);
        assert(s.subrange(b, b + 2)[1] == s[b + 1]);
        if let Some(q) = find_from(s, pat_paren(), b + 2) {
            assert(s.subrange(q, q + 1)[0] == s[q]);
        }
    }
}

pub proof fn lemma_find_end(s: Seq<char>, pat: Seq<char>, from: int)
    requires
        0 <= from,
    ensures
        find_from(s, pat, from) matches Some(c) ==> from <= c && c + pat.len() <= s.len(),
{
    lemma_find_from(s, pat, from);
}

/// Rendered columns of `s[i..t]`: inline math counts its source, a link or
/// image link with text `[label](url)` counts its label (the URL when the
/// label is empty), an image `![alt](path)` counts nothing, a wiki link
/// `[[target]]` counts its target, and any other character its own width.
/// The count stops at `t`, and before a link or math span that ends after
/// `lt`.
pub open spec fn rendered_within(s: Seq<char>, m: Seq<InlineMath>, t: int, lt: int, i: int) -> int
    decreases s.len() - i,
{
    if i < 0 || i >= t || i >= s.len() {
        0
    } else if s[i] == '$' && math_at(m, s.len() as int, i) is Some {
        let x = math_at(m, s.len() as int, i)->0;
        proof {
            lemma_math_at(m, s.len() as int, i);
        }
        if x.end <= lt {
            x.width + rendered_within(s, m, t, lt, x.end as int)
        } else {
            0
        }
    } else if starts_with(s.skip(i), pat_image_text()) && link_tail(s, i + 2) is Some {
        let (b, q) = link_tail(s, i + 2)->0;
        proof {
            lemma_link_tail(s, i + 2);
        }
        if q + 1 <= lt {
            (if b == i + 3 {
                span_width(s, b + 2, q)
            } else {
                span_width(s, i + 3, b)
            }) + rendered_within(s, m, t, lt, q + 1)
        } else {
            0
        }
    } else if starts_with(s.skip(i), pat_image()) && link_tail(s, i + 1) is Some {
        let (_b, q) = link_tail(s, i + 1)->0;
        proof {
            lemma_link_tail(s, i + 1);
        }
        if q + 1 <= lt {
            rendered_within(s, m, t, lt, q + 1)
        } else {
            0
        }
    } else if starts_with(s.skip(i), pat_wiki_open()) && find_from(s, pat_wiki_close(), i + 2) is Some {
        let c = find_from(s, pat_wiki_close(), i + 2)->0;
        proof {
            lemma_find_end(s, pat_wiki_close(), i + 2);
        }
        if c + 2 <= lt {
            span_width(s, i + 2, c) + rendered_within(s, m, t, lt, c + 2)
        } else {
            0
        }
    } else if s[i] == '[' && link_tail(s, i) is Some {
        let (b, q) = link_tail(s, i)->0;
        proof {
            lemma_link_tail(s, i);
        }
        if q + 1 <= lt {
            (if b == i + 1 {
                span_width(s, b + 2, q)
            } else {
                span_width(s, i + 1, b)
            }) + rendered_within(s, m, t, lt, q + 1)
        } else {
            0
        }
    } else {
        char_cols(s[i]) + rendered_within(s, m, t, lt, i + 1)
    }
}

/// [`rendered_within`] where a link or math span may end anywhere up to
/// the position `t` where the count stops.
pub open spec fn rendered_from(s: Seq<char>, m: Seq<InlineMath>, t: int, i: int) -> int {
    rendered_within(s, m, t, t, i)
}

pub proof fn lemma_rendered_nonneg(s: Seq<char>, m: Seq<InlineMath>, t: int, lt: int, i: int)
    ensures
        rendered_within(s, m, t, lt, i) >= 0,
    decreases s.len() - i,
{
    if i < 0 || i >= t || i >= s.len() {
    } else if s[i] == '$' && math_at(m, s.len() as int, i) is Some {
        lemma_math_at(m, s.len() as int, i);
        let x = math_at(m, s.len() as int, i)->0;
        if x.end <= lt {
            lemma_rendered_nonneg(s, m, t, lt, x.end as int);
        }
    } else if starts_with(s.skip(i), pat_image_text()) && link_tail(s, i + 2) is Some {
        lemma_link_tail(s, i + 2);
        let (_b, q) = link_tail(s, i + 2)->0;
        lemma_rendered_nonneg(s, m, t, lt, q + 1);
    } else if starts_with(s.skip(i), pat_image()) && link_tail(s, i + 1) is Some {
        lemma_link_tail(s, i + 1);
        let (_b, q) = link_tail(s, i + 1)->0;
        lemma_rendered_nonneg(s, m, t, lt, q + 1);
    } else if starts_with(s.skip(i), pat_wiki_open()) && find_from(s, pat_wiki_close(), i + 2) is Some {
        lemma_find_end(s, pat_wiki_close(), i + 2);
        lemma_rendered_nonneg(s, m, t, lt, find_from(s, pat_wiki_close(), i + 2)->0 + 2);
    } else if s[i] == '[' && link_tail(s, i) is Some {
        lemma_link_tail(s, i);
        let (_b, q) = link_tail(s, i)->0;
        lemma_rendered_nonneg(s, m, t, lt, q + 1);
    } else {
        lemma_rendered_nonneg(s, m, t, lt, i + 1);
    }
}

/// The first span of `m` that starts at `i` and ends within `n` characters.
fn math_at_exec(m: &[InlineMath], n: usize, i: usize) -> (r: Option<InlineMath>)
    ensures
        r == math_at(m@, n as int, i as int),
{
    let mut k: usize = 0;
    assert(m@.skip(0) =~= m@);
    while k < m.len()
        invariant
            k <= m@.len(),
            math_at(m@, n as int, i as int) == math_at(m@.skip(k as int), n as int, i as int),
        decreases m@.len() - k,
    {
        assert(m@.skip(k as int).drop_first() =~= m@.skip(k + 1));
        assert(m@.skip(k as int)[0] == m@[k as int]);
        let x = m[k];
        if x.start == i && i < x.end && x.end <= n {
            return Some(x);
        }
        k += 1;
    }
    None
}

/// Columns of `cs[a..b]`.
fn range_width(cs: &[char], a: usize, b: usize) -> (w: usize)
    requires
        a <= b <= cs@.len(),
    ensures
        w == span_width(cs@, a as int, b as int),
{
    let piece = string_of_range(cs, a, b);
    str_width(piece.as_str())
}

/// `](` then `)` from `from` on.
pub(crate) fn link_tail_exec(cs: &[char], from: usize) -> (r: Option<(usize, usize)>)
    ensures
        r matches Some((b, q)) ==> link_tail(cs@, from as int) == Some((b as int, q as int)),
        r is None ==> link_tail(cs@, from as int) is None,
{
    let n = cs.len();
    let label_end = [']', '('];
    let paren = [')'];
    assert(label_end@ =~= pat_label_end());
    assert(paren@ =~= pat_paren());
    assert(pat_label_end().len() == 2);
    match find_from_exec(cs, &label_end, from) {
        None => None,
        Some(b) => {
            proof {
                lemma_find_end(cs@, pat_label_end(), from as int);
                assert(find_from(cs@, pat_label_end(), from as int) == Some(b as int));
                assert(b + 2 <= n);
            }
            match find_from_exec(cs, &paren, b + 2) {
                None => None,
                Some(q) => Some((b, q)),
            }
        },
    }
}

/// Whether `cs[from..]` begins with `p`.
pub(crate) fn begins_with(cs: &[char], from: usize, p: &[char]) -> (b: bool)
    requires
        from <= cs@.len(),
    ensures
        b == starts_with(cs@.skip(from as int), p@),
{
    let n = cs.len();
    if p.len() > n - from {
        return false;
    }
    let mut k: usize = 0;
    while k < p.len()
        invariant
            n == cs@.len(),
            from + p@.len() <= n,
            k <= p@.len(),
            forall|j: int| 0 <= j < k ==> cs@[from + j] == p@[j],
        decreases p@.len() - k,
    {
        if cs[from + k] != p[k] {
            assert(cs@.skip(from as int).take(p@.len() as int)[k as int] != p@[k as int]);
            return false;
        }
        k += 1;
    }
    assert(cs@.skip(from as int).take(p@.len() as int) =~= p@);
    true
}

/// Rendered columns of `cs` before character `target`, stopping before a
/// link or math span that ends after character `limit`; capped at
/// `usize::MAX`.
pub fn rendered_column_within(cs: &[char], math: &[InlineMath], target: usize, limit: usize) -> (r: usize)
    ensures
        r == sat(rendered_within(cs@, math@, target as int, limit as int, 0)),
{
    let n = cs.len();
    let image_text = ['!', '!', '['];
    let image = ['!', '['];
    let wiki_open = ['[', '['];
    let wiki_close = [']', ']'];
    assert(image_text@ =~= pat_image_text());
    assert(image@ =~= pat_image());
    assert(pat_image_text().len() == 3);
    assert(pat_image_text()[2] == '[');
    assert(wiki_open@ =~= pat_wiki_open());
    assert(wiki_close@ =~= pat_wiki_close());
    assert(pat_wiki_close().len() == 2);
    let ghost s = cs@;
    let ghost m = math@;
    let ghost t = target as int;
    let ghost lt = limit as int;
    let mut acc: usize = 0;
    let ghost mut g: int = 0;
    let mut i: usize = 0;
    proof {
        lemma_rendered_nonneg(s, m, t, lt, 0);
    }
    while i < target && i < n
        invariant
            n == s.len(),
            s == cs@,
            m == math@,
            t == target,
            lt == limit,
            i <= n,
            image_text@ == pat_image_text(),
            image@ == pat_image(),
            wiki_open@ == pat_wiki_open(),
            wiki_close@ == pat_wiki_close(),
            pat_image_text().len() == 3,
            pat_image_text()[2] == '[',
            pat_wiki_close().len() == 2,
            g >= 0,
            acc == sat(g),
            rendered_within(s, m, t, lt, 0) == g + rendered_within(s, m, t, lt, i as int),
        decreases n - i,
    {
        proof {
            lemma_math_at(m, n as int, i as int);
            lemma_link_tail(s, i + 2);
            lemma_link_tail(s, i + 1);
            lemma_link_tail(s, i as int);
            lemma_find_end(s, pat_wiki_close(), i + 2);
        }
        let mut handled = false;
        if cs[i] == '$' {
            if let Some(x) = math_at_exec(math, n, i) {
                if x.end <= limit {
                    proof {
                        lemma_rendered_nonneg(s, m, t, lt, x.end as int);
                        g = g + x.width;
                    }
                    acc = acc.saturating_add(x.width);
                    i = x.end;
                    handled = true;
                } else {
                    return acc;
                }
            }
        }
        if !handled && begins_with(cs, i, &image_text) {
            assert(s[i + 2] == '[') by {
                assert(s.skip(i as int).take(3)[2] == pat_image_text()[2]);
            }
            if let Some((b, q)) = link_tail_exec(cs, i + 2) {
                if q + 1 <= limit {
                    let w = if b == i + 3 {
                        range_width(cs, b + 2, q)
                    } else {
                        range_width(cs, i + 3, b)
                    };
                    proof {
                        lemma_rendered_nonneg(s, m, t, lt, q + 1);
                        g = g + w;
                    }
                    acc = acc.saturating_add(w);
                    i = q + 1;
                    handled = true;
                } else {
                    return acc;
                }
            }
        }
        if !handled && begins_with(cs, i, &image) {
            if let Some((_b, q)) = link_tail_exec(cs, i + 1) {
                if q + 1 <= limit {
                    proof {
                        lemma_rendered_nonneg(s, m, t, lt, q + 1);
                    }
                    i = q + 1;
                    handled = true;
                } else {
                    return acc;
                }
            }
        }
        if !handled && begins_with(cs, i, &wiki_open) {
            if let Some(c) = find_from_exec(cs, &wiki_close, i + 2) {
                if c + 2 <= limit {
                    let w = range_width(cs, i + 2, c);
                    proof {
                        lemma_rendered_nonneg(s, m, t, lt, c + 2);
                        g = g + w;
                    }
                    acc = acc.saturating_add(w);
                    i = c + 2;
                    handled = true;
                } else {
                    return acc;
                }
            }
        }
        if !handled && cs[i] == '[' {
            if let Some((b, q)) = link_tail_exec(cs, i) {
                if q + 1 <= limit {
                    let w = if b == i + 1 {
                        range_width(cs, b + 2, q)
                    } else {
                        range_width(cs, i + 1, b)
                    };
                    proof {
                        lemma_rendered_nonneg(s, m, t, lt, q + 1);
                        g = g + w;
                    }
                    acc = acc.saturating_add(w);
                    i = q + 1;
                    handled = true;
                } else {
                    return acc;
                }
            }
        }
        if !handled {
            let c = cs[i];
            let w: usize = if c == '\t' {
                4
            } else {
                match char_width(c) {
                    Some(w) => w,
                    None => 0,
                }
            };
            proof {
                lemma_rendered_nonneg(s, m, t, lt, i + 1);
                g = g + w;
            }
            acc = acc.saturating_add(w);
            i = i + 1;
        }
    }
    acc
}

/// Rendered column of character `target` of `cs`, capped at `usize::MAX`.
pub fn rendered_column(cs: &[char], math: &[InlineMath], target: usize) -> (r: usize)
    ensures
        r == sat(rendered_from(cs@, math@, target as int, 0)),
{
    rendered_column_within(cs, math, target, target)
}

/// The first character of `s`, from `k` on, before which at least `b`
/// bytes of UTF-8 lie; `s.len()` when there is none.
pub open spec fn char_at_byte(s: Seq<char>, b: int, k: int) -> int
    decreases s.len() - k,
{
    if k < 0 || k >= s.len() || utf8_len(s.take(k)) >= b {
        k
    } else {
        char_at_byte(s, b, k + 1)
    }
}

/// The last character boundary at or before byte offset `b`, as a
/// character index: where `b` falls inside a character, the start of that
/// character.
pub open spec fn boundary_at_or_before(s: Seq<char>, b: int) -> int {
    let k = char_at_byte(s, b, 0);
    if utf8_len(s.take(k)) > b {
        k - 1
    } else {
        k
    }
}

/// The character index `char_at_byte(s, b, 0)` and the boundary
/// `boundary_at_or_before(s, b)`.
fn byte_position(cs: &[char], b: usize) -> (r: (usize, usize))
    ensures
        r.0 == char_at_byte(cs@, b as int, 0),
        r.1 == boundary_at_or_before(cs@, b as int),
{
    let n = cs.len();
    let mut k: usize = 0;
    let mut rem: usize = b;
    assert(cs@.take(0) =~= Seq::<char>::empty());
    while k < n && rem > 0
        invariant
            n == cs@.len(),
            k <= n,
            utf8_len(cs@.take(k as int)) + rem == b,
            char_at_byte(cs@, b as int, 0) == char_at_byte(cs@, b as int, k as int),
        decreases n - k,
    {
        let c = char_len_utf8(cs[k]);
        proof {
            assert(cs@.take(k + 1) =~= cs@.take(k as int).push(cs@[k as int]));
            lemma_utf8_len_push(cs@.take(k as int), cs@[k as int]);
        }
        if c > rem {
            proof {
                assert(char_at_byte(cs@, b as int, k + 1) == k + 1);
            }
            return (k + 1, k);
        }
        rem = rem - c;
        k += 1;
    }
    (k, k)
}

/// Rendered column of byte offset `target` of `text`, capped at
/// `usize::MAX`: characters starting before `target` count, and a link or
/// math span counts only when it ends at or before `target`. `math` holds
/// the inline math spans of `text`, by character.
pub fn calc_rendered_pos(text: &str, math: &[InlineMath], target: usize) -> (r: usize)
    ensures
        r == sat(
            rendered_within(
                text@,
                math@,
                char_at_byte(text@, target as int, 0),
                boundary_at_or_before(text@, target as int),
                0,
            ),
        ),
{
    let cs = chars_of(text);
    let (k, limit) = byte_position(cs.as_slice(), target);
    rendered_column_within(cs.as_slice(), math, k, limit)
}

/// Character `k` of `s` lies inside inline code: an odd number of backticks
/// precede it.
pub open spec fn in_code(s: Seq<char>, k: int) -> bool {
    backtick_count(s.take(k)) % 2 == 1
}

fn in_code_exec(cs: &[char], k: usize) -> (b: bool)
    requires
        k <= cs@.len(),
    ensures
        b == in_code(cs@, k as int),
{
    let mut count: usize = 0;
    let mut j: usize = 0;
    assert(cs@.take(0) =~= Seq::<char>::empty());
    while j < k
        invariant
            j <= k <= cs@.len(),
            count == backtick_count(cs@.take(j as int)),
            count <= j,
        decreases k - j,
    {
        assert(cs@.take(j + 1).drop_last() =~= cs@.take(j as int));
        if cs[j] == '`' {
            count += 1;
        }
        j += 1;
    }
    count % 2 == 1
}

/// The inline images of `s` from `p` on: the path of each `![alt](path)`
/// with a non-empty path, outside inline code and not written `!![`, with
/// the rendered column where it stands.
pub open spec fn images_from(s: Seq<char>, m: Seq<InlineMath>, p: int) -> Seq<(Seq<char>, int)>
    decreases s.len() - p,
{
    if p < 0 || p >= s.len() {
        seq![]
    } else {
        match find_from(s, pat_image(), p) {
            None => seq![],
            Some(g) => {
                proof {
                    lemma_find_end(s, pat_image(), p);
                    lemma_link_tail(s, g + 1);
                }
                if (g > 0 && s[g - 1] == '!') || in_code(s, g) || link_tail(s, g + 1) is None {
                    images_from(s, m, g + 2)
                } else {
                    let (b, q) = link_tail(s, g + 1)->0;
                    (if q > b + 2 {
                        seq![(s.subrange(b + 2, q), sat(rendered_from(s, m, g, 0)))]
                    } else {
                        seq![]
                    }) + images_from(s, m, q + 1)
                }
            },
        }
    }
}

pub open spec fn image_views(v: Seq<(String, usize)>) -> Seq<(Seq<char>, int)> {
    v.map_values(|x: (String, usize)| (x.0@, x.1 as int))
}

/// Inline images of `text` in source order, each as its path and the
/// rendered column where it stands.
pub fn inline_image_links_in_text(text: &str, math: &[InlineMath]) -> (out: Vec<(String, usize)>)
    ensures
        image_views(out@) == images_from(text@, math@, 0),
{
    let cs = chars_of(text);
    let n = cs.len();
    let image = ['!', '['];
    assert(image@ =~= pat_image());
    assert(pat_image().len() == 2);
    let mut out: Vec<(String, usize)> = Vec::new();
    let mut p: usize = 0;
    while p < n
        invariant
            n == cs@.len(),
            cs@ == text@,
            image@ == pat_image(),
            pat_image().len() == 2,
            p <= n,
            images_from(cs@, math@, 0) == image_views(out@) + images_from(cs@, math@, p as int),
        ensures
            images_from(cs@, math@, 0) == image_views(out@),
        decreases n - p,
    {
        let ghost s = cs@;
        let ghost m = math@;
        proof {
            lemma_find_end(s, pat_image(), p as int);
        }
        let g = match find_from_exec(cs.as_slice(), &image, p) {
            None => {
                assert(images_from(s, m, p as int) =~= seq![]);
                assert(image_views(out@) + seq![] =~= image_views(out@));
                break;
            },
            Some(g) => g,
        };
        proof {
            lemma_link_tail(s, g + 1);
        }
        let skip = (g > 0 && cs[g - 1] == '!') || in_code_exec(cs.as_slice(), g);
        if skip {
            p = g + 2;
        } else {
            match link_tail_exec(cs.as_slice(), g + 1) {
                None => {
                    p = g + 2;
                },
                Some((b, q)) => {
                    let ghost before = out@;
                    if q > b + 2 {
                        let path = string_of_range(cs.as_slice(), b + 2, q);
                        let col = rendered_column(cs.as_slice(), math, g);
                        out.push((path, col));
                        assert(image_views(before.push((path, col))) =~= image_views(before).push(
                            (path@, col as int),
                        ));
                    }
                    assert(image_views(out@) + images_from(s, m, q + 1) =~= image_views(before)
                        + images_from(s, m, p as int));
                    p = q + 1;
                },
            }
        }
        proof {
            if p >= n {
                assert(image_views(out@) + images_from(s, m, p as int) =~= image_views(out@));
            }
        }
    }
    out
}

/// A link found in a line: displayed text, URL, and the rendered columns
/// where it starts and ends.
pub open spec fn link_entry(display: Seq<char>, url: Seq<char>, start: int, width: int) -> (
    Seq<char>,
    Seq<char>,
    int,
    int,
) {
    (display, url, start, sat(start + width))
}

pub open spec fn img_prefix() -> Seq<char> {
    seq!['[', 'i', 'm', 'g', ':', ' ']
}

/// `[img: x]`.
pub open spec fn img_display(x: Seq<char>) -> Seq<char> {
    img_prefix() + x + seq![']']
}

/// The spans claimed by Markdown links and images of `s` from `p` on, and
/// the links they yield, in the order a left-to-right scan meets them:
/// - `!![alt](url)` shows `alt` (the URL when `alt` is empty) as a link,
///   when it comes before any other `![` or `[`;
/// - `![alt](url)` shows `[img: alt]` (`[img: url]` when `alt` is empty)
///   with no width, unless a `!` stands just before it;
/// - `[[target]]` is skipped (wiki links are found elsewhere);
/// - `[label](url)` shows `label`, or the URL when `label` is empty.
///
/// A link or image inside inline code, or with an empty URL, yields
/// nothing, though its span is claimed all the same.
pub open spec fn scan_links(s: Seq<char>, m: Seq<InlineMath>, p: int) -> (
    Seq<(int, int)>,
    Seq<(Seq<char>, Seq<char>, int, int)>,
)
    decreases s.len() - p,
{
    if p < 0 || p >= s.len() {
        (seq![], seq![])
    } else {
        let dbl = find_from(s, pat_image_text(), p);
        let single = find_from(s, pat_image(), p);
        let br = find_from(s, pat_bracket(), p);
        proof {
            lemma_find_end(s, pat_image_text(), p);
            lemma_find_end(s, pat_image(), p);
            lemma_find_end(s, pat_bracket(), p);
        }
        if dbl is Some && (single is Some ==> dbl->0 <= single->0) && (br is Some ==> dbl->0 < br->0)
            && link_tail(s, dbl->0 + 2) is Some {
            let d = dbl->0;
            let (b, q) = link_tail(s, d + 2)->0;
            proof {
                lemma_link_tail(s, d + 2);
            }
            let rest = scan_links(s, m, q + 1);
            let url = s.subrange(b + 2, q);
            let alt = s.subrange(d + 3, b);
            let display = if alt.len() == 0 {
                url
            } else {
                alt
            };
            let start = sat(rendered_from(s, m, d, 0));
            (
                seq![(d, q + 1)] + rest.0,
                if in_code(s, d) || url.len() == 0 {
                    rest.1
                } else {
                    seq![link_entry(display, url, start, unicode_str_width(display) as int)] + rest.1
                },
            )
        } else if single is Some && single->0 > p && s[single->0 - 1] == '!' {
            scan_links(s, m, single->0 + 2)
        } else if single is Some && (br is Some ==> single->0 < br->0) && link_tail(s, single->0 + 1) is Some {
            let g = single->0;
            let (b, q) = link_tail(s, g + 1)->0;
            proof {
                lemma_link_tail(s, g + 1);
            }
            let rest = scan_links(s, m, q + 1);
            let url = s.subrange(b + 2, q);
            let alt = s.subrange(g + 2, b);
            let display = if alt.len() == 0 {
                img_display(url)
            } else {
                img_display(alt)
            };
            let start = sat(rendered_from(s, m, g, 0));
            (
                seq![(g, q + 1)] + rest.0,
                if in_code(s, g) || url.len() == 0 {
                    rest.1
                } else {
                    seq![link_entry(display, url, start, 0)] + rest.1
                },
            )
        } else if br is Some && br->0 + 1 < s.len() && s[br->0 + 1] == '[' && find_from(
            s,
            pat_wiki_close(),
            br->0 + 2,
        ) is Some {
            let c = find_from(s, pat_wiki_close(), br->0 + 2)->0;
            proof {
                lemma_find_end(s, pat_wiki_close(), br->0 + 2);
            }
            scan_links(s, m, c + 2)
        } else if br is Some && link_tail(s, br->0) is Some {
            let k = br->0;
            let (b, q) = link_tail(s, k)->0;
            proof {
                lemma_link_tail(s, k);
            }
            let rest = scan_links(s, m, q + 1);
            let url = s.subrange(b + 2, q);
            let label = s.subrange(k + 1, b);
            let display = if label.len() == 0 {
                url
            } else {
                label
            };
            let start = sat(rendered_from(s, m, k, 0));
            (
                seq![(k, q + 1)] + rest.0,
                if in_code(s, k) || url.len() == 0 {
                    rest.1
                } else {
                    seq![link_entry(display, url, start, unicode_str_width(display) as int)] + rest.1
                },
            )
        } else {
            (seq![], seq![])
        }
    }
}

/// Some claimed span overlaps `[a, e)`.
pub open spec fn overlaps_claim(claimed: Seq<(int, int)>, a: int, e: int) -> bool {
    exists|j: int| 0 <= j < claimed.len() && a < (#[trigger] claimed[j]).1 && e > claimed[j].0
}

/// The bare `http://` and `https://` URLs of `s` from `pos` on that overlap
/// no claimed span and stand outside inline code, each shown as itself.
pub open spec fn bare_links(s: Seq<char>, m: Seq<InlineMath>, claimed: Seq<(int, int)>, pos: int) -> Seq<
    (Seq<char>, Seq<char>, int, int),
>
    decreases s.len() - pos,
{
    if pos < 0 || pos >= s.len() {
        seq![]
    } else {
        match bare_url_end(s, pos) {
            Some(e) => {
                proof {
                    lemma_bare_url_end(s, pos);
                }
                let url = s.subrange(pos, e);
                let start = sat(rendered_from(s, m, pos, 0));
                (if !overlaps_claim(claimed, pos, e) && !in_code(s, pos) {
                    seq![link_entry(url, url, start, unicode_str_width(url) as int)]
                } else {
                    seq![]
                }) + bare_links(s, m, claimed, e)
            },
            None => bare_links(s, m, claimed, pos + 1),
        }
    }
}

/// The links of one line: Markdown links and images first, in source
/// order, then the bare URLs that none of them covers.
pub open spec fn markdown_links(s: Seq<char>, m: Seq<InlineMath>) -> Seq<
    (Seq<char>, Seq<char>, int, int),
> {
    let scan = scan_links(s, m, 0);
    scan.1 + bare_links(s, m, scan.0, 0)
}

pub open spec fn link_views(v: Seq<(String, String, usize, usize)>) -> Seq<
    (Seq<char>, Seq<char>, int, int),
> {
    v.map_values(|x: (String, String, usize, usize)| (x.0@, x.1@, x.2 as int, x.3 as int))
}

pub open spec fn claim_views(v: Seq<(usize, usize)>) -> Seq<(int, int)> {
    v.map_values(|x: (usize, usize)| (x.0 as int, x.1 as int))
}

/// Appends a link entry built from `display`, `url`, its start column and
/// the width it adds.
fn push_link(
    links: &mut Vec<(String, String, usize, usize)>,
    display: String,
    url: String,
    start: usize,
    width: usize,
)
    ensures
        link_views(final(links)@) == link_views(old(links)@).push(
            link_entry(display@, url@, start as int, width as int),
        ),
{
    let ghost before = links@;
    let end = start.saturating_add(width);
    links.push((display, url, start, end));
    assert(link_views(before.push((display, url, start, end))) =~= link_views(before).push(
        (display@, url@, start as int, end as int),
    ));
}

/// `[img: x]` for `x = cs[a..b]`.
fn img_display_exec(cs: &[char], a: usize, b: usize) -> (out: String)
    requires
        a <= b <= cs@.len(),
    ensures
        out@ == img_display(cs@.subrange(a as int, b as int)),
{
    let mut out = String::new();
    push_char(&mut out, '[');
    push_char(&mut out, 'i');
    push_char(&mut out, 'm');
    push_char(&mut out, 'g');
    push_char(&mut out, ':');
    push_char(&mut out, ' ');
    push_range(&mut out, cs, a, b);
    push_char(&mut out, ']');
    assert(out@ =~= img_display(cs@.subrange(a as int, b as int)));
    out
}

/// Whether a claimed span overlaps `[a, e)`.
fn overlaps_exec(claimed: &Vec<(usize, usize)>, a: usize, e: usize) -> (r: bool)
    ensures
        r == overlaps_claim(claim_views(claimed@), a as int, e as int),
{
    let ghost c = claim_views(claimed@);
    let mut j: usize = 0;
    while j < claimed.len()
        invariant
            j <= claimed@.len(),
            c == claim_views(claimed@),
            forall|i: int| 0 <= i < j ==> !(a < (#[trigger] c[i]).1 && e > c[i].0),
        decreases claimed@.len() - j,
    {
        let (x, y) = claimed[j];
        if a < y && e > x {
            assert(c[j as int] == (x as int, y as int));
            return true;
        }
        j += 1;
    }
    false
}

/// What the scan does at one position.
enum ScanStep {
    /// Claims `[start, end)` and yields the link, if any.
    Claim(usize, usize, Option<(String, String, usize, usize)>),
    /// Moves on to the given position.
    Skip(usize),
    /// Nothing more to find.
    Stop,
}

pub open spec fn opt_link_view(x: Option<(String, String, usize, usize)>) -> Seq<
    (Seq<char>, Seq<char>, int, int),
> {
    match x {
        Some(l) => seq![(l.0@, l.1@, l.2 as int, l.3 as int)],
        None => seq![],
    }
}

/// The link entry for shown text `cs[da..db]` and URL `cs[b + 2..q]`,
/// standing at character `at`, with the given width rule.
fn make_link(cs: &[char], math: &[InlineMath], da: usize, db: usize, b: usize, q: usize, at: usize, image: bool) -> (r: (String, String, usize, usize))
    requires
        da <= db <= cs@.len(),
        b + 2 <= q <= cs@.len(),
    ensures
        ({
            let shown = if image { img_display(cs@.subrange(da as int, db as int)) } else { cs@.subrange(da as int, db as int) };
            (r.0@, r.1@, r.2 as int, r.3 as int) == link_entry(
                shown,
                cs@.subrange(b + 2, q as int),
                sat(rendered_from(cs@, math@, at as int, 0)),
                if image { 0 } else { unicode_str_width(shown) as int },
            )
        }),
{
    let display = if image {
        img_display_exec(cs, da, db)
    } else {
        string_of_range(cs, da, db)
    };
    let url = string_of_range(cs, b + 2, q);
    let start = rendered_column(cs, math, at);
    let w = if image {
        0
    } else {
        str_width(display.as_str())
    };
    (display, url, start, start.saturating_add(w))
}

/// One step of the link scan at position `p`.
#[verifier::rlimit(40)]
fn scan_step(cs: &[char], math: &[InlineMath], p: usize) -> (r: ScanStep)
    requires
        p < cs@.len(),
    ensures
        match r {
            ScanStep::Claim(a, e, link) => p < e <= cs@.len() && scan_links(cs@, math@, p as int) == (
                seq![(a as int, e as int)] + scan_links(cs@, math@, e as int).0,
                opt_link_view(link) + scan_links(cs@, math@, e as int).1,
            ),
            ScanStep::Skip(next) => p < next <= cs@.len() && scan_links(cs@, math@, p as int)
                == scan_links(cs@, math@, next as int),
            ScanStep::Stop => scan_links(cs@, math@, p as int) == (
                Seq::<(int, int)>::empty(),
                Seq::<(Seq<char>, Seq<char>, int, int)>::empty(),
            ),
        },
{
    let n = cs.len();
    let image_text = ['!', '!', '['];
    let image = ['!', '['];
    let bracket = ['['];
    let wiki_close = [']', ']'];
    assert(image_text@ =~= pat_image_text());
    assert(image@ =~= pat_image());
    assert(bracket@ =~= pat_bracket());
    assert(wiki_close@ =~= pat_wiki_close());
    let ghost s = cs@;
    let ghost m = math@;
    let ghost pi = p as int;
    proof {
        lemma_find_from(s, pat_image_text(), pi);
        lemma_find_from(s, pat_image(), pi);
        lemma_find_from(s, pat_bracket(), pi);
        lemma_find_end(s, pat_image_text(), pi);
        lemma_find_end(s, pat_image(), pi);
        lemma_find_end(s, pat_bracket(), pi);
        assert(pat_image_text().len() == 3);
        assert(pat_image().len() == 2);
        assert(pat_bracket().len() == 1);
        assert(pat_wiki_close().len() == 2);
    }
    let dbl = find_from_exec(cs, &image_text, p);
    let single = find_from_exec(cs, &image, p);
    let br = find_from_exec(cs, &bracket, p);
    if let Some(d) = dbl {
        let first = (match single {
            Some(g) => d <= g,
            None => true,
        }) && (match br {
            Some(k) => d < k,
            None => true,
        });
        if first {
            if let Some((b, q)) = link_tail_exec(cs, d + 2) {
                proof {
                    lemma_link_tail(s, d + 2);
                    assert(s.subrange(d as int, d + 3)[2] == pat_image_text()[2]);
                }
                let link = if q > b + 2 && !in_code_exec(cs, d) {
                    if b == d + 3 {
                        Some(make_link(cs, math, b + 2, q, b, q, d, false))
                    } else {
                        Some(make_link(cs, math, d + 3, b, b, q, d, false))
                    }
                } else {
                    None
                };
                return ScanStep::Claim(d, q + 1, link);
            }
        }
    }
    if let Some(g) = single {
        if g > p && cs[g - 1] == '!' {
            return ScanStep::Skip(g + 2);
        }
        let before = match br {
            Some(k) => g < k,
            None => true,
        };
        if before {
            if let Some((b, q)) = link_tail_exec(cs, g + 1) {
                proof {
                    lemma_link_tail(s, g + 1);
                    assert(s.subrange(g as int, g + 2)[1] == pat_image()[1]);
                }
                let link = if q > b + 2 && !in_code_exec(cs, g) {
                    if b == g + 2 {
                        Some(make_link(cs, math, b + 2, q, b, q, g, true))
                    } else {
                        Some(make_link(cs, math, g + 2, b, b, q, g, true))
                    }
                } else {
                    None
                };
                return ScanStep::Claim(g, q + 1, link);
            }
        }
    }
    if let Some(k) = br {
        proof {
            assert(s.subrange(k as int, k + 1)[0] == pat_bracket()[0]);
            lemma_find_end(s, pat_wiki_close(), k + 2);
        }
        if k + 1 < n && cs[k + 1] == '[' {
            if let Some(c) = find_from_exec(cs, &wiki_close, k + 2) {
                return ScanStep::Skip(c + 2);
            }
        }
        if let Some((b, q)) = link_tail_exec(cs, k) {
            proof {
                lemma_link_tail(s, k as int);
            }
            let link = if q > b + 2 && !in_code_exec(cs, k) {
                if b == k + 1 {
                    Some(make_link(cs, math, b + 2, q, b, q, k, false))
                } else {
                    Some(make_link(cs, math, k + 1, b, b, q, k, false))
                }
            } else {
                None
            };
            return ScanStep::Claim(k, q + 1, link);
        }
    }
    ScanStep::Stop
}

/// The links of one line of `text`, as `(shown text, URL, start column,
/// end column)`: Markdown links and images in source order, then bare URLs
/// that no link covers; `math` holds the inline math spans of `text`.
pub fn parse_markdown_links_in_text(text: &str, math: &[InlineMath]) -> (out: Vec<
    (String, String, usize, usize),
>)
    ensures
        link_views(out@) == markdown_links(text@, math@),
{
    let cs = chars_of(text);
    let n = cs.len();
    let ghost s = cs@;
    let ghost m = math@;
    let mut links: Vec<(String, String, usize, usize)> = Vec::new();
    let mut claimed: Vec<(usize, usize)> = Vec::new();
    let mut p: usize = 0;
    assert(claim_views(claimed@) =~= seq![]);
    assert(link_views(links@) =~= seq![]);
    assert(scan_links(s, m, 0).0 =~= claim_views(claimed@) + scan_links(s, m, 0).0);
    assert(scan_links(s, m, 0).1 =~= link_views(links@) + scan_links(s, m, 0).1);
    while p < n
        invariant
            n == s.len(),
            s == cs@,
            s == text@,
            m == math@,
            p <= n,
            scan_links(s, m, 0).0 == claim_views(claimed@) + scan_links(s, m, p as int).0,
            scan_links(s, m, 0).1 == link_views(links@) + scan_links(s, m, p as int).1,
        ensures
            scan_links(s, m, 0).0 == claim_views(claimed@),
            scan_links(s, m, 0).1 == link_views(links@),
        decreases n - p,
    {
        let ghost pi = p as int;
        let ghost c0 = claim_views(claimed@);
        let ghost l0 = link_views(links@);
        match scan_step(cs.as_slice(), math, p) {
            ScanStep::Claim(a, e, link) => {
                let ghost lv = opt_link_view(link);
                match link {
                    Some(x) => {
                        let ghost before = links@;
                        links.push(x);
                        assert(link_views(before.push(x)) =~= link_views(before) + lv);
                    },
                    None => {
                        assert(l0 + lv =~= l0);
                    },
                }
                let ghost cbefore = claimed@;
                claimed.push((a, e));
                assert(claim_views(cbefore.push((a, e))) =~= c0.push((a as int, e as int)));
                p = e;
                proof {
                    let rest = scan_links(s, m, p as int);
                    assert(c0 + (seq![(a as int, e as int)] + rest.0) =~= claim_views(claimed@) + rest.0);
                    assert(l0 + (lv + rest.1) =~= (l0 + lv) + rest.1);
                }
            },
            ScanStep::Skip(next) => {
                p = next;
            },
            ScanStep::Stop => {
                assert(c0 + scan_links(s, m, pi).0 =~= c0);
                assert(l0 + scan_links(s, m, pi).1 =~= l0);
                break;
            },
        }
        proof {
            if p >= n {
                assert(claim_views(claimed@) + scan_links(s, m, p as int).0 =~= claim_views(claimed@));
                assert(link_views(links@) + scan_links(s, m, p as int).1 =~= link_views(links@));
            }
        }
    }
    let ghost cv = claim_views(claimed@);
    let mut pos: usize = 0;
    assert(link_views(links@) + bare_links(s, m, cv, 0) == markdown_links(s, m));
    while pos < n
        invariant
            n == s.len(),
            s == cs@,
            m == math@,
            cv == claim_views(claimed@),
            pos <= n,
            markdown_links(s, m) == link_views(links@) + bare_links(s, m, cv, pos as int),
        decreases n - pos,
    {
        let ghost l0 = link_views(links@);
        match bare_url_end_exec(cs.as_slice(), pos) {
            Some(e) => {
                proof {
                    lemma_bare_url_end(s, pos as int);
                }
                if !overlaps_exec(&claimed, pos, e) && !in_code_exec(cs.as_slice(), pos) {
                    let url = string_of_range(cs.as_slice(), pos, e);
                    let shown = url.clone();
                    let start = rendered_column(cs.as_slice(), math, pos);
                    let w = str_width(url.as_str());
                    push_link(&mut links, shown, url, start, w);
                }
                proof {
                    let rest = bare_links(s, m, cv, e as int);
                    assert(forall|x: (Seq<char>, Seq<char>, int, int)| #[trigger] (l0 + (seq![x] + rest)) =~= l0.push(x) + rest);
                    assert(l0 + (seq![] + rest) =~= l0 + rest);
                }
                pos = e;
            },
            None => {
                pos = pos + 1;
            },
        }
    }
    assert(link_views(links@) + bare_links(s, m, cv, pos as int) =~= link_views(links@));
    links
}

/// What following a link does.
#[derive(Debug, Clone, PartialEq, Eq)]
pub enum LinkAction {
    /// Hand the link to the system opener (web addresses and files that are
    /// not notes).
    External,
    /// Jump to a heading of the open note.
    Heading(String),
    /// Nothing: the link is empty.
    Nothing,
    /// Open a note, by its path relative to the current one, and jump to
    /// the heading if one is given.
    Note(String, Option<String>),
}

/// The link is a web address.
pub open spec fn is_web_url(u: Seq<char>) -> bool {
    starts_with(u, seq!['h', 't', 't', 'p', ':', '/', '/']) || starts_with(
        u,
        seq!['h', 't', 't', 'p', 's', ':', '/', '/'],
    )
}

/// A link split at its first `#` into path and heading.
pub open spec fn split_heading(u: Seq<char>) -> (Seq<char>, Option<Seq<char>>) {
    match find_from(u, seq!['#'], 0) {
        Some(h) => (u.take(h), Some(u.skip(h + 1))),
        None => (u, None),
    }
}

/// `p` ends with `.md`.
pub open spec fn is_note_path(p: Seq<char>) -> bool {
    p.len() >= 3 && p.skip(p.len() - 3) == seq!['.', 'm', 'd']
}

/// What following link `u` does: a web address opens externally; otherwise
/// the part before `#` names a note when it ends with `.md`, the open note
/// when it is empty (then the heading after `#`, if any, is the target),
/// and anything else opens externally.
pub open spec fn link_action_kind(u: Seq<char>) -> (int, Seq<char>, Option<Seq<char>>) {
    if is_web_url(u) {
        (0, seq![], None)
    } else {
        let (p, h) = split_heading(u);
        if p.len() == 0 {
            match h {
                Some(x) => (1, x, None),
                None => (2, seq![], None),
            }
        } else if is_note_path(p) {
            (3, p, h)
        } else {
            (0, seq![], None)
        }
    }
}

/// The kind number and contents of an action, as [`link_action_kind`]
/// gives them.
pub open spec fn action_view(a: LinkAction) -> (int, Seq<char>, Option<Seq<char>>) {
    match a {
        LinkAction::External => (0, seq![], None),
        LinkAction::Heading(h) => (1, h@, None),
        LinkAction::Nothing => (2, seq![], None),
        LinkAction::Note(p, h) => (3, p@, match h {
            Some(x) => Some(x@),
            None => None,
        }),
    }
}

/// What following the link `url` does.
pub fn link_action(url: &str) -> (a: LinkAction)
    ensures
        action_view(a) == link_action_kind(url@),
{
    let cs = chars_of(url);
    let n = cs.len();
    let http = ['h', 't', 't', 'p', ':', '/', '/'];
    let https = ['h', 't', 't', 'p', 's', ':', '/', '/'];
    assert(http@ =~= seq!['h', 't', 't', 'p', ':', '/', '/']);
    assert(https@ =~= seq!['h', 't', 't', 'p', 's', ':', '/', '/']);
    assert(cs@.skip(0) =~= cs@);
    if begins_with(cs.as_slice(), 0, &http) || begins_with(cs.as_slice(), 0, &https) {
        return LinkAction::External;
    }
    let hash = ['#'];
    assert(hash@ =~= seq!['#']);
    proof {
        lemma_find_end(cs@, seq!['#'], 0);
    }
    let (end, heading) = match find_from_exec(cs.as_slice(), &hash, 0) {
        Some(h) => {
            assert(cs@.subrange(h + 1, n as int) =~= cs@.skip(h + 1));
            (h, Some(string_of_range(cs.as_slice(), h + 1, n)))
        },
        None => (n, None),
    };
    assert(cs@.subrange(0, end as int) =~= cs@.take(end as int));
    assert(cs@.take(n as int) =~= cs@);
    if end == 0 {
        return match heading {
            Some(h) => LinkAction::Heading(h),
            None => LinkAction::Nothing,
        };
    }
    let md = ['.', 'm', 'd'];
    assert(md@ =~= seq!['.', 'm', 'd']);
    let is_note = end >= 3 && begins_with(cs.as_slice(), end - 3, &md);
    proof {
        if end >= 3 {
            let p = cs@.take(end as int);
            assert(cs@.skip(end - 3).take(3) =~= p.skip(end - 3));
        }
    }
    if is_note {
        LinkAction::Note(string_of_range(cs.as_slice(), 0, end), heading)
    } else {
        LinkAction::External
    }
}

} // verus!
