//! Collapsible `<details>` blocks in a note: where one begins, where it
//! ends, its summary and the lines it folds away.
use vstd::prelude::*;

use crate::keys::slice_chars;
use crate::markdown::starts_with;
use crate::text::{
    chars_of, find_from, find_from_exec, lemma_find_from, matches_at, matches_at_exec, same_chars, string_of_range,
    string_views, trim, trim_bounds,
};

verus! {

/// The opening tag of a summary.
pub open spec fn summary_open() -> Seq<char> {
    "<summary>"@
}

/// The closing tag of a summary.
pub open spec fn summary_close() -> Seq<char> {
    "</summary>"@
}

/// Whether `pat` occurs in `s`.
pub open spec fn has(s: Seq<char>, pat: Seq<char>) -> bool {
    find_from(s, pat, 0) is Some
}

/// A line that opens a details block: trimmed, it starts with `<details`
/// and ends with `>` or holds `><`.
pub open spec fn is_details_start(line: Seq<char>) -> bool {
    let t = trim(line);
    starts_with(t, "<details"@) && ((t.len() > 0 && t[t.len() - 1] == '>') || has(t, "><"@))
}

/// The first line from `k` on whose trimmed text holds `</details>`, or the
/// number of lines.
pub open spec fn details_end(lines: Seq<Seq<char>>, k: int) -> int
    decreases lines.len() - k,
{
    if k < 0 || k >= lines.len() {
        lines.len() as int
    } else if has(trim(lines[k]), "</details>"@) {
        k
    } else {
        details_end(lines, k + 1)
    }
}

/// Where a details block ends lies between `k` and the number of lines.
pub proof fn lemma_details_end_bounds(lines: Seq<Seq<char>>, k: int)
    requires
        0 <= k <= lines.len(),
    ensures
        k <= details_end(lines, k) <= lines.len(),
    decreases lines.len() - k,
{
    if k < lines.len() {
        lemma_details_end_bounds(lines, k + 1);
    }
}

/// `d` from index `i` on, without the copies of `p` that begin it
/// (`str::trim_start_matches`).
pub open spec fn strip_from(d: Seq<char>, p: Seq<char>, i: int) -> Seq<char>
    decreases d.len() - i,
{
    if 0 <= i && p.len() > 0 && matches_at(d, p, i) {
        strip_from(d, p, i + p.len())
    } else if 0 <= i <= d.len() {
        d.skip(i)
    } else {
        Seq::empty()
    }
}

/// The summary text of a trimmed line that holds `<summary>`: between the
/// tags where both occur, otherwise what follows the opening tags; trimmed.
pub open spec fn summary_text(d: Seq<char>) -> Seq<char> {
    match (find_from(d, summary_open(), 0), find_from(d, summary_close(), 0)) {
        (Some(a), Some(b)) => trim(d.subrange(a + 9, b)),
        _ => trim(strip_from(d, summary_open(), 0)),
    }
}

/// A summary line whose closing tag comes before its opening tag, which has
/// no text between them to take.
pub open spec fn summary_reversed(d: Seq<char>) -> bool {
    match (find_from(d, summary_open(), 0), find_from(d, summary_close(), 0)) {
        (Some(a), Some(b)) => b < a + 9,
        _ => false,
    }
}

/// The summary and folded lines of lines `k .. end`: a line holding
/// `<summary>` sets the summary (when its text is not empty), a lone
/// `</summary>` is skipped, every other line is folded content.
pub open spec fn details_scan(lines: Seq<Seq<char>>, k: int, end: int, summary: Option<Seq<char>>, content: Seq<int>) -> (
    Option<Seq<char>>,
    Seq<int>,
)
    decreases end - k,
{
    if k >= end || k < 0 {
        (summary, content)
    } else {
        let d = trim(lines[k]);
        if has(d, summary_open()) {
            let t = summary_text(d);
            details_scan(
                lines,
                k + 1,
                end,
                if t.len() > 0 {
                    Some(t)
                } else {
                    summary
                },
                content,
            )
        } else if d == summary_close() {
            details_scan(lines, k + 1, end, summary, content)
        } else {
            details_scan(lines, k + 1, end, summary, content.push(k))
        }
    }
}

/// A details block: its summary, the lines it folds, and the line after
/// its closing tag.
#[derive(Debug, Clone)]
pub struct DetailsBlock {
    pub summary: Option<String>,
    pub content_lines: Vec<usize>,
    pub next_line: usize,
}

/// The view of an optional string.
pub open spec fn opt_view(o: Option<String>) -> Option<Seq<char>> {
    match o {
        Some(s) => Some(s@),
        None => None,
    }
}

/// Whether a line opens a details block.
pub fn details_start(line: &str) -> (b: bool)
    ensures
        b == is_details_start(line@),
{
    let cs = chars_of(line);
    let (a, e) = trim_bounds(cs.as_slice());
    let t = slice_chars(cs.as_slice(), a, e);
    let open = chars_of("<details");
    let pair = chars_of("><");
    let starts = matches_at_exec(t.as_slice(), open.as_slice(), 0);
    proof {
        assert(starts == starts_with(t@, "<details"@)) by {
            if starts {
                assert(t@.take(open@.len() as int) =~= t@.subrange(0, open@.len() as int));
            } else if open@.len() <= t@.len() {
                assert(t@.take(open@.len() as int) =~= t@.subrange(0, open@.len() as int));
            }
        }
    }
    starts && ((t.len() > 0 && t[t.len() - 1] == '>') || find_from_exec(t.as_slice(), pair.as_slice(), 0).is_some())
}

fn trimmed(s: &str) -> (out: Vec<char>)
    ensures
        out@ == trim(s@),
{
    let cs = chars_of(s);
    let (a, e) = trim_bounds(cs.as_slice());
    slice_chars(cs.as_slice(), a, e)
}

fn summary_text_exec(d: &Vec<char>) -> (t: Vec<char>)
    requires
        !summary_reversed(d@),
    ensures
        t@ == summary_text(d@),
{
    let open = chars_of("<summary>");
    let close = chars_of("</summary>");
    proof {
        reveal_strlit("<summary>");
        reveal_strlit("</summary>");
    }
    let a = find_from_exec(d.as_slice(), open.as_slice(), 0);
    let b = find_from_exec(d.as_slice(), close.as_slice(), 0);
    match (a, b) {
        (Some(a), Some(b)) => {
            proof {
                lemma_find_from(d@, open@, 0);
                lemma_find_from(d@, close@, 0);
            }
            let inner = slice_chars(d.as_slice(), a + 9, b);
            let (x, y) = trim_bounds(inner.as_slice());
            slice_chars(inner.as_slice(), x, y)
        },
        _ => {
            let n = d.len();
            let mut i: usize = 0;
            while matches_at_exec(d.as_slice(), open.as_slice(), i)
                invariant
                    n == d@.len(),
                    i <= d@.len(),
                    open@ == summary_open(),
                    open@.len() == 9,
                    strip_from(d@, summary_open(), 0) == strip_from(d@, summary_open(), i as int),
                decreases d@.len() - i,
            {
                assert(i + 9 <= d@.len());
                i = i + 9;
            }
            let rest = slice_chars(d.as_slice(), i, d.len());
            assert(rest@ =~= d@.skip(i as int));
            let (x, y) = trim_bounds(rest.as_slice());
            slice_chars(rest.as_slice(), x, y)
        },
    }
}

/// The details block whose opening line is `start`: `None` when no later
/// line closes it with `</details>`, otherwise its summary, folded lines
/// and the line after the closing one (see [`details_scan`]). Summary
/// lines whose closing tag comes first are left out.
pub fn details_block(lines: &Vec<String>, start: usize) -> (r: Option<DetailsBlock>)
    requires
        start < lines@.len(),
        forall|k: int|
            start < k < details_end(string_views(lines@), start + 1) ==> !summary_reversed(
                #[trigger] trim(string_views(lines@)[k]),
            ),
    ensures
        ({
            let lv = string_views(lines@);
            let e = details_end(lv, start + 1);
            &&& r is Some <==> e < lines@.len()
            &&& r matches Some(b) ==> {
                let scan = details_scan(lv, start + 1, e, None, Seq::empty());
                &&& b.next_line == e + 1
                &&& opt_view(b.summary) == scan.0
                &&& b.content_lines@.len() == scan.1.len()
                &&& forall|i: int| 0 <= i < scan.1.len() ==> b.content_lines@[i] == #[trigger] scan.1[i]
            }
        }),
{
    let ghost lv = string_views(lines@);
    let ghost e = details_end(lv, start + 1);
    let open = chars_of("<summary>");
    let close = chars_of("</summary>");
    let closing_details = chars_of("</details>");
    let mut summary: Option<String> = None;
    let mut content: Vec<usize> = Vec::new();
    let ghost mut content_view: Seq<int> = Seq::empty();
    let n = lines.len();
    let mut k = start + 1;
    proof {
        assert(lv.len() == lines@.len());
    }
    while k < n
        invariant
            n == lines@.len(),
            lv == string_views(lines@),
            lv.len() == lines@.len(),
            start < k <= lines@.len(),
            e == details_end(lv, start + 1),
            details_end(lv, start + 1) == details_end(lv, k as int),
            forall|j: int| start < j < e ==> !summary_reversed(#[trigger] trim(lv[j])),
            open@ == summary_open(),
            close@ == summary_close(),
            closing_details@ == "</details>"@,
            content@.len() == content_view.len(),
            forall|i: int| 0 <= i < content_view.len() ==> content@[i] == #[trigger] content_view[i],
            details_scan(lv, start + 1, e, None, Seq::empty()) == details_scan(
                lv,
                k as int,
                e,
                opt_view(summary),
                content_view,
            ),
        decreases lines@.len() - k,
    {
        let d = trimmed(lines[k].as_str());
        proof {
            assert(lv[k as int] == lines@[k as int]@);
        }
        if find_from_exec(d.as_slice(), closing_details.as_slice(), 0).is_some() {
            proof {
                assert(details_end(lv, k as int) == k);
            }
            return Some(DetailsBlock { summary, content_lines: content, next_line: k + 1 });
        }
        proof {
            assert(details_end(lv, k as int) == details_end(lv, k + 1));
            lemma_details_end_bounds(lv, k + 1);
        }
        if find_from_exec(d.as_slice(), open.as_slice(), 0).is_some() {
            let t = summary_text_exec(&d);
            if t.len() > 0 {
                summary = Some(string_of_range(t.as_slice(), 0, t.len()));
                proof {
                    assert(t@.subrange(0, t@.len() as int) =~= t@);
                }
            }
        } else if same_chars(d.as_slice(), close.as_slice()) {
        } else {
            content.push(k);
            proof {
                content_view = content_view.push(k as int);
            }
        }
        k += 1;
    }
    proof {
        assert(details_end(lv, k as int) == lines@.len());
    }
    None
}

} // verus!
