//! The blocks a note's lines form, in reading order: frontmatter, code
//! fences and their lines, display math, standalone images, tasks, details
//! blocks, table rows and text lines, with the outline of its headings.
use vstd::prelude::*;

use crate::details::{details_block, details_end, details_start, is_details_start, lemma_details_end_bounds, summary_reversed};
use crate::markdown::{standalone_image_path, standalone_path, starts_with};
use crate::session::{DocumentLinkRange, OutlineItem};
use crate::tables::{is_separator_row, is_table_line, row_cells, table_block_end, table_row};
use crate::tasks::{indent_fits, is_task_line, parse_task_line};
use crate::text::{chars_of, find_from, find_from_exec, string_of_range, string_views, trim, trim_bounds};
use crate::keys::slice_chars;

verus! {

/// What the Markdown core reads from one line: whether it is a one-line
/// display-math block, whether it is a `$$` delimiter, and its heading level
/// (0 when it is no heading).
#[derive(Debug, Clone, Copy, PartialEq, Eq, Structural)]
pub struct LineMarks {
    pub math_body: bool,
    pub math_delimiter: bool,
    pub heading: u8,
}

/// One block of a note, by the line it starts on.
#[derive(Debug, Clone, Copy, PartialEq, Eq, Structural)]
pub enum Block {
    FrontmatterDelimiter { line: usize },
    FrontmatterLine { line: usize },
    TagBadges,
    CodeFence { line: usize },
    CodeLine { line: usize },
    MathBlock { line: usize, end_line: usize },
    Image { line: usize },
    Task { line: usize },
    Details { line: usize },
    TableRow { line: usize, table: usize, is_separator: bool, is_header: bool },
    TextLine { line: usize, heading_level: u8 },
}

/// A line that opens or closes a code block.
pub open spec fn is_fence(line: Seq<char>) -> bool {
    starts_with(line, "```"@)
}

/// The first `$$` delimiter line after line `k`.
pub open spec fn next_delimiter(marks: Seq<LineMarks>, k: int) -> Option<int>
    decreases marks.len() - k,
{
    if k + 1 < 0 || k + 1 >= marks.len() {
        None
    } else if marks[k + 1].math_delimiter {
        Some(k + 1)
    } else {
        next_delimiter(marks, k + 1)
    }
}

/// Some line strictly between lines `a` and `b` holds more than blanks.
pub open spec fn text_between(lines: Seq<Seq<char>>, a: int, b: int) -> bool {
    exists|m: int| a < m < b && #[trigger] trim(lines[m]).len() > 0
}

/// The heading level a text line shows: the Markdown heading level when it
/// is at most 3 and a space follows the `#` marks, otherwise 0.
pub open spec fn shown_heading(line: Seq<char>, level: u8) -> u8 {
    if 0 < level <= 3 && (level as int) < line.len() && line[level as int] == ' ' {
        level
    } else {
        0
    }
}

/// The first line from `k` on that is not a table line.
pub open spec fn table_end(lines: Seq<Seq<char>>, k: int) -> int
    decreases lines.len() - k,
{
    if k < 0 || k >= lines.len() || !is_table_line(lines[k]) {
        k
    } else {
        table_end(lines, k + 1)
    }
}

/// A table row is its table's separator row.
pub open spec fn row_separates(line: Seq<char>) -> bool {
    is_separator_row(row_cells(line))
}

/// The first separator row among lines `j .. e`.
pub open spec fn first_separator_line(lines: Seq<Seq<char>>, j: int, e: int) -> Option<int>
    decreases e - j,
{
    if j >= e || j < 0 {
        None
    } else if row_separates(lines[j]) {
        Some(j)
    } else {
        first_separator_line(lines, j + 1, e)
    }
}

/// The rows of table `table` on lines `k .. e`; the rows above its first
/// separator row are header rows.
pub open spec fn table_rows(lines: Seq<Seq<char>>, k: int, e: int, table: int) -> Seq<Block> {
    Seq::new(
        (e - k) as nat,
        |r: int|
            Block::TableRow {
                line: (k + r) as usize,
                table: table as usize,
                is_separator: row_separates(lines[k + r]),
                is_header: match first_separator_line(lines, k, e) {
                    Some(s) => k + r < s,
                    None => false,
                },
            },
    )
}

/// `b` before the blocks of `rest`, if there are any.
pub open spec fn then(b: Seq<Block>, rest: Option<Seq<Block>>) -> Option<Seq<Block>> {
    match rest {
        Some(s) => Some(b + s),
        None => None,
    }
}

/// The blocks of lines `k..`, inside a code block or not, with `tables`
/// tables before them; `None` where reading them would fail: a task line
/// whose indent does not fit, a details block with a summary closed before
/// it opens, or a table line that is a single `|`.
pub open spec fn blocks_from(lines: Seq<Seq<char>>, marks: Seq<LineMarks>, k: int, in_code: bool, tables: int) -> Option<
    Seq<Block>,
>
    decreases lines.len() - k,
{
    if k < 0 || k >= lines.len() {
        Some(Seq::empty())
    } else {
        let line = lines[k];
        if is_fence(line) {
            then(seq![Block::CodeFence { line: k as usize }], blocks_from(lines, marks, k + 1, !in_code, tables))
        } else if in_code {
            then(seq![Block::CodeLine { line: k as usize }], blocks_from(lines, marks, k + 1, in_code, tables))
        } else if marks[k].math_body {
            then(
                seq![Block::MathBlock { line: k as usize, end_line: k as usize }],
                blocks_from(lines, marks, k + 1, in_code, tables),
            )
        } else if marks[k].math_delimiter && next_delimiter(marks, k) is Some && text_between(
            lines,
            k,
            next_delimiter(marks, k)->0,
        ) {
            let j = next_delimiter(marks, k)->0;
            then(
                seq![Block::MathBlock { line: k as usize, end_line: j as usize }],
                if k < j < lines.len() {
                    blocks_from(lines, marks, j + 1, in_code, tables)
                } else {
                    None
                },
            )
        } else if standalone_path(line) is Some {
            then(seq![Block::Image { line: k as usize }], blocks_from(lines, marks, k + 1, in_code, tables))
        } else if !indent_fits(line) {
            None
        } else if is_task_line(line) {
            then(seq![Block::Task { line: k as usize }], blocks_from(lines, marks, k + 1, in_code, tables))
        } else if is_details_start(line) {
            let e = details_end(lines, k + 1);
            if exists|m: int| k < m < e && summary_reversed(#[trigger] trim(lines[m])) {
                None
            } else if e < lines.len() && e + 1 > k {
                then(seq![Block::Details { line: k as usize }], blocks_from(lines, marks, e + 1, in_code, tables))
            } else {
                Some(seq![Block::TextLine { line: k as usize, heading_level: shown_heading(line, marks[k].heading) }])
            }
        } else if is_table_line(line) {
            let e = table_end(lines, k);
            if exists|m: int| k <= m < e && #[trigger] trim(lines[m]).len() < 2 {
                None
            } else if k < e <= lines.len() {
                then(table_rows(lines, k, e, tables), blocks_from(lines, marks, e, in_code, tables + 1))
            } else {
                None
            }
        } else {
            then(
                seq![Block::TextLine { line: k as usize, heading_level: shown_heading(line, marks[k].heading) }],
                blocks_from(lines, marks, k + 1, in_code, tables),
            )
        }
    }
}

/// The blocks before the body of a note with frontmatter (`Some`, holding
/// whether it has tags or a date) whose body starts at line
/// `content_start`: the frontmatter's delimiters and lines, or, when it is
/// hidden, the tag badges where tags are shown and there is something to
/// show; and the line the body starts on.
pub open spec fn frontmatter_blocks(count: int, frontmatter: Option<bool>, content_start: int, hidden: bool, show_tags: bool) -> (
    Seq<Block>,
    int,
) {
    if frontmatter is Some && content_start > 0 {
        if !hidden {
            let last = if content_start - 1 < count {
                content_start - 1
            } else {
                count
            };
            let n = if last > 1 {
                last - 1
            } else {
                0
            };
            (
                seq![Block::FrontmatterDelimiter { line: 0 }] + Seq::new(
                    n as nat,
                    |r: int| Block::FrontmatterLine { line: (r + 1) as usize },
                ) + seq![Block::FrontmatterDelimiter { line: (content_start - 1) as usize }],
                content_start,
            )
        } else if show_tags && frontmatter->0 {
            (seq![Block::TagBadges], content_start)
        } else {
            (Seq::empty(), content_start)
        }
    } else {
        (Seq::empty(), 0)
    }
}

/// The blocks of a note (see [`frontmatter_blocks`] and [`blocks_from`]).
pub open spec fn note_blocks(
    lines: Seq<Seq<char>>,
    marks: Seq<LineMarks>,
    frontmatter: Option<bool>,
    content_start: int,
    hidden: bool,
    show_tags: bool,
) -> Option<Seq<Block>> {
    let (head, start) = frontmatter_blocks(lines.len() as int, frontmatter, content_start, hidden, show_tags);
    then(head, blocks_from(lines, marks, start, false, 0))
}

proof fn lemma_table_end(lines: Seq<Seq<char>>, k: int, e: int)
    requires
        0 <= k <= e <= lines.len(),
        forall|m: int| k <= m < e ==> is_table_line(#[trigger] lines[m]),
        e < lines.len() ==> !is_table_line(lines[e]),
    ensures
        table_end(lines, k) == e,
    decreases e - k,
{
    if k < e {
        lemma_table_end(lines, k + 1, e);
    }
}

proof fn lemma_next_delimiter(marks: Seq<LineMarks>, k: int)
    requires
        k >= -1,
    ensures
        next_delimiter(marks, k) matches Some(j) ==> k < j < marks.len() && marks[j].math_delimiter && forall|m: int|
            k < m < j ==> !marks[m].math_delimiter,
        next_delimiter(marks, k) is None ==> forall|m: int| k < m < marks.len() ==> !marks[m].math_delimiter,
    decreases marks.len() - k,
{
    if k + 1 < marks.len() && !marks[k + 1].math_delimiter {
        lemma_next_delimiter(marks, k + 1);
    }
}

proof fn lemma_first_separator_line(lines: Seq<Seq<char>>, j: int, e: int)
    requires
        0 <= j,
    ensures
        first_separator_line(lines, j, e) matches Some(s) ==> j <= s < e && row_separates(lines[s]) && forall|m: int|
            j <= m < s ==> !row_separates(lines[m]),
        first_separator_line(lines, j, e) is None ==> forall|m: int| j <= m < e ==> !row_separates(lines[m]),
    decreases e - j,
{
    if j < e && !row_separates(lines[j]) {
        lemma_first_separator_line(lines, j + 1, e);
    }
}

fn is_fence_exec(cs: &Vec<char>) -> (b: bool)
    ensures
        b == is_fence(cs@),
{
    proof {
        reveal_strlit("```");
    }
    let b = cs.len() >= 3 && cs[0] == '`' && cs[1] == '`' && cs[2] == '`';
    proof {
        if cs@.len() >= 3 {
            if b {
                assert(cs@.take(3) =~= "```"@);
            } else {
                assert(!(cs@.take(3) =~= "```"@) ==> !is_fence(cs@));
                if is_fence(cs@) {
                    assert(cs@.take(3)[0] == '`' && cs@.take(3)[1] == '`' && cs@.take(3)[2] == '`');
                }
            }
        }
    }
    b
}

fn next_delimiter_exec(marks: &Vec<LineMarks>, k: usize) -> (r: Option<usize>)
    ensures
        match next_delimiter(marks@, k as int) {
            Some(j) => r == Some(j as usize),
            None => r is None,
        },
{
    proof {
        lemma_next_delimiter(marks@, k as int);
    }
    if k >= marks.len() {
        return None;
    }
    let mut j = k + 1;
    while j < marks.len()
        invariant
            k < j <= marks@.len(),
            forall|m: int| k < m < j ==> !marks@[m].math_delimiter,
        decreases marks@.len() - j,
    {
        if marks[j].math_delimiter {
            proof {
                lemma_next_delimiter(marks@, k as int);
                if let Some(x) = next_delimiter(marks@, k as int) {
                    if x < j {
                        assert(!marks@[x].math_delimiter);
                    } else if x > j {
                        assert(!marks@[j as int].math_delimiter);
                    }
                }
            }
            return Some(j);
        }
        j += 1;
    }
    None
}

fn text_between_exec(lines: &Vec<String>, a: usize, b: usize) -> (r: bool)
    requires
        b <= lines@.len(),
    ensures
        r == text_between(string_views(lines@), a as int, b as int),
{
    let ghost lv = string_views(lines@);
    if a >= b {
        return false;
    }
    let mut m = a + 1;
    while m < b
        invariant
            a < m <= b <= lines@.len(),
            lv == string_views(lines@),
            forall|x: int| a < x < m ==> #[trigger] trim(lv[x]).len() == 0,
        decreases b - m,
    {
        let cs = chars_of(lines[m].as_str());
        let (x, y) = trim_bounds(cs.as_slice());
        proof {
            assert(lv[m as int] == lines@[m as int]@);
        }
        if x < y {
            assert(trim(lv[m as int]).len() > 0);
            return true;
        }
        m += 1;
    }
    false
}

/// `a` and then `b` before `rest` is `a + b` before `rest`.
proof fn lemma_then_push(a: Seq<Block>, b: Seq<Block>, rest: Option<Seq<Block>>)
    ensures
        then(a, then(b, rest)) == then(a + b, rest),
{
    if rest is Some {
        assert(a + (b + rest->0) =~= (a + b) + rest->0);
    }
}

fn shown_heading_exec(cs: &Vec<char>, level: u8) -> (h: u8)
    ensures
        h == shown_heading(cs@, level),
{
    if 0 < level && level <= 3 && (level as usize) < cs.len() && cs[level as usize] == ' ' {
        level
    } else {
        0
    }
}

fn frontmatter_exec(n: usize, frontmatter: Option<bool>, content_start: usize, hidden: bool, show_tags: bool) -> (r: (
    Vec<Block>,
    usize,
))
    ensures
        frontmatter_blocks(n as int, frontmatter, content_start as int, hidden, show_tags) == (r.0@, r.1 as int),
{
    let mut out: Vec<Block> = Vec::new();
    if frontmatter.is_some() && content_start > 0 {
        if !hidden {
            out.push(Block::FrontmatterDelimiter { line: 0 });
            let last = if content_start - 1 < n {
                content_start - 1
            } else {
                n
            };
            let ghost count: int = if last > 1 {
                last - 1
            } else {
                0
            };
            let mut l: usize = 1;
            while l < last
                invariant
                    1 <= l,
                    l - 1 <= count,
                    count == (if last > 1 {
                        last - 1
                    } else {
                        0int
                    }),
                    out@ =~= seq![Block::FrontmatterDelimiter { line: 0 }] + Seq::new(
                        (l - 1) as nat,
                        |r: int| Block::FrontmatterLine { line: (r + 1) as usize },
                    ),
                decreases last - l,
            {
                out.push(Block::FrontmatterLine { line: l });
                l += 1;
            }
            assert(l - 1 == count);
            out.push(Block::FrontmatterDelimiter { line: content_start - 1 });
        } else if show_tags && frontmatter == Some(true) {
            out.push(Block::TagBadges);
        }
        (out, content_start)
    } else {
        (out, 0)
    }
}

fn table_blocks(lines: &Vec<String>, k: usize, e: usize, tables: usize) -> (r: Vec<Block>)
    requires
        k < e <= lines@.len(),
        forall|m: int| k <= m < e ==> is_table_line(#[trigger] string_views(lines@)[m]),
        forall|m: int| k <= m < e ==> #[trigger] trim(string_views(lines@)[m]).len() >= 2,
    ensures
        r@ == table_rows(string_views(lines@), k as int, e as int, tables as int),
{
    let ghost lv = string_views(lines@);
    let ghost rows_spec = table_rows(lv, k as int, e as int, tables as int);
    let mut seps: Vec<bool> = Vec::new();
    let mut j = k;
    while j < e
        invariant
            k <= j <= e <= lines@.len(),
            lv == string_views(lines@),
            forall|m: int| k <= m < e ==> is_table_line(#[trigger] lv[m]),
            forall|m: int| k <= m < e ==> #[trigger] trim(lv[m]).len() >= 2,
            seps@.len() == j - k,
            forall|m: int| 0 <= m < seps@.len() ==> seps@[m] == row_separates(lv[k + m]),
        decreases e - j,
    {
        proof {
            assert(lv[j as int] == lines@[j as int]@);
        }
        let (_, sep) = table_row(lines[j].as_str());
        seps.push(sep);
        j += 1;
    }
    let mut first: Option<usize> = None;
    let mut f: usize = 0;
    while f < seps.len()
        invariant_except_break
            first is None,
            forall|m: int| 0 <= m < f ==> !seps@[m],
        invariant
            f <= seps@.len(),
        ensures
            match first {
                Some(x) => x < seps@.len() && seps@[x as int] && forall|m: int| 0 <= m < x ==> !seps@[m],
                None => forall|m: int| 0 <= m < seps@.len() ==> !seps@[m],
            },
        decreases seps@.len() - f,
    {
        if seps[f] {
            first = Some(f);
            break;
        }
        f += 1;
    }
    proof {
        lemma_first_separator_line(lv, k as int, e as int);
        match first_separator_line(lv, k as int, e as int) {
            Some(s) => {
                assert(first matches Some(x) && x == s - k) by {
                    if first is None {
                        assert(!seps@[s - k]);
                    } else {
                        let x = first->0;
                        if x < s - k {
                            assert(!row_separates(lv[k + x]));
                        } else if x > s - k {
                            assert(!seps@[s - k]);
                        }
                    }
                }
            },
            None => {
                assert(first is None) by {
                    if first is Some {
                        let x = first->0;
                        assert(row_separates(lv[k + x]));
                    }
                }
            },
        }
    }
    let mut out: Vec<Block> = Vec::new();
    let mut r: usize = 0;
    while r < seps.len()
        invariant
            r <= seps@.len() == e - k,
            out@ == rows_spec.take(r as int),
            rows_spec == table_rows(lv, k as int, e as int, tables as int),
            forall|m: int| 0 <= m < seps@.len() ==> seps@[m] == row_separates(lv[k + m]),
            match first_separator_line(lv, k as int, e as int) {
                Some(s) => k <= s < e && first == Some((s - k) as usize),
                None => first is None,
            },
        decreases seps@.len() - r,
    {
        let header = match first {
            Some(x) => r < x,
            None => false,
        };
        let b = Block::TableRow { line: k + r, table: tables, is_separator: seps[r], is_header: header };
        proof {
            assert(rows_spec.len() == e - k);
            assert(seps@[r as int] == row_separates(lv[k + r]));
            assert(header == match first_separator_line(lv, k as int, e as int) {
                Some(s) => k + r < s,
                None => false,
            });
            assert(b == rows_spec[r as int]);
            assert(rows_spec.take(r + 1) =~= rows_spec.take(r as int).push(b));
        }
        out.push(b);
        r += 1;
    }
    proof {
        assert(rows_spec.take(r as int) =~= rows_spec);
    }
    out
}

/// The blocks that begin at line `k` (see [`blocks_from`]), and where
/// reading goes on: the next line, whether it is inside a code block, and
/// the number of tables so far.
fn step(lines: &Vec<String>, marks: &Vec<LineMarks>, k: usize, in_code: bool, tables: usize) -> (r: (
    Vec<Block>,
    usize,
    bool,
    usize,
))
    requires
        k < lines@.len() == marks@.len(),
        tables <= k,
        blocks_from(string_views(lines@), marks@, k as int, in_code, tables as int) is Some,
    ensures
        k < r.1 <= lines@.len(),
        r.3 <= r.1,
        blocks_from(string_views(lines@), marks@, k as int, in_code, tables as int) == then(
            r.0@,
            blocks_from(string_views(lines@), marks@, r.1 as int, r.2, r.3 as int),
        ),
{
    let ghost lv = string_views(lines@);
    let n = lines.len();
    let cs = chars_of(lines[k].as_str());
    proof {
        assert(lv[k as int] == lines@[k as int]@);
    }
    let ghost rest = blocks_from(lv, marks@, k as int, in_code, tables as int);
    let mut add: Vec<Block> = Vec::new();
    let mut next_k = k + 1;
    let mut next_code = in_code;
    let mut next_tables = tables;
    if is_fence_exec(&cs) {
        add.push(Block::CodeFence { line: k });
        next_code = !in_code;
        proof { assert(cs@ == lv[k as int]); assert(rest == then(add@, blocks_from(lv, marks@, next_k as int, next_code, next_tables as int))); }
    } else if in_code {
        add.push(Block::CodeLine { line: k });
        proof { assert(cs@ == lv[k as int]); assert(rest == then(add@, blocks_from(lv, marks@, next_k as int, next_code, next_tables as int))); }
    } else if marks[k].math_body {
        add.push(Block::MathBlock { line: k, end_line: k });
        proof { assert(cs@ == lv[k as int]); assert(rest == then(add@, blocks_from(lv, marks@, next_k as int, next_code, next_tables as int))); }
    } else {
        let mut math_end: Option<usize> = None;
        if marks[k].math_delimiter {
            proof {
                lemma_next_delimiter(marks@, k as int);
            }
            match next_delimiter_exec(marks, k) {
                Some(j) => {
                    if text_between_exec(lines, k, j) {
                        math_end = Some(j);
                    }
                },
                None => {},
            }
        }
        match math_end {
            Some(j) => {
                add.push(Block::MathBlock { line: k, end_line: j });
                next_k = j + 1;
                proof { assert(cs@ == lv[k as int]); assert(rest == then(add@, blocks_from(lv, marks@, next_k as int, next_code, next_tables as int))); }
            },
            None => {
                if standalone_image_path(lines[k].as_str()).is_some() {
                    add.push(Block::Image { line: k });
                    proof { assert(cs@ == lv[k as int]); assert(rest == then(add@, blocks_from(lv, marks@, next_k as int, next_code, next_tables as int))); }
                } else if parse_task_line(lines[k].as_str()).is_some() {
                    add.push(Block::Task { line: k });
                    proof { assert(cs@ == lv[k as int]); assert(rest == then(add@, blocks_from(lv, marks@, next_k as int, next_code, next_tables as int))); }
                } else if details_start(lines[k].as_str()) {
                    match details_block(lines, k) {
                        Some(b) => {
                            proof {
                                lemma_details_end_bounds(lv, k + 1);
                            }
                            add.push(Block::Details { line: k });
                            next_k = b.next_line;
                            proof { assert(cs@ == lv[k as int]); assert(rest == then(add@, blocks_from(lv, marks@, next_k as int, next_code, next_tables as int))); }
                        },
                        None => {
                            let h = shown_heading_exec(&cs, marks[k].heading);
                            add.push(Block::TextLine { line: k, heading_level: h });
                            next_k = n;
                            proof { assert(cs@ == lv[k as int]); assert(rest == then(add@, blocks_from(lv, marks@, next_k as int, next_code, next_tables as int))); }
                        },
                    }
                } else if crate::tables::table_line(lines[k].as_str()) {
                    let e = table_block_end(lines, k);
                    proof {
                        lemma_table_end(lv, k as int, e as int);
                    }
                    add = table_blocks(lines, k, e, tables);
                    next_k = e;
                    next_tables = tables + 1;
                    proof { assert(cs@ == lv[k as int]); assert(rest == then(add@, blocks_from(lv, marks@, next_k as int, next_code, next_tables as int))); }
                } else {
                    let h = shown_heading_exec(&cs, marks[k].heading);
                    add.push(Block::TextLine { line: k, heading_level: h });
                    proof { assert(cs@ == lv[k as int]); assert(rest == then(add@, blocks_from(lv, marks@, next_k as int, next_code, next_tables as int))); }
                }
            },
        }
    }
    (add, next_k, next_code, next_tables)
}

/// The blocks of a note's lines (see [`note_blocks`]), given what the
/// Markdown core reads from each line, whether the note has frontmatter
/// (and whether it has tags or a date), the line its body starts on, and
/// whether the frontmatter is hidden and tags are shown. The note must be
/// one that reads without failing: by [`lemma_readable_notes_parse`], any
/// note whose task indents fit, whose summaries open before they close and
/// whose table lines are more than a lone `|` is one.
pub fn parse_blocks(
    lines: &Vec<String>,
    marks: &Vec<LineMarks>,
    frontmatter: Option<bool>,
    content_start: usize,
    hidden: bool,
    show_tags: bool,
) -> (r: Vec<Block>)
    requires
        marks@.len() == lines@.len(),
        note_blocks(string_views(lines@), marks@, frontmatter, content_start as int, hidden, show_tags) is Some,
    ensures
        note_blocks(string_views(lines@), marks@, frontmatter, content_start as int, hidden, show_tags) == Some(r@),
{
    let ghost lv = string_views(lines@);
    let n = lines.len();
    let (mut out, mut k) = frontmatter_exec(n, frontmatter, content_start, hidden, show_tags);
    let ghost head = out@;
    let ghost mut body: Seq<Block> = Seq::empty();
    let mut in_code = false;
    let mut tables: usize = 0;
    proof {
        assert(head + body =~= head);
    }
    while k < n
        invariant
            n == lines@.len() == marks@.len() == lv.len(),
            lv == string_views(lines@),
            tables <= k,
            out@ == head + body,
            note_blocks(lv, marks@, frontmatter, content_start as int, hidden, show_tags) == then(
                head + body,
                blocks_from(lv, marks@, k as int, in_code, tables as int),
            ),
            blocks_from(lv, marks@, k as int, in_code, tables as int) is Some,
        decreases n - k,
    {
        let ghost rest = blocks_from(lv, marks@, k as int, in_code, tables as int);
        let ghost prefix = head + body;
        let (add, next_k, next_code, next_tables) = step(lines, marks, k, in_code, tables);
        proof {
            lemma_then_push(prefix, add@, blocks_from(lv, marks@, next_k as int, next_code, next_tables as int));
        }
        let mut t: usize = 0;
        let ghost before = body;
        while t < add.len()
            invariant
                t <= add@.len(),
                out@ == head + body,
                body == before + add@.take(t as int),
            decreases add@.len() - t,
        {
            out.push(add[t]);
            proof {
                assert(add@.take(t + 1) =~= add@.take(t as int).push(add@[t as int]));
                body = body.push(add@[t as int]);
                assert(head + body =~= (head + before + add@.take(t as int)).push(add@[t as int]));
            }
            t += 1;
        }
        proof {
            assert(add@.take(t as int) =~= add@);
            assert(head + body =~= prefix + add@);
        }
        k = next_k;
        in_code = next_code;
        tables = next_tables;
    }
    proof {
        assert(head + body + Seq::<Block>::empty() =~= head + body);
    }
    out
}

/// The outline entries of `blocks[i..]`: each text line shown as a heading,
/// with its level, source line (as a `u32`) and position in the blocks.
pub open spec fn outline_from(blocks: Seq<Block>, i: int) -> Seq<OutlineItem>
    decreases blocks.len() - i,
{
    if i < 0 || i >= blocks.len() {
        Seq::empty()
    } else {
        match blocks[i] {
            Block::TextLine { line, heading_level } => if heading_level > 0 {
                seq![OutlineItem { level: heading_level, source_line: line as u32, line: i as usize }] + outline_from(
                    blocks,
                    i + 1,
                )
            } else {
                outline_from(blocks, i + 1)
            },
            _ => outline_from(blocks, i + 1),
        }
    }
}

/// The outline of a note: its headings in order (see [`outline_from`]).
pub fn outline(blocks: &Vec<Block>) -> (r: Vec<OutlineItem>)
    ensures
        r@ == outline_from(blocks@, 0),
{
    let mut out: Vec<OutlineItem> = Vec::new();
    let mut i: usize = 0;
    while i < blocks.len()
        invariant
            i <= blocks@.len(),
            outline_from(blocks@, 0) == out@ + outline_from(blocks@, i as int),
        decreases blocks@.len() - i,
    {
        match blocks[i] {
            Block::TextLine { line, heading_level } => {
                if heading_level > 0 {
                    let item = OutlineItem { level: heading_level, source_line: line as u32, line: i };
                    proof {
                        assert(out@ + outline_from(blocks@, i as int) =~= out@.push(item) + outline_from(
                            blocks@,
                            i + 1,
                        ));
                    }
                    out.push(item);
                }
            },
            _ => {},
        }
        i += 1;
    }
    assert(out@ + outline_from(blocks@, i as int) =~= out@);
    out
}

/// `x` held to `cap`.
pub open spec fn capped(x: int, cap: int) -> int {
    if x > cap {
        cap
    } else {
        x
    }
}

/// How many links the first `i` items hold.
pub open spec fn links_before(counts: Seq<(usize, usize)>, i: int) -> int
    decreases i,
{
    if i <= 0 {
        0
    } else {
        links_before(counts, i - 1) + counts[i - 1].0
    }
}

/// Where each item's links lie in the note's list of links, given each
/// item's count of links and of images among them: the links before it
/// (held to `u32::MAX`), its own count and its images (held to
/// `u16::MAX`).
pub open spec fn link_range_of(counts: Seq<(usize, usize)>, i: int) -> DocumentLinkRange {
    DocumentLinkRange {
        start: capped(links_before(counts, i), u32::MAX as int) as u32,
        len: capped(counts[i].0 as int, u16::MAX as int) as u16,
        image_count: capped(counts[i].1 as int, u16::MAX as int) as u16,
    }
}

proof fn lemma_links_before_mono(counts: Seq<(usize, usize)>, i: int, j: int)
    requires
        0 <= i <= j <= counts.len(),
    ensures
        0 <= links_before(counts, i) <= links_before(counts, j),
    decreases j - i,
{
    if i < j {
        lemma_links_before_mono(counts, i, j - 1);
    } else {
        lemma_links_before_nonneg(counts, i);
    }
}

proof fn lemma_links_before_nonneg(counts: Seq<(usize, usize)>, i: int)
    ensures
        links_before(counts, i) >= 0,
    decreases i,
{
    if i > 0 {
        lemma_links_before_nonneg(counts, i - 1);
    }
}

/// The link ranges of the items (see [`link_range_of`]).
pub fn link_ranges(counts: &Vec<(usize, usize)>) -> (r: Vec<DocumentLinkRange>)
    requires
        links_before(counts@, counts@.len() as int) <= usize::MAX,
    ensures
        r@.len() == counts@.len(),
        forall|i: int| 0 <= i < counts@.len() ==> r@[i] == #[trigger] link_range_of(counts@, i),
{
    let mut out: Vec<DocumentLinkRange> = Vec::new();
    let mut total: usize = 0;
    let mut i: usize = 0;
    while i < counts.len()
        invariant
            i <= counts@.len(),
            links_before(counts@, counts@.len() as int) <= usize::MAX,
            total == links_before(counts@, i as int),
            out@.len() == i,
            forall|j: int| 0 <= j < i ==> out@[j] == #[trigger] link_range_of(counts@, j),
        decreases counts@.len() - i,
    {
        proof {
            lemma_links_before_mono(counts@, i + 1, counts@.len() as int);
        }
        let (n, images) = counts[i];
        let start: u32 = if total > 4294967295 {
            4294967295
        } else {
            total as u32
        };
        let len: u16 = if n > 65535 {
            65535
        } else {
            n as u16
        };
        let image_count: u16 = if images > 65535 {
            65535
        } else {
            images as u16
        };
        out.push(DocumentLinkRange { start, len, image_count });
        total = total + n;
        i += 1;
    }
    out
}

/// The key and value of a frontmatter line: around its first `:`, each
/// trimmed; a line without a colon is all value, untrimmed, with an empty
/// key.
pub open spec fn frontmatter_entry_of(line: Seq<char>) -> (Seq<char>, Seq<char>) {
    match find_from(line, seq![':'], 0) {
        Some(c) => (trim(line.take(c)), trim(line.skip(c + 1))),
        None => (Seq::empty(), line),
    }
}

/// The key and value of a frontmatter line (see [`frontmatter_entry_of`]).
pub fn frontmatter_entry(line: &str) -> (r: (String, String))
    ensures
        (r.0@, r.1@) == frontmatter_entry_of(line@),
{
    let cs = chars_of(line);
    let colon = [':'];
    assert(colon@ =~= seq![':']);
    proof {
        crate::text::lemma_find_from(cs@, seq![':'], 0);
    }
    match find_from_exec(cs.as_slice(), &colon, 0) {
        Some(c) => {
            let key = slice_chars(cs.as_slice(), 0, c);
            let value = slice_chars(cs.as_slice(), c + 1, cs.len());
            assert(key@ =~= cs@.take(c as int));
            assert(value@ =~= cs@.skip(c + 1));
            let (a, b) = trim_bounds(key.as_slice());
            let (x, y) = trim_bounds(value.as_slice());
            (string_of_range(key.as_slice(), a, b), string_of_range(value.as_slice(), x, y))
        },
        None => {
            assert(cs@.subrange(0, cs@.len() as int) =~= cs@);
            (String::new(), string_of_range(cs.as_slice(), 0, cs.len()))
        },
    }
}

/// Every outline entry of `blocks[i..]` points at a text line of `blocks`
/// shown as a heading of its level, on its source line.
pub proof fn lemma_outline_points_at_headings(blocks: Seq<Block>, i: int)
    requires
        0 <= i,
        blocks.len() <= usize::MAX,
    ensures
        forall|k: int|
            0 <= k < outline_from(blocks, i).len() ==> {
                let o = #[trigger] outline_from(blocks, i)[k];
                &&& i <= o.line < blocks.len()
                &&& o.level > 0
                &&& blocks[o.line as int] matches Block::TextLine { line, heading_level } && heading_level == o.level
                    && o.source_line == line as u32
            },
    decreases blocks.len() - i,
{
    if i < blocks.len() {
        lemma_outline_points_at_headings(blocks, i + 1);
        let rest = outline_from(blocks, i + 1);
        match blocks[i] {
            Block::TextLine { line, heading_level } => {
                if heading_level > 0 {
                    let head = OutlineItem { level: heading_level, source_line: line as u32, line: i as usize };
                    assert forall|k: int| 0 <= k < outline_from(blocks, i).len() implies {
                        let o = #[trigger] outline_from(blocks, i)[k];
                        &&& i <= o.line < blocks.len()
                        &&& o.level > 0
                        &&& blocks[o.line as int] matches Block::TextLine { line, heading_level } && heading_level
                            == o.level && o.source_line == line as u32
                    } by {
                        if k > 0 {
                            assert(outline_from(blocks, i)[k] == rest[k - 1]);
                        }
                    }
                }
            },
            _ => {},
        }
    }
}

/// No text line of `bs` shows a heading deeper than level 3.
pub open spec fn headings_at_most_three(bs: Seq<Block>) -> bool {
    forall|j: int| 0 <= j < bs.len() ==> (#[trigger] bs[j] matches Block::TextLine { heading_level, .. } ==> heading_level <= 3)
}

proof fn lemma_headings_then(a: Seq<Block>, rest: Option<Seq<Block>>)
    requires
        headings_at_most_three(a),
        rest matches Some(b) ==> headings_at_most_three(b),
    ensures
        then(a, rest) matches Some(c) ==> headings_at_most_three(c),
{
    if let Some(b) = rest {
        let c = a + b;
        assert forall|j: int| 0 <= j < c.len() implies (#[trigger] c[j] matches Block::TextLine {
            heading_level,
            ..
        } ==> heading_level <= 3) by {
            if j < a.len() {
                assert(c[j] == a[j]);
            } else {
                assert(c[j] == b[j - a.len()]);
            }
        }
    }
}

/// No block of lines `k..` shows a heading deeper than level 3.
pub proof fn lemma_headings_at_most_three(
    lines: Seq<Seq<char>>,
    marks: Seq<LineMarks>,
    k: int,
    in_code: bool,
    tables: int,
)
    ensures
        blocks_from(lines, marks, k, in_code, tables) matches Some(bs) ==> headings_at_most_three(bs),
    decreases lines.len() - k,
{
    if 0 <= k < lines.len() {
        let line = lines[k];
        let e = table_end(lines, k);
        let d = details_end(lines, k + 1);
        lemma_headings_at_most_three(lines, marks, k + 1, !in_code, tables);
        lemma_headings_at_most_three(lines, marks, k + 1, in_code, tables);
        if k < e <= lines.len() {
            lemma_headings_at_most_three(lines, marks, e, in_code, tables + 1);
            let rows = table_rows(lines, k, e, tables);
            assert forall|j: int| 0 <= j < rows.len() implies (#[trigger] rows[j] matches Block::TextLine {
                heading_level,
                ..
            } ==> heading_level <= 3) by {}
            lemma_headings_then(rows, blocks_from(lines, marks, e, in_code, tables + 1));
        }
        if k < d < lines.len() {
            lemma_headings_at_most_three(lines, marks, d + 1, in_code, tables);
            lemma_headings_then(seq![Block::Details { line: k as usize }], blocks_from(lines, marks, d + 1, in_code, tables));
        }
        if let Some(j) = next_delimiter(marks, k) {
            if k < j < lines.len() {
                lemma_headings_at_most_three(lines, marks, j + 1, in_code, tables);
                lemma_headings_then(
                    seq![Block::MathBlock { line: k as usize, end_line: j as usize }],
                    blocks_from(lines, marks, j + 1, in_code, tables),
                );
            }
        }
        let h = shown_heading(line, marks[k].heading);
        let rest1 = blocks_from(lines, marks, k + 1, in_code, tables);
        lemma_headings_then(seq![Block::TextLine { line: k as usize, heading_level: h }], rest1);
        lemma_headings_then(seq![Block::CodeFence { line: k as usize }], blocks_from(lines, marks, k + 1, !in_code, tables));
        lemma_headings_then(seq![Block::CodeLine { line: k as usize }], rest1);
        lemma_headings_then(seq![Block::MathBlock { line: k as usize, end_line: k as usize }], rest1);
        lemma_headings_then(seq![Block::Image { line: k as usize }], rest1);
        lemma_headings_then(seq![Block::Task { line: k as usize }], rest1);
        assert(headings_at_most_three(seq![Block::TextLine { line: k as usize, heading_level: h }]));
    }
}

/// One parse of a note: every outline entry points at a text line shown as
/// a heading of its level, from 1 to 3, on its source line.
pub proof fn lemma_note_outline(
    lines: Seq<Seq<char>>,
    marks: Seq<LineMarks>,
    frontmatter: Option<bool>,
    content_start: int,
    hidden: bool,
    show_tags: bool,
    bs: Seq<Block>,
)
    requires
        note_blocks(lines, marks, frontmatter, content_start, hidden, show_tags) == Some(bs),
        bs.len() <= usize::MAX,
    ensures
        forall|k: int|
            0 <= k < outline_from(bs, 0).len() ==> {
                let o = #[trigger] outline_from(bs, 0)[k];
                &&& o.line < bs.len()
                &&& 1 <= o.level <= 3
                &&& bs[o.line as int] matches Block::TextLine { line, heading_level } && heading_level == o.level
                    && o.source_line == line as u32
            },
{
    let (head, start) = frontmatter_blocks(lines.len() as int, frontmatter, content_start, hidden, show_tags);
    lemma_headings_at_most_three(lines, marks, start, false, 0);
    assert forall|j: int| 0 <= j < head.len() implies (#[trigger] head[j] matches Block::TextLine {
        heading_level,
        ..
    } ==> heading_level <= 3) by {}
    lemma_headings_then(head, blocks_from(lines, marks, start, false, 0));
    lemma_outline_points_at_headings(bs, 0);
}

/// The link ranges of consecutive items follow each other: the first
/// starts at 0, each starts where the one before ends, and together they
/// cover every link, when no count needs holding back.
pub proof fn lemma_link_ranges_adjacent(counts: Seq<(usize, usize)>)
    requires
        links_before(counts, counts.len() as int) <= u32::MAX,
        forall|i: int| 0 <= i < counts.len() ==> #[trigger] counts[i].0 <= u16::MAX,
    ensures
        counts.len() > 0 ==> link_range_of(counts, 0).start == 0,
        forall|i: int|
            0 <= i < counts.len() - 1 ==> #[trigger] link_range_of(counts, i + 1).start == link_range_of(counts, i).start
                + link_range_of(counts, i).len,
        counts.len() > 0 ==> link_range_of(counts, counts.len() - 1).start + link_range_of(
            counts,
            counts.len() - 1,
        ).len == links_before(counts, counts.len() as int),
{
    assert forall|i: int| 0 <= i <= counts.len() implies 0 <= #[trigger] links_before(counts, i) <= links_before(
        counts,
        counts.len() as int,
    ) by {
        lemma_links_before_mono(counts, i, counts.len() as int);
    }
    assert forall|i: int| 0 <= i < counts.len() - 1 implies #[trigger] link_range_of(counts, i + 1).start
        == link_range_of(counts, i).start + link_range_of(counts, i).len by {
        assert(0 <= links_before(counts, i + 1) <= links_before(counts, counts.len() as int));
        assert(0 <= links_before(counts, i) <= links_before(counts, counts.len() as int));
    }
    if counts.len() > 0 {
        assert(0 <= links_before(counts, counts.len() - 1) <= links_before(counts, counts.len() as int));
    }
}

/// No line of the note is one on which reading fails wherever it stands:
/// task indents fit, no summary closes before it opens, and no table line
/// is a lone `|`.
pub open spec fn lines_readable(lines: Seq<Seq<char>>) -> bool {
    forall|k: int|
        0 <= k < lines.len() ==> {
            &&& indent_fits(#[trigger] lines[k])
            &&& !summary_reversed(trim(lines[k]))
            &&& (is_table_line(lines[k]) ==> trim(lines[k]).len() >= 2)
        }
}

proof fn lemma_table_end_bounds(lines: Seq<Seq<char>>, k: int)
    requires
        0 <= k <= lines.len(),
    ensures
        k <= table_end(lines, k) <= lines.len(),
        forall|m: int| k <= m < table_end(lines, k) ==> is_table_line(#[trigger] lines[m]),
    decreases lines.len() - k,
{
    if k < lines.len() && is_table_line(lines[k]) {
        lemma_table_end_bounds(lines, k + 1);
    }
}

/// Reading lines `k..` of readable lines never fails.
pub proof fn lemma_readable_blocks(lines: Seq<Seq<char>>, marks: Seq<LineMarks>, k: int, in_code: bool, tables: int)
    requires
        lines_readable(lines),
        marks.len() == lines.len(),
    ensures
        blocks_from(lines, marks, k, in_code, tables) is Some,
    decreases lines.len() - k,
{
    if 0 <= k < lines.len() {
        let line = lines[k];
        lemma_readable_blocks(lines, marks, k + 1, !in_code, tables);
        lemma_readable_blocks(lines, marks, k + 1, in_code, tables);
        lemma_table_end_bounds(lines, k);
        let e = table_end(lines, k);
        if k < e {
            lemma_readable_blocks(lines, marks, e, in_code, tables + 1);
        }
        lemma_details_end_bounds(lines, k + 1);
        let d = details_end(lines, k + 1);
        if d < lines.len() {
            lemma_readable_blocks(lines, marks, d + 1, in_code, tables);
        }
        lemma_next_delimiter(marks, k);
        if let Some(j) = next_delimiter(marks, k) {
            lemma_readable_blocks(lines, marks, j + 1, in_code, tables);
        }
        assert(indent_fits(lines[k]));
        assert(!(exists|m: int| k < m < d && summary_reversed(#[trigger] trim(lines[m])))) by {
            if exists|m: int| k < m < d && summary_reversed(#[trigger] trim(lines[m])) {
                let m = choose|m: int| k < m < d && summary_reversed(#[trigger] trim(lines[m]));
                assert(indent_fits(lines[m]));
            }
        }
        assert(!(exists|m: int| k <= m < e && #[trigger] trim(lines[m]).len() < 2)) by {
            if exists|m: int| k <= m < e && #[trigger] trim(lines[m]).len() < 2 {
                let m = choose|m: int| k <= m < e && #[trigger] trim(lines[m]).len() < 2;
                assert(indent_fits(lines[m]));
            }
        }
        if is_table_line(line) {
            assert(k < e) by {
                assert(table_end(lines, k) == table_end(lines, k + 1));
                lemma_table_end_bounds(lines, k + 1);
            }
        }
    }
}

/// A note whose lines are all readable always parses (see
/// [`parse_blocks`]).
pub proof fn lemma_readable_notes_parse(
    lines: Seq<Seq<char>>,
    marks: Seq<LineMarks>,
    frontmatter: Option<bool>,
    content_start: int,
    hidden: bool,
    show_tags: bool,
)
    requires
        lines_readable(lines),
        marks.len() == lines.len(),
    ensures
        note_blocks(lines, marks, frontmatter, content_start, hidden, show_tags) is Some,
{
    let (head, start) = frontmatter_blocks(lines.len() as int, frontmatter, content_start, hidden, show_tags);
    lemma_readable_blocks(lines, marks, start, false, 0);
}

} // verus!
