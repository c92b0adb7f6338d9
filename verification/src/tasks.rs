//! Markdown task parsing.
//!
//! Tasks are Markdown list items with a GFM checkbox, optionally carrying
//! Tasks-plugin-style emoji metadata on the line itself:
//!
//! ```text
//! - [ ] Pay rent +home 📅 2026-06-01 ⏫
//! - [x] Submit report ✅ 2026-05-30
//! ```
use vstd::prelude::*;
use vstd::seq_lib::{to_multiset_insert, to_multiset_remove};

use crate::date::{iso_date_day_number, Date};
use crate::text::{
    unicode_white_space,
    chars_of, find_from, find_from_exec, first_word_from, is_alphanumeric, lemma_find_from,
    lemma_word_ranges, string_of, string_of_range, trim, trim_bounds, unicode_alphanumeric,
    word_ranges, word_ranges_exec, words, push_char, push_range, push_str, trim_white_end,
    is_whitespace, char_utf8_len, char_len_utf8, utf8_len, lemma_utf8_len_push,
    lemma_utf8_len_concat, lemma_utf8_len_prefix, skip_white, byte_cut, utf8_len_range,
    text_order, text_order_exec, lemma_text_order_antisymmetric, lemma_text_order_transitive,
};

verus! {

/// Task priority, written as one emoji token on the task line.
#[derive(Debug, Clone, Copy, PartialEq, Eq, Structural)]
pub enum Priority {
    High,
    Medium,
    Low,
}

/// The emoji that marks a priority.
pub open spec fn priority_token(p: Priority) -> Seq<char> {
    match p {
        Priority::High => seq!['⏫'],
        Priority::Medium => seq!['🔼'],
        Priority::Low => seq!['🔽'],
    }
}

/// The priority a token names, if it is exactly one of the priority emoji.
pub open spec fn priority_of_token(s: Seq<char>) -> Option<Priority> {
    if s =~= seq!['⏫'] {
        Some(Priority::High)
    } else if s =~= seq!['🔼'] {
        Some(Priority::Medium)
    } else if s =~= seq!['🔽'] {
        Some(Priority::Low)
    } else {
        None
    }
}

/// Ordering rank: high first.
pub open spec fn priority_rank(p: Priority) -> u8 {
    match p {
        Priority::High => 0,
        Priority::Medium => 1,
        Priority::Low => 2,
    }
}

impl Priority {
    /// The emoji token of the priority.
    pub fn token(self) -> (s: &'static str)
        ensures
            s@ == priority_token(self),
    {
        proof {
            reveal_strlit("⏫");
            reveal_strlit("🔼");
            reveal_strlit("🔽");
        }
        match self {
            Priority::High => "⏫",
            Priority::Medium => "🔼",
            Priority::Low => "🔽",
        }
    }

    /// Lower-case name of the priority.
    pub fn label(self) -> (s: &'static str)
        ensures
            s@ == (match self {
                Priority::High => "high"@,
                Priority::Medium => "medium"@,
                Priority::Low => "low"@,
            }),
    {
        match self {
            Priority::High => "high",
            Priority::Medium => "medium",
            Priority::Low => "low",
        }
    }

    /// Ordering rank: high first.
    pub fn rank(self) -> (r: u8)
        ensures
            r == priority_rank(self),
    {
        match self {
            Priority::High => 0,
            Priority::Medium => 1,
            Priority::Low => 2,
        }
    }

    /// The priority that `token` names, if any.
    pub fn from_token(token: &str) -> (r: Option<Priority>)
        ensures
            r == priority_of_token(token@),
    {
        let cs = chars_of(token);
        priority_of_chars(cs.as_slice(), 0, cs.len())
    }
}

/// The priority that `cs[a..e]` names, if any.
fn priority_of_chars(cs: &[char], a: usize, e: usize) -> (r: Option<Priority>)
    requires
        a <= e <= cs@.len(),
    ensures
        r == priority_of_token(cs@.subrange(a as int, e as int)),
{
    let ghost t = cs@.subrange(a as int, e as int);
    if e - a != 1 {
        assert(!(t =~= seq!['⏫']) && !(t =~= seq!['🔼']) && !(t =~= seq!['🔽'])) by {
            assert(t.len() != 1);
        }
        return None;
    }
    let c = cs[a];
    assert(t =~= seq![c]);
    assert(seq![c][0] == c && seq!['⏫'][0] == '⏫' && seq!['🔼'][0] == '🔼' && seq!['🔽'][0] == '🔽');
    if c == '⏫' {
        Some(Priority::High)
    } else if c == '🔼' {
        Some(Priority::Medium)
    } else if c == '🔽' {
        Some(Priority::Low)
    } else {
        None
    }
}

/// How a task's due date relates to today.
#[derive(Debug, Clone, Copy, PartialEq, Eq, Structural)]
pub enum DueState {
    Undated,
    Overdue,
    Today,
    Upcoming,
}

/// The day number of an optional date.
pub open spec fn day_of(d: Option<Date>) -> Option<int> {
    match d {
        Some(x) => Some(x.day_number()),
        None => None,
    }
}

/// Identity of a note in the vault.
#[derive(Debug, Clone, Copy, PartialEq, Eq, Structural)]
pub struct NoteId(pub u32);

impl NoteId {
    /// A note id with the given number.
    pub fn new(value: u32) -> (id: NoteId)
        ensures
            id.0 == value,
    {
        NoteId(value)
    }
}

/// One aggregated task from a Markdown note. `text` is the task body with the
/// emoji metadata tokens removed, suitable for display and search.
#[derive(Debug, Clone)]
pub struct Task {
    pub note_id: NoteId,
    pub path: String,
    pub note_title: String,
    pub source_line: usize,
    pub indent: u16,
    pub text: String,
    pub checked: bool,
    pub due: Option<Date>,
    pub start: Option<Date>,
    pub done: Option<Date>,
    pub priority: Option<Priority>,
}

/// Classification of a due date against `today`.
pub open spec fn due_state_of(checked: bool, due: Option<int>, today: int) -> DueState {
    match due {
        None => DueState::Undated,
        Some(d) => if checked {
            DueState::Upcoming
        } else if d < today {
            DueState::Overdue
        } else if d == today {
            DueState::Today
        } else {
            DueState::Upcoming
        },
    }
}

impl Task {
    /// Classify the due date against `today`. Completed tasks are never
    /// overdue or due today, so they render calmly in the done list.
    pub fn due_state(&self, today: Date) -> (s: DueState)
        ensures
            s == due_state_of(self.checked, day_of(self.due), today.day_number()),
    {
        match self.due {
            None => DueState::Undated,
            Some(due) => {
                if self.checked {
                    DueState::Upcoming
                } else if due.number() < today.number() {
                    DueState::Overdue
                } else if due.number() == today.number() {
                    DueState::Today
                } else {
                    DueState::Upcoming
                }
            },
        }
    }
}

/// Space or tab: the indentation characters of a task line.
pub open spec fn is_blank(c: char) -> bool {
    c == ' ' || c == '\t'
}

/// Index of the first character at or after `i` that is not a blank.
pub open spec fn skip_blanks(s: Seq<char>, i: int) -> int
    decreases s.len() - i,
{
    if i < 0 || i >= s.len() || !is_blank(s[i]) {
        i
    } else {
        skip_blanks(s, i + 1)
    }
}

/// Indentation width of the first `n` characters: a tab counts four.
pub open spec fn indent_width(s: Seq<char>, n: int) -> int
    decreases n,
{
    if n <= 0 {
        0
    } else {
        indent_width(s, n - 1) + if s[n - 1] == '\t' {
            4int
        } else {
            1int
        }
    }
}

/// `t` opens with `MARKER [S] ` where MARKER is `-`, `*` or `+` and S is a
/// space, `x` or `X`.
pub open spec fn is_task_prefix(t: Seq<char>) -> bool {
    &&& t.len() >= 6
    &&& (t[0] == '-' || t[0] == '*' || t[0] == '+')
    &&& t[1] == ' '
    &&& t[2] == '['
    &&& (t[3] == ' ' || t[3] == 'x' || t[3] == 'X')
    &&& t[4] == ']'
    &&& t[5] == ' '
}

/// Number of leading blanks of a line.
pub open spec fn leading_blanks(line: Seq<char>) -> int {
    skip_blanks(line, 0)
}

/// The line is a checkbox task.
pub open spec fn is_task_line(line: Seq<char>) -> bool {
    is_task_prefix(line.skip(leading_blanks(line)))
}

/// The task text after the `MARKER [S] ` prefix.
pub open spec fn task_body(line: Seq<char>) -> Seq<char> {
    line.skip(leading_blanks(line) + 6)
}

/// Indentation width of a line.
pub open spec fn task_indent(line: Seq<char>) -> int {
    indent_width(line, leading_blanks(line))
}

/// The checkbox of a task line is ticked.
pub open spec fn task_checked(line: Seq<char>) -> bool {
    line[leading_blanks(line) + 3] != ' '
}

/// The indentation width of a task line fits the `u16` it is stored in.
pub open spec fn indent_fits(line: Seq<char>) -> bool {
    is_task_line(line) ==> task_indent(line) <= u16::MAX
}

/// The date that follows the first occurrence at or after `from` of `emoji`
/// whose next word is a valid `YYYY-MM-DD` date. The search stops when an
/// occurrence is followed by no word at all.
pub open spec fn extract_day(b: Seq<char>, emoji: char, from: int) -> Option<int>
    decreases b.len() - from,
{
    if from < 0 || from > b.len() {
        None
    } else {
        match find_from(b, seq![emoji], from) {
            None => None,
            Some(p) => {
                proof {
                    lemma_find_from(b, seq![emoji], from);
                }
                let start = p + 1;
                match first_word_from(b, start) {
                    None => None,
                    Some(w) => match iso_date_day_number(w) {
                        Some(n) => Some(n as int),
                        None => extract_day(b, emoji, start),
                    },
                }
            },
        }
    }
}

/// Characters that the priority search strips from the ends of a word.
pub open spec fn priority_trim_char(c: char) -> bool {
    !unicode_alphanumeric(c) && !(c == '⏫' || c == '🔼' || c == '🔽')
}

/// First index in `a..e` not stripped by the priority search.
pub open spec fn priority_trim_start(s: Seq<char>, a: int, e: int) -> int
    decreases e - a,
{
    if a < e && priority_trim_char(s[a]) {
        priority_trim_start(s, a + 1, e)
    } else {
        a
    }
}

/// End of `a..e` after stripping trailing characters for the priority search.
pub open spec fn priority_trim_end(s: Seq<char>, a: int, e: int) -> int
    decreases e - a,
{
    if a < e && priority_trim_char(s[e - 1]) {
        priority_trim_end(s, a, e - 1)
    } else {
        e
    }
}

/// The word `s[r.0..r.1]` with punctuation stripped from both ends.
pub open spec fn priority_word(s: Seq<char>, r: (int, int)) -> Seq<char> {
    let a = priority_trim_start(s, r.0, r.1);
    s.subrange(a, priority_trim_end(s, a, r.1))
}

/// The first word from the `k`-th range on that names a priority.
pub open spec fn find_priority_from(s: Seq<char>, rs: Seq<(int, int)>, k: int) -> Option<Priority>
    decreases rs.len() - k,
{
    if k < 0 || k >= rs.len() {
        None
    } else {
        match priority_of_token(priority_word(s, rs[k])) {
            Some(p) => Some(p),
            None => find_priority_from(s, rs, k + 1),
        }
    }
}

/// Priority of a task body: the whole trimmed body, or else its first word
/// that names a priority once punctuation is stripped.
pub open spec fn body_priority(body: Seq<char>) -> Option<Priority> {
    match priority_of_token(trim(body)) {
        Some(p) => Some(p),
        None => find_priority_from(body, word_ranges(body, 0), 0),
    }
}

/// A parsed task line. `body_offset` is the byte offset within the original
/// line where the task text begins (after the `MARKER [x] ` prefix).
#[derive(Debug, Clone)]
pub struct ParsedTaskLine {
    pub body: String,
    pub body_offset: usize,
    pub indent: u16,
    pub checked: bool,
    pub due: Option<Date>,
    pub start: Option<Date>,
    pub done: Option<Date>,
    pub priority: Option<Priority>,
}

/// What `parse_task_line` returns for a task line, field by field.
pub open spec fn parsed_matches(p: ParsedTaskLine, line: Seq<char>) -> bool {
    let body = task_body(line);
    &&& p.body@ == body
    &&& p.body_offset == leading_blanks(line) + 6
    &&& p.indent == task_indent(line)
    &&& p.checked == task_checked(line)
    &&& day_of(p.due) == extract_day(body, '📅', 0)
    &&& day_of(p.start) == extract_day(body, '🛫', 0)
    &&& day_of(p.done) == extract_day(body, '✅', 0)
    &&& p.priority == body_priority(body)
}

/// The date after `emoji` in `b`, as [`extract_day`] describes it.
fn extract_date(b: &[char], emoji: char) -> (r: Option<Date>)
    ensures
        day_of(r) == extract_day(b@, emoji, 0),
{
    let pat = [emoji];
    assert(pat@ =~= seq![emoji]);
    let mut search: usize = 0;
    loop
        invariant
            search <= b@.len(),
            pat@ =~= seq![emoji],
            extract_day(b@, emoji, 0) == extract_day(b@, emoji, search as int),
        decreases b@.len() - search,
    {
        let found = find_from_exec(b, &pat, search);
        proof {
            lemma_find_from(b@, seq![emoji], search as int);
        }
        match found {
            None => {
                return None;
            },
            Some(p) => {
                assert(p < b.len());
                let start = p + 1;
                let ranges = word_ranges_exec(b, start);
                if ranges.len() == 0 {
                    return None;
                }
                let (a, e) = ranges[0];
                proof {
                    lemma_word_ranges(b@, start as int);
                }
                let word = string_of_range(b, a, e);
                match Date::parse(word.as_str()) {
                    Some(d) => {
                        return Some(d);
                    },
                    None => {},
                }
                search = start;
            },
        }
    }
}

/// Priority of a task body, as [`body_priority`] describes it.
fn find_body_priority(b: &[char]) -> (r: Option<Priority>)
    ensures
        r == body_priority(b@),
{
    let (ta, te) = trim_bounds(b);
    let whole = priority_of_chars(b, ta, te);
    if whole.is_some() {
        return whole;
    }
    assert(priority_of_token(trim(b@)) is None);
    let ranges = word_ranges_exec(b, 0);
    proof {
        lemma_word_ranges(b@, 0);
    }
    let ghost rs = word_ranges(b@, 0);
    let mut k: usize = 0;
    while k < ranges.len()
        invariant
            k <= ranges@.len() == rs.len(),
            rs == word_ranges(b@, 0),
            forall|m: int|
                0 <= m < ranges@.len() ==> (#[trigger] ranges@[m]).0 as int == rs[m].0 && ranges@[m].1 as int
                    == rs[m].1,
            forall|m: int| 0 <= m < rs.len() ==> 0 <= (#[trigger] rs[m]).0 < rs[m].1 <= b@.len(),
            find_priority_from(b@, rs, 0) == find_priority_from(b@, rs, k as int),
            priority_of_token(trim(b@)) is None,
        decreases ranges@.len() - k,
    {
        let (a, e) = ranges[k];
        assert(rs[k as int] == (a as int, e as int));
        let mut s = a;
        while s < e && !is_alphanumeric(b[s]) && !(b[s] == '⏫' || b[s] == '🔼' || b[s] == '🔽')
            invariant
                a <= s <= e <= b@.len(),
                priority_trim_start(b@, a as int, e as int) == priority_trim_start(b@, s as int, e as int),
            decreases e - s,
        {
            s += 1;
        }
        let mut t = e;
        while s < t && !is_alphanumeric(b[t - 1]) && !(b[t - 1] == '⏫' || b[t - 1] == '🔼' || b[t - 1]
            == '🔽')
            invariant
                s <= t <= e <= b@.len(),
                priority_trim_end(b@, s as int, e as int) == priority_trim_end(b@, s as int, t as int),
            decreases t - s,
        {
            t -= 1;
        }
        assert(priority_trim_start(b@, s as int, e as int) == s);
        assert(priority_trim_end(b@, s as int, t as int) == t);
        assert(priority_word(b@, rs[k as int]) =~= b@.subrange(s as int, t as int));
        let found = priority_of_chars(b, s, t);
        assert(found is Some ==> find_priority_from(b@, rs, k as int) == found);
        assert(found is None ==> find_priority_from(b@, rs, k as int) == find_priority_from(b@, rs, k + 1));
        if found.is_some() {
            return found;
        }
        k += 1;
    }
    None
}

/// Parse a Markdown line as a checkbox task. Accepts `-`, `*`, and `+`
/// markers with ` `, `x`, or `X` checkbox states, matching the editor's
/// list-continuation rules.
pub fn parse_task_line(line: &str) -> (r: Option<ParsedTaskLine>)
    requires
        indent_fits(line@),
    ensures
        r is Some <==> is_task_line(line@),
        r matches Some(p) ==> parsed_matches(p, line@),
{
    let cs = chars_of(line);
    parse_task_chars(cs.as_slice())
}

/// [`parse_task_line`] on the characters of a line.
fn parse_task_chars(cs: &[char]) -> (r: Option<ParsedTaskLine>)
    requires
        indent_fits(cs@),
    ensures
        r is Some <==> is_task_line(cs@),
        r matches Some(p) ==> parsed_matches(p, cs@),
{
    let n = cs.len();
    let mut lead: usize = 0;
    while lead < n && (cs[lead] == ' ' || cs[lead] == '\t')
        invariant
            lead <= n == cs@.len(),
            skip_blanks(cs@, 0) == skip_blanks(cs@, lead as int),
        decreases n - lead,
    {
        lead += 1;
    }
    let ghost t = cs@.skip(lead as int);
    if n - lead < 6 {
        return None;
    }
    let m = cs[lead];
    let st = cs[lead + 3];
    if !(m == '-' || m == '*' || m == '+') || cs[lead + 1] != ' ' || cs[lead + 2] != '[' || !(st == ' '
        || st == 'x' || st == 'X') || cs[lead + 4] != ']' || cs[lead + 5] != ' ' {
        return None;
    }
    assert(is_task_prefix(t));
    let mut width: u32 = 0;
    let mut i: usize = 0;
    while i < lead
        invariant
            i <= lead <= n == cs@.len(),
            lead as int == skip_blanks(cs@, 0),
            indent_fits(cs@),
            is_task_line(cs@),
            width as int == indent_width(cs@, i as int),
            indent_width(cs@, lead as int) <= u16::MAX,
        decreases lead - i,
    {
        proof {
            lemma_indent_width_mono(cs@, i + 1, lead as int);
        }
        width = width + if cs[i] == '\t' {
            4
        } else {
            1
        };
        i += 1;
    }
    let body_start = lead + 6;
    let body_chars = slice_from(cs, body_start);
    let body = string_of(body_chars.as_slice());
    let due = extract_date(body_chars.as_slice(), '📅');
    let start = extract_date(body_chars.as_slice(), '🛫');
    let done = extract_date(body_chars.as_slice(), '✅');
    let priority = find_body_priority(body_chars.as_slice());
    Some(
        ParsedTaskLine {
            body,
            body_offset: body_start,
            indent: width as u16,
            checked: st != ' ',
            due,
            start,
            done,
            priority,
        },
    )
}

/// Indentation width grows with the prefix it measures.
proof fn lemma_indent_width_mono(s: Seq<char>, k: int, n: int)
    requires
        0 <= k <= n,
    ensures
        indent_width(s, k) <= indent_width(s, n),
    decreases n - k,
{
    if k < n {
        lemma_indent_width_mono(s, k, n - 1);
    }
}

/// `cs[from..]` as a vector.
fn slice_from(cs: &[char], from: usize) -> (out: Vec<char>)
    requires
        from <= cs@.len(),
    ensures
        out@ == cs@.skip(from as int),
{
    let mut out: Vec<char> = Vec::new();
    let mut i = from;
    while i < cs.len()
        invariant
            from <= i <= cs@.len(),
            out@ == cs@.subrange(from as int, i as int),
        decreases cs@.len() - i,
    {
        out.push(cs[i]);
        i += 1;
    }
    out
}

/// One of the emoji that introduce a date (`📅` due, `🛫` start, `✅` done).
pub open spec fn is_date_token(w: Seq<char>) -> bool {
    w =~= seq!['📅'] || w =~= seq!['🛫'] || w =~= seq!['✅']
}

/// The words that survive metadata stripping: priority markers go, and so do
/// date emoji together with the date word right after them, if it is one.
pub open spec fn kept_words(ws: Seq<Seq<char>>) -> Seq<Seq<char>>
    decreases ws.len(),
{
    if ws.len() == 0 {
        Seq::empty()
    } else if priority_of_token(ws[0]) is Some {
        kept_words(ws.drop_first())
    } else if is_date_token(ws[0]) {
        if ws.len() > 1 && iso_date_day_number(ws[1]) is Some {
            kept_words(ws.skip(2))
        } else {
            kept_words(ws.drop_first())
        }
    } else {
        seq![ws[0]] + kept_words(ws.drop_first())
    }
}

/// The words joined with single spaces.
pub open spec fn join_words(ws: Seq<Seq<char>>) -> Seq<char>
    decreases ws.len(),
{
    if ws.len() == 0 {
        Seq::empty()
    } else if ws.len() == 1 {
        ws[0]
    } else {
        join_words(ws.drop_last()) + seq![' '] + ws.last()
    }
}

/// No metadata survives stripping: none of the kept words is a priority
/// marker or a date emoji.
pub proof fn lemma_kept_words_have_no_metadata(ws: Seq<Seq<char>>)
    ensures
        forall|i: int|
            0 <= i < kept_words(ws).len() ==> priority_of_token(#[trigger] kept_words(ws)[i]) is None
                && !is_date_token(kept_words(ws)[i]),
    decreases ws.len(),
{
    if ws.len() > 0 {
        lemma_kept_words_have_no_metadata(ws.drop_first());
        if ws.len() > 1 {
            lemma_kept_words_have_no_metadata(ws.skip(2));
        }
        if priority_of_token(ws[0]) is None && !is_date_token(ws[0]) {
            let k = kept_words(ws);
            let rest = kept_words(ws.drop_first());
            assert(k == seq![ws[0]] + rest);
            assert forall|i: int| 0 <= i < k.len() implies priority_of_token(#[trigger] k[i]) is None
                && !is_date_token(k[i]) by {
                if i > 0 {
                    assert(k[i] == rest[i - 1]);
                }
            }
        }
    }
}

/// The display text of a task body.
pub open spec fn stripped(body: Seq<char>) -> Seq<char> {
    join_words(kept_words(words(body)))
}

/// Whether `cs[a..e]` is one of the date emoji.
fn is_date_token_chars(cs: &[char], a: usize, e: usize) -> (b: bool)
    requires
        a <= e <= cs@.len(),
    ensures
        b == is_date_token(cs@.subrange(a as int, e as int)),
{
    let ghost t = cs@.subrange(a as int, e as int);
    if e - a != 1 {
        assert(t.len() != 1);
        assert(!(t =~= seq!['📅']) && !(t =~= seq!['🛫']) && !(t =~= seq!['✅']));
        return false;
    }
    let c = cs[a];
    assert(t =~= seq![c]);
    assert(seq![c][0] == c && seq!['📅'][0] == '📅' && seq!['🛫'][0] == '🛫' && seq!['✅'][0] == '✅');
    c == '📅' || c == '🛫' || c == '✅'
}

/// Task body with the metadata tokens (`📅`, `🛫`, `✅` dates and priority
/// markers) removed and whitespace collapsed. The result is what the task
/// view shows and searches; the source line keeps the tokens.
pub fn strip_metadata(body: &str) -> (out: String)
    ensures
        out@ == stripped(body@),
{
    let cs = chars_of(body);
    strip_chars(cs.as_slice())
}

/// [`strip_metadata`] on characters.
fn strip_chars(cs: &[char]) -> (out: String)
    ensures
        out@ == stripped(cs@),
{
    let rs = word_ranges_exec(cs, 0);
    proof {
        lemma_word_ranges(cs@, 0);
    }
    let ghost ranges = word_ranges(cs@, 0);
    let ghost ws = words(cs@);
    assert(ws.len() == ranges.len());
    let mut out = String::new();
    let ghost mut parts: Seq<Seq<char>> = Seq::empty();
    let mut k: usize = 0;
    let mut any = false;
    assert(ws.skip(0) =~= ws);
    while k < rs.len()
        invariant
            k <= rs@.len() == ranges.len() == ws.len(),
            ws == words(cs@),
            ranges == word_ranges(cs@, 0),
            forall|m: int|
                0 <= m < rs@.len() ==> (#[trigger] rs@[m]).0 as int == ranges[m].0 && rs@[m].1 as int
                    == ranges[m].1,
            forall|m: int| 0 <= m < ranges.len() ==> 0 <= (#[trigger] ranges[m]).0 < ranges[m].1 <= cs@.len(),
            forall|m: int| 0 <= m < ws.len() ==> #[trigger] ws[m] == cs@.subrange(ranges[m].0, ranges[m].1),
            parts + kept_words(ws.skip(k as int)) == kept_words(ws),
            out@ == join_words(parts),
            any == (parts.len() > 0),
        decreases rs@.len() - k,
    {
        let (a, e) = rs[k];
        let ghost rest = ws.skip(k as int);
        assert(rest[0] == ws[k as int]);
        assert(rest.drop_first() =~= ws.skip(k + 1));
        assert(ws[k as int] == cs@.subrange(a as int, e as int));
        if priority_of_chars(cs, a, e).is_some() {
            k += 1;
        } else if is_date_token_chars(cs, a, e) {
            let mut skip_next = false;
            if k + 1 < rs.len() {
                let (a2, e2) = rs[k + 1];
                assert(rest[1] == ws[k + 1]);
                assert(rest.skip(2) =~= ws.skip(k + 2));
                let w = string_of_range(cs, a2, e2);
                skip_next = Date::parse(w.as_str()).is_some();
            }
            if skip_next {
                k += 2;
            } else {
                k += 1;
            }
        } else {
            let ghost w = ws[k as int];
            proof {
                assert(parts.push(w).drop_last() =~= parts);
                assert(parts + kept_words(rest) =~= parts.push(w) + kept_words(ws.skip(k + 1)));
            }
            if any {
                push_char(&mut out, ' ');
            }
            push_range(&mut out, cs, a, e);
            proof {
                parts = parts.push(w);
            }
            any = true;
            k += 1;
        }
    }
    assert(ws.skip(k as int) =~= Seq::<Seq<char>>::empty());
    assert(parts + Seq::<Seq<char>>::empty() =~= parts);
    out
}

/// Index of the first character at or after `i` that is not a space.
pub open spec fn skip_spaces(s: Seq<char>, i: int) -> int
    decreases s.len() - i,
{
    if i < 0 || i >= s.len() || s[i] != ' ' {
        i
    } else {
        skip_spaces(s, i + 1)
    }
}

/// Character range of an existing `✅ YYYY-MM-DD` token plus the separating
/// whitespace before it and one space after it, so its removal leaves clean
/// spacing. Only the emoji is covered when no valid date follows it.
pub open spec fn done_range(s: Seq<char>) -> Option<(int, int)> {
    match find_from(s, seq!['✅'], 0) {
        None => None,
        Some(e) => {
            let c = skip_spaces(s, e + 1);
            let end = match byte_cut(s, c, 10) {
                Some(Some(k)) => if iso_date_day_number(s.subrange(c, k)) is Some {
                    if k < s.len() && s[k] == ' ' {
                        k + 1
                    } else {
                        k
                    }
                } else {
                    e + 1
                },
                _ => e + 1,
            };
            Some((trim_white_end(s, e), end))
        },
    }
}

/// The ten bytes after a `✅` and its spaces do not end inside a character
/// (slicing there would panic).
pub open spec fn done_range_safe(s: Seq<char>) -> bool {
    match find_from(s, seq!['✅'], 0) {
        None => true,
        Some(e) => byte_cut(s, skip_spaces(s, e + 1), 10) is Some,
    }
}

/// [`done_range`] on characters.
fn done_range_chars(cs: &[char]) -> (r: Option<(usize, usize)>)
    requires
        done_range_safe(cs@),
    ensures
        match done_range(cs@) {
            None => r is None,
            Some(p) => r matches Some(q) && q.0 as int == p.0 && q.1 as int == p.1,
        },
        r matches Some(q) ==> q.0 <= q.1 <= cs@.len(),
{
    let pat = ['✅'];
    assert(pat@ =~= seq!['✅']);
    let found = find_from_exec(cs, &pat, 0);
    proof {
        lemma_find_from(cs@, seq!['✅'], 0);
    }
    let e = match found {
        None => {
            return None;
        },
        Some(e) => e,
    };
    let n = cs.len();
    let mut c = e + 1;
    while c < n && cs[c] == ' '
        invariant
            e < c <= n == cs@.len(),
            skip_spaces(cs@, e + 1) == skip_spaces(cs@, c as int),
        decreases n - c,
    {
        c += 1;
    }
    let mut k = c;
    let mut left: usize = 10;
    while left > 0 && k < n
        invariant
            c <= k <= n == cs@.len(),
            left <= 10,
            byte_cut(cs@, c as int, 10) == byte_cut(cs@, k as int, left as int),
            byte_cut(cs@, c as int, 10) is Some,
        decreases n - k,
    {
        let w = char_len_utf8(cs[k]);
        if w > left {
            return None;
        }
        left -= w;
        k += 1;
    }
    let mut end = e + 1;
    if left == 0 {
        let word = string_of_range(cs, c, k);
        if Date::parse(word.as_str()).is_some() {
            end = if k < n && cs[k] == ' ' {
                k + 1
            } else {
                k
            };
        }
    }
    let mut b = e;
    while b > 0 && is_whitespace(cs[b - 1])
        invariant
            b <= e < n == cs@.len(),
            trim_white_end(cs@, e as int) == trim_white_end(cs@, b as int),
        decreases b,
    {
        b -= 1;
    }
    Some((b, end))
}

/// The line with its checkbox state character set.
pub open spec fn with_state(line: Seq<char>, checked: bool) -> Seq<char> {
    line.update(
        leading_blanks(line) + 3,
        if checked {
            'x'
        } else {
            ' '
        },
    )
}

/// The text that marks completion on `day`: ` ✅ YYYY-MM-DD`.
pub open spec fn done_stamp(day: Date) -> Seq<char> {
    seq![' ', '✅', ' '] + day.text()
}

/// The rewritten line: state flipped, then a completion stamp put in place of
/// (or after) the old one when checking, or the old one cut out when
/// unchecking.
pub open spec fn checked_line(line: Seq<char>, checked: bool, day: Date) -> Seq<char> {
    let u = with_state(line, checked);
    match done_range(u) {
        Some(r) => if checked {
            u.take(r.0) + done_stamp(day) + u.skip(r.1)
        } else {
            u.take(r.0) + u.skip(r.1)
        },
        None => if checked {
            u.take(trim_white_end(u, u.len() as int)) + done_stamp(day)
        } else {
            u
        },
    }
}

proof fn lemma_skip_blanks_same(s: Seq<char>, t: Seq<char>, l: int, i: int)
    requires
        0 <= i <= l < s.len(),
        l < t.len(),
        skip_blanks(s, 0) == l,
        forall|k: int| 0 <= k <= l ==> s[k] == t[k],
        forall|k: int| 0 <= k < l ==> is_blank(#[trigger] s[k]),
        !is_blank(s[l]),
    ensures
        skip_blanks(t, i) == l,
    decreases l - i,
{
    if i < l {
        assert(is_blank(s[i]));
        lemma_skip_blanks_same(s, t, l, i + 1);
    }
}

proof fn lemma_skip_blanks_facts(s: Seq<char>, i: int)
    requires
        0 <= i <= s.len(),
    ensures
        i <= skip_blanks(s, i) <= s.len(),
        forall|k: int| i <= k < skip_blanks(s, i) ==> is_blank(#[trigger] s[k]),
        skip_blanks(s, i) < s.len() ==> !is_blank(s[skip_blanks(s, i)]),
    decreases s.len() - i,
{
    if i < s.len() && is_blank(s[i]) {
        lemma_skip_blanks_facts(s, i + 1);
    }
}

/// Trimming whitespace back from `e` stops after a character that is not
/// whitespace.
proof fn lemma_trim_white_end_stops(s: Seq<char>, e: int, j: int)
    requires
        0 <= j < e <= s.len(),
        !unicode_white_space(s[j]),
    ensures
        j < trim_white_end(s, e) <= e,
    decreases e,
{
    if e > j + 1 && unicode_white_space(s[e - 1]) {
        lemma_trim_white_end_stops(s, e - 1, j);
    }
}

/// A line that keeps the first `l + 6` characters of a task line `line`
/// (up to its state character) is a task line with the same leading blanks.
proof fn lemma_same_prefix_task(line: Seq<char>, r: Seq<char>)
    requires
        is_task_line(line),
        r.len() >= leading_blanks(line) + 6,
        forall|k: int| 0 <= k < leading_blanks(line) + 6 && k != leading_blanks(line) + 3 ==> r[k] == line[k],
        r[leading_blanks(line) + 3] == ' ' || r[leading_blanks(line) + 3] == 'x',
    ensures
        is_task_line(r),
        leading_blanks(r) == leading_blanks(line),
{
    let l = leading_blanks(line);
    lemma_skip_blanks_facts(line, 0);
    assert(line.skip(l)[0] == line[l]);
    lemma_skip_blanks_same(line, r, l, 0);
    assert forall|k: int| 0 <= k < 6 implies r.skip(l)[k] == (if k == 3 { r[l + 3] } else { line.skip(l)[k] }) by {
        assert(r.skip(l)[k] == r[l + k]);
        assert(line.skip(l)[k] == line[l + k]);
    }
}

/// Completing a task keeps it a task line, ticked, with the same leading
/// blanks, and puts today's completion stamp in it.
pub proof fn lemma_checking_ticks_task(line: Seq<char>, day: Date)
    requires
        is_task_line(line),
    ensures
        is_task_line(checked_line(line, true, day)),
        task_checked(checked_line(line, true, day)),
        leading_blanks(checked_line(line, true, day)) == leading_blanks(line),
        exists|i: int|
            0 <= i && i + done_stamp(day).len() <= checked_line(line, true, day).len()
                && #[trigger] checked_line(line, true, day).subrange(i, i + done_stamp(day).len())
                == done_stamp(day),
{
    let l = leading_blanks(line);
    let u = with_state(line, true);
    let r = checked_line(line, true, day);
    let st = done_stamp(day);
    lemma_skip_blanks_facts(line, 0);
    assert(line.skip(l)[4] == line[l + 4]);
    assert(line.skip(l)[5] == line[l + 5]);
    assert(u[l + 4] == ']');
    assert(st[0] == ' ');
    match done_range(u) {
        Some(rg) => {
            let e = find_from(u, seq!['✅'], 0)->0;
            lemma_find_from(u, seq!['✅'], 0);
            assert(u.subrange(e, e + 1)[0] == u[e]);
            assert forall|k: int| 0 <= k < l + 6 implies u[k] != '✅' by {
                if k >= l {
                    assert(line.skip(l)[k - l] == line[k]);
                }
            }
            assert(e >= l + 6) by {
                if e < l + 6 {
                    assert(u[e] == '✅');
                }
            }
            lemma_trim_white_end_stops(u, e, l + 4);
            assert(rg.0 >= l + 5);
            assert(r == u.take(rg.0) + st + u.skip(rg.1));
            assert(r.subrange(rg.0, rg.0 + st.len()) =~= st);
            assert forall|k: int| 0 <= k < l + 6 && k != l + 3 implies r[k] == line[k] by {
                if k < rg.0 {
                    assert(r[k] == u[k]);
                } else {
                    assert(k == l + 5 && rg.0 == l + 5);
                    assert(r[k] == st[0]);
                    assert(line[k] == ' ');
                }
            }
            assert(r[l + 3] == u[l + 3]);
            lemma_same_prefix_task(line, r);
        },
        None => {
            let t = trim_white_end(u, u.len() as int);
            lemma_trim_white_end_stops(u, u.len() as int, l + 4);
            assert(r == u.take(t) + st);
            assert(r.subrange(t, t + st.len()) =~= st);
            assert forall|k: int| 0 <= k < l + 6 && k != l + 3 implies r[k] == line[k] by {
                if k < t {
                    assert(r[k] == u[k]);
                } else {
                    assert(k == l + 5 && t == l + 5);
                    assert(r[k] == st[0]);
                    assert(line[k] == ' ');
                }
            }
            assert(r[l + 3] == u[l + 3]);
            lemma_same_prefix_task(line, r);
        },
    }
}

/// Some text stands before the first `✅` of a task line, if it has one.
pub open spec fn text_before_done(line: Seq<char>) -> bool {
    match find_from(line, seq!['✅'], 0) {
        None => true,
        Some(e) => trim_white_end(line, e) > leading_blanks(line) + 5,
    }
}

/// Reopening a task keeps it a task line, unticked, with the same leading
/// blanks, provided some text stands before its completion mark (reopening
/// `- [x] ✅ 2026-01-01` leaves `- [ ]`, which is no task).
pub proof fn lemma_unchecking_unticks_task(line: Seq<char>, day: Date)
    requires
        is_task_line(line),
        text_before_done(with_state(line, false)),
    ensures
        is_task_line(checked_line(line, false, day)),
        !task_checked(checked_line(line, false, day)),
        leading_blanks(checked_line(line, false, day)) == leading_blanks(line),
{
    let l = leading_blanks(line);
    let u = with_state(line, false);
    let r = checked_line(line, false, day);
    lemma_skip_blanks_facts(line, 0);
    assert(line.skip(l)[4] == line[l + 4]);
    assert(line.skip(l)[5] == line[l + 5]);
    assert(u[l + 4] == ']');
    assert forall|k: int| 0 <= k < l + 6 && k != l + 3 implies u[k] == line[k] by {}
    lemma_skip_blanks_same(line, u, l, 0);
    match done_range(u) {
        Some(rg) => {
            let e = find_from(u, seq!['✅'], 0)->0;
            lemma_find_from(u, seq!['✅'], 0);
            assert(u.subrange(e, e + 1)[0] == u[e]);
            lemma_trim_white_end_stops(u, e, l + 4);
            assert(rg.0 > l + 5);
            assert(r == u.take(rg.0) + u.skip(rg.1));
            assert forall|k: int| 0 <= k < l + 6 && k != l + 3 implies r[k] == line[k] by {
                assert(r[k] == u[k]);
            }
            assert(r[l + 3] == u[l + 3]);
            lemma_same_prefix_task(line, r);
        },
        None => {
            assert(r == u);
            lemma_same_prefix_task(line, r);
        },
    }
}

/// Rewrite a task line with the checkbox flipped. Completing stamps a `✅`
/// completion date; reopening removes it. Returns `None` when the line is not
/// a task. The stamped date reads back as `today`.
pub fn set_checked(line: &str, checked: bool, today: Date) -> (r: Option<String>)
    requires
        indent_fits(line@),
        is_task_line(line@) ==> done_range_safe(with_state(line@, checked)),
    ensures
        r is Some <==> is_task_line(line@),
        r matches Some(t) ==> t@ == checked_line(line@, checked, today),
        r is Some && checked ==> (iso_date_day_number(today.text()) matches Some(n) && n as int
            == today.day_number()),
{
    proof {
        use_type_invariant(&today);
        today.lemma_text_reads_back();
    }
    let cs = chars_of(line);
    if parse_task_chars(cs.as_slice()).is_none() {
        return None;
    }
    let n = cs.len();
    let mut lead: usize = 0;
    while lead < n && (cs[lead] == ' ' || cs[lead] == '\t')
        invariant
            lead <= n == cs@.len(),
            skip_blanks(cs@, 0) == skip_blanks(cs@, lead as int),
        decreases n - lead,
    {
        lead += 1;
    }
    let mut u = cs;
    u.set(
        lead + 3,
        if checked {
            'x'
        } else {
            ' '
        },
    );
    assert(u@ == with_state(line@, checked));
    let range = done_range_chars(u.as_slice());
    let mut out = String::new();
    match range {
        Some((a, b)) => {
            push_range(&mut out, u.as_slice(), 0, a);
            if checked {
                push_stamp(&mut out, today);
            }
            push_range(&mut out, u.as_slice(), b, n);
            assert(u@.subrange(0, a as int) =~= u@.take(a as int));
            assert(u@.subrange(b as int, n as int) =~= u@.skip(b as int));
        },
        None => {
            if checked {
                let mut t = n;
                while t > 0 && is_whitespace(u[t - 1])
                    invariant
                        t <= n == u@.len(),
                        trim_white_end(u@, n as int) == trim_white_end(u@, t as int),
                    decreases t,
                {
                    t -= 1;
                }
                push_range(&mut out, u.as_slice(), 0, t);
                push_stamp(&mut out, today);
                assert(u@.subrange(0, t as int) =~= u@.take(t as int));
            } else {
                push_range(&mut out, u.as_slice(), 0, n);
                assert(u@.subrange(0, n as int) =~= u@);
            }
        },
    }
    Some(out)
}

/// Appends ` ✅ ` and the date.
fn push_stamp(out: &mut String, day: Date)
    ensures
        final(out)@ == old(out)@ + done_stamp(day),
{
    proof {
        reveal_strlit(" ✅ ");
    }
    push_str(out, " ✅ ");
    let text = day.to_text();
    push_str(out, text.as_str());
    assert(old(out)@ + " ✅ "@ + day.text() =~= old(out)@ + done_stamp(day));
}

/// End (exclusive) of the `split_inclusive('\n')` piece that starts at `i`.
pub open spec fn segment_end(s: Seq<char>, i: int) -> int {
    match find_from(s, seq!['\n'], i) {
        Some(p) => p + 1,
        None => s.len() as int,
    }
}

/// The `(start, end)` ranges of the pieces of `str::split_inclusive('\n')`
/// from index `i` on: each piece keeps its terminating newline.
pub open spec fn segments(s: Seq<char>, i: int) -> Seq<(int, int)>
    decreases s.len() - i,
{
    if i < 0 || i >= s.len() {
        Seq::empty()
    } else {
        proof {
            lemma_find_from(s, seq!['\n'], i);
        }
        seq![(i, segment_end(s, i))] + segments(s, segment_end(s, i))
    }
}

/// End of `s[a..e]` once trailing `\n` and `\r` characters are dropped.
pub open spec fn trim_eol(s: Seq<char>, a: int, e: int) -> int
    decreases e - a,
{
    if e <= a {
        e
    } else if s[e - 1] == '\n' || s[e - 1] == '\r' {
        trim_eol(s, a, e - 1)
    } else {
        e
    }
}

/// Character range of line `n` of `s` (without its terminator), counting
/// lines as `split_inclusive('\n')` does.
pub open spec fn line_at(s: Seq<char>, n: int) -> Option<(int, int)> {
    let rs = segments(s, 0);
    if 0 <= n < rs.len() {
        Some((rs[n].0, trim_eol(s, rs[n].0, rs[n].1)))
    } else {
        None
    }
}

/// Byte range of line `n` of `body` when that line is a task whose display
/// text is `expected`.
pub open spec fn task_line_range(body: Seq<char>, n: int, expected: Seq<char>) -> Option<(int, int)> {
    match line_at(body, n) {
        None => None,
        Some(r) => {
            let line = body.subrange(r.0, r.1);
            if is_task_line(line) && stripped(task_body(line)) == expected {
                let start = utf8_len(body.take(r.0));
                Some((start as int, (start + utf8_len(line)) as int))
            } else {
                None
            }
        },
    }
}

/// Segment ranges are increasing, non-empty and in bounds.
proof fn lemma_segments(s: Seq<char>, i: int)
    requires
        0 <= i <= s.len(),
    ensures
        forall|k: int|
            0 <= k < segments(s, i).len() ==> i <= (#[trigger] segments(s, i)[k]).0 < segments(s, i)[k].1
                <= s.len(),
    decreases s.len() - i,
{
    if i < s.len() {
        lemma_find_from(s, seq!['\n'], i);
        let e = segment_end(s, i);
        lemma_segments(s, e);
        let rs = segments(s, i);
        assert forall|k: int| 0 <= k < rs.len() implies i <= (#[trigger] rs[k]).0 < rs[k].1 <= s.len() by {
            if k > 0 {
                assert(rs[k] == segments(s, e)[k - 1]);
            }
        }
    }
}

/// Whether two character slices are equal.
fn chars_eq(a: &[char], b: &[char]) -> (r: bool)
    ensures
        r == (a@ == b@),
{
    if a.len() != b.len() {
        return false;
    }
    let mut i: usize = 0;
    while i < a.len()
        invariant
            a@.len() == b@.len(),
            i <= a@.len(),
            forall|k: int| 0 <= k < i ==> a@[k] == b@[k],
        decreases a@.len() - i,
    {
        if a[i] != b[i] {
            return false;
        }
        i += 1;
    }
    assert(a@ =~= b@);
    true
}

/// Byte range of line `source_line` in `body` (excluding its terminator),
/// provided that line still parses as a task whose display text is
/// `expected_text`. Returns `None` when the note changed underneath the
/// caller, so a stale task index never rewrites the wrong line.
pub fn locate_task_line(body: &str, source_line: usize, expected_text: &str) -> (r: Option<
    core::ops::Range<usize>,
>)
    requires
        utf8_len(body@) <= usize::MAX,
        line_at(body@, source_line as int) matches Some(p) ==> indent_fits(
            body@.subrange(p.0, p.1),
        ),
    ensures
        match task_line_range(body@, source_line as int, expected_text@) {
            None => r is None,
            Some(p) => r matches Some(q) && q.start as int == p.0 && q.end as int == p.1,
        },
{
    let cs = chars_of(body);
    let expected = chars_of(expected_text);
    let n = cs.len();
    let nl = ['\n'];
    assert(nl@ =~= seq!['\n']);
    proof {
        lemma_segments(cs@, 0);
    }
    let ghost mut done: Seq<(int, int)> = Seq::empty();
    let mut i: usize = 0;
    let mut index: usize = 0;
    while i < n
        invariant
            i <= n == cs@.len(),
            cs@ == body@,
            nl@ =~= seq!['\n'],
            segments(cs@, 0) == done + segments(cs@, i as int),
            index as int == done.len(),
            index <= source_line,
            utf8_len(body@) <= usize::MAX,
            line_at(body@, source_line as int) matches Some(p) ==> indent_fits(body@.subrange(p.0, p.1)),
            expected@ == expected_text@,
        decreases n - i,
    {
        let found = find_from_exec(cs.as_slice(), &nl, i);
        proof {
            lemma_find_from(cs@, seq!['\n'], i as int);
        }
        let e = match found {
            Some(p) => p + 1,
            None => n,
        };
        assert(e as int == segment_end(cs@, i as int));
        assert(segments(cs@, i as int) == seq![(i as int, e as int)] + segments(cs@, e as int));
        if index == source_line {
            let mut t = e;
            while t > i && (cs[t - 1] == '\n' || cs[t - 1] == '\r')
                invariant
                    i <= t <= e <= n == cs@.len(),
                    trim_eol(cs@, i as int, e as int) == trim_eol(cs@, i as int, t as int),
                decreases t - i,
            {
                t -= 1;
            }
            assert(segments(cs@, 0)[source_line as int] == (i as int, e as int));
            assert(line_at(body@, source_line as int) == Some((i as int, t as int)));
            let line = string_of_range(cs.as_slice(), i, t);
            let parsed = match parse_task_line(line.as_str()) {
                None => {
                    return None;
                },
                Some(p) => p,
            };
            let text = strip_metadata(parsed.body.as_str());
            let text_chars = chars_of(text.as_str());
            if !chars_eq(text_chars.as_slice(), expected.as_slice()) {
                return None;
            }
            proof {
                lemma_utf8_len_prefix(cs@, t as int);
                assert(cs@.subrange(0, i as int) + cs@.subrange(i as int, t as int) =~= cs@.take(t as int));
                lemma_utf8_len_concat(cs@.subrange(0, i as int), cs@.subrange(i as int, t as int));
                assert(cs@.subrange(0, i as int) =~= cs@.take(i as int));
            }
            let start = utf8_len_range(cs.as_slice(), 0, i);
            let len = utf8_len_range(cs.as_slice(), i, t);
            return Some(start..start + len);
        }
        proof {
            assert(segments(cs@, 0) == done.push((i as int, e as int)) + segments(cs@, e as int)) by {
                assert(done + (seq![(i as int, e as int)] + segments(cs@, e as int)) =~= done.push(
                    (i as int, e as int),
                ) + segments(cs@, e as int));
            }
            done = done.push((i as int, e as int));
        }
        i = e;
        index += 1;
    }
    assert(segments(cs@, i as int) =~= Seq::<(int, int)>::empty());
    None
}

/// End of the text of the piece `s[a..e]` as `str::lines` yields it: a final
/// `\n` is dropped, and a `\r` right before it.
pub open spec fn line_text_end(s: Seq<char>, a: int, e: int) -> int {
    if e > a && s[e - 1] == '\n' {
        if e - 1 > a && s[e - 2] == '\r' {
            e - 2
        } else {
            e - 1
        }
    } else {
        e
    }
}

/// The lines of `s`, as `str::lines` yields them.
pub open spec fn text_lines(s: Seq<char>) -> Seq<Seq<char>> {
    segments(s, 0).map_values(|r: (int, int)| s.subrange(r.0, line_text_end(s, r.0, r.1)))
}

/// `line[t..]` starts with three copies of `c`.
pub open spec fn starts_with3(line: Seq<char>, t: int, c: char) -> bool {
    0 <= t && t + 3 <= line.len() && line[t] == c && line[t + 1] == c && line[t + 2] == c
}

/// The code fence a line opens or closes, by its character (`` ` `` or `~`),
/// once leading whitespace is skipped.
pub open spec fn fence_marker(line: Seq<char>) -> Option<char> {
    let t = skip_white(line, 0);
    if starts_with3(line, t, '`') {
        Some('`')
    } else if starts_with3(line, t, '~') {
        Some('~')
    } else {
        None
    }
}

/// The open fence after a line, given the open fence before it.
pub open spec fn fence_after(open: Option<char>, line: Seq<char>) -> Option<char> {
    match open {
        None => fence_marker(line),
        Some(o) => if fence_marker(line) is Some && starts_with3(line, skip_white(line, 0), o) {
            None
        } else {
            Some(o)
        },
    }
}

/// The open fence before line `k`.
pub open spec fn fence_before(ls: Seq<Seq<char>>, k: int) -> Option<char>
    decreases k,
{
    if k <= 0 {
        None
    } else {
        fence_after(fence_before(ls, k - 1), ls[k - 1])
    }
}

/// Line `k` lies outside code fences and is no fence line itself.
pub open spec fn scanned(ls: Seq<Seq<char>>, k: int) -> bool {
    fence_before(ls, k) is None && fence_marker(ls[k]) is None
}

/// Indices, below `k`, of the lines that are collected as tasks.
pub open spec fn task_indices(ls: Seq<Seq<char>>, k: int) -> Seq<int>
    decreases k,
{
    if k <= 0 {
        Seq::empty()
    } else if scanned(ls, k - 1) && is_task_line(ls[k - 1]) {
        task_indices(ls, k - 1).push(k - 1)
    } else {
        task_indices(ls, k - 1)
    }
}

/// `t` is the task that line `n`, reading `line`, of the given note yields.
pub open spec fn task_from_line(
    t: Task,
    line: Seq<char>,
    n: int,
    note_id: NoteId,
    path: Seq<char>,
    title: Seq<char>,
) -> bool {
    let body = task_body(line);
    &&& t.note_id == note_id
    &&& t.path@ == path
    &&& t.note_title@ == title
    &&& t.source_line == n
    &&& t.indent == task_indent(line)
    &&& t.text@ == stripped(body)
    &&& t.checked == task_checked(line)
    &&& day_of(t.due) == extract_day(body, '📅', 0)
    &&& day_of(t.start) == extract_day(body, '🛫', 0)
    &&& day_of(t.done) == extract_day(body, '✅', 0)
    &&& t.priority == body_priority(body)
}

/// `cs[a..b]` as a vector.
fn slice_range(cs: &[char], a: usize, b: usize) -> (out: Vec<char>)
    requires
        a <= b <= cs@.len(),
    ensures
        out@ == cs@.subrange(a as int, b as int),
{
    let mut out: Vec<char> = Vec::new();
    let mut i = a;
    while i < b
        invariant
            a <= i <= b <= cs@.len(),
            out@ == cs@.subrange(a as int, i as int),
        decreases b - i,
    {
        out.push(cs[i]);
        i += 1;
    }
    out
}

/// The fence character a line opens or closes, as [`fence_marker`] says.
fn fence_marker_exec(line: &[char]) -> (r: Option<char>)
    ensures
        r == fence_marker(line@),
{
    let n = line.len();
    let mut t: usize = 0;
    while t < n && is_whitespace(line[t])
        invariant
            t <= n == line@.len(),
            skip_white(line@, 0) == skip_white(line@, t as int),
        decreases n - t,
    {
        t += 1;
    }
    if n - t >= 3 && line[t] == '`' && line[t + 1] == '`' && line[t + 2] == '`' {
        Some('`')
    } else if n - t >= 3 && line[t] == '~' && line[t + 1] == '~' && line[t + 2] == '~' {
        Some('~')
    } else {
        None
    }
}

/// Whether the line, after leading whitespace, starts with three `c`.
fn starts_with3_exec(line: &[char], c: char) -> (b: bool)
    ensures
        b == starts_with3(line@, skip_white(line@, 0), c),
{
    let n = line.len();
    let mut t: usize = 0;
    while t < n && is_whitespace(line[t])
        invariant
            t <= n == line@.len(),
            skip_white(line@, 0) == skip_white(line@, t as int),
        decreases n - t,
    {
        t += 1;
    }
    n - t >= 3 && line[t] == c && line[t + 1] == c && line[t + 2] == c
}

/// Collect every task in a Markdown body, skipping fenced code blocks.
#[verifier::spinoff_prover]
#[verifier::rlimit(40)]
pub fn collect_tasks(body: &str, note_id: NoteId, path: &str, note_title: &str) -> (out: Vec<Task>)
    requires
        forall|k: int|
            0 <= k < text_lines(body@).len() && scanned(text_lines(body@), k) ==> indent_fits(
                #[trigger] text_lines(body@)[k],
            ),
    ensures
        out@.len() == task_indices(text_lines(body@), text_lines(body@).len() as int).len(),
        forall|m: int|
            0 <= m < out@.len() ==> {
                let n = task_indices(text_lines(body@), text_lines(body@).len() as int)[m];
                task_from_line(#[trigger] out@[m], text_lines(body@)[n], n, note_id, path@, note_title@)
            },
{
    let cs = chars_of(body);
    let n = cs.len();
    let nl = ['\n'];
    assert(nl@ =~= seq!['\n']);
    proof {
        lemma_segments(cs@, 0);
    }
    let ghost ls = text_lines(cs@);
    let ghost rs = segments(cs@, 0);
    let mut tasks: Vec<Task> = Vec::new();
    let mut fence: Option<char> = None;
    let ghost mut done: Seq<(int, int)> = Seq::empty();
    let mut i: usize = 0;
    let mut index: usize = 0;
    while i < n
        invariant
            i <= n == cs@.len(),
            cs@ == body@,
            nl@ =~= seq!['\n'],
            ls == text_lines(cs@),
            rs == segments(cs@, 0),
            ls.len() == rs.len(),
            rs == done + segments(cs@, i as int),
            index as int == done.len(),
            index <= i,
            forall|k: int| 0 <= k < rs.len() ==> 0 <= (#[trigger] rs[k]).0 < rs[k].1 <= cs@.len(),
            forall|k: int| 0 <= k < ls.len() && scanned(ls, k) ==> indent_fits(#[trigger] ls[k]),
            fence == fence_before(ls, index as int),
            tasks@.len() == task_indices(ls, index as int).len(),
            forall|m: int|
                0 <= m < tasks@.len() ==> {
                    let j = task_indices(ls, index as int)[m];
                    task_from_line(#[trigger] tasks@[m], ls[j], j, note_id, path@, note_title@)
                },
        decreases n - i,
    {
        let found = find_from_exec(cs.as_slice(), &nl, i);
        proof {
            lemma_find_from(cs@, seq!['\n'], i as int);
        }
        let e = match found {
            Some(p) => p + 1,
            None => n,
        };
        assert(segments(cs@, i as int) == seq![(i as int, e as int)] + segments(cs@, e as int));
        assert(rs[index as int] == (i as int, e as int));
        let le = if e > i && cs[e - 1] == '\n' {
            if e - 1 > i && cs[e - 2] == '\r' {
                e - 2
            } else {
                e - 1
            }
        } else {
            e
        };
        let line = slice_range(cs.as_slice(), i, le);
        assert(line@ == ls[index as int]);
        let marker = fence_marker_exec(line.as_slice());
        let ghost before = tasks@;
        match fence {
            None => {
                match marker {
                    Some(m) => {
                        fence = Some(m);
                    },
                    None => {
                        match parse_task_chars(line.as_slice()) {
                            Some(parsed) => {
                                let text = strip_metadata(parsed.body.as_str());
                                let task = Task {
                                    note_id,
                                    path: path.to_owned(),
                                    note_title: note_title.to_owned(),
                                    source_line: index,
                                    indent: parsed.indent,
                                    text,
                                    checked: parsed.checked,
                                    due: parsed.due,
                                    start: parsed.start,
                                    done: parsed.done,
                                    priority: parsed.priority,
                                };
                                tasks.push(task);
                            },
                            None => {},
                        }
                    },
                }
            },
            Some(o) => {
                if marker.is_some() && starts_with3_exec(line.as_slice(), o) {
                    fence = None;
                }
            },
        }
        proof {
            assert(rs == done.push((i as int, e as int)) + segments(cs@, e as int)) by {
                assert(done + (seq![(i as int, e as int)] + segments(cs@, e as int)) =~= done.push(
                    (i as int, e as int),
                ) + segments(cs@, e as int));
            }
            done = done.push((i as int, e as int));
            let k = index as int;
            assert(task_indices(ls, k + 1) == if scanned(ls, k) && is_task_line(ls[k]) {
                task_indices(ls, k).push(k)
            } else {
                task_indices(ls, k)
            });
            assert forall|m: int| 0 <= m < tasks@.len() implies {
                let j = task_indices(ls, k + 1)[m];
                task_from_line(#[trigger] tasks@[m], ls[j], j, note_id, path@, note_title@)
            } by {
                if m < before.len() {
                    assert(tasks@[m] == before[m]);
                    assert(task_indices(ls, k + 1)[m] == task_indices(ls, k)[m]);
                }
            }
        }
        i = e;
        index += 1;
    }
    assert(segments(cs@, i as int) =~= Seq::<(int, int)>::empty());
    assert(done =~= rs);
    tasks
}

/// Sort key of the due date: undated tasks come after every dated one.
pub open spec fn due_key(due: Option<Date>) -> int {
    match due {
        Some(d) => d.day_number(),
        None => 0x1_0000_0000,
    }
}

/// Sort key of the priority: unprioritized tasks come last.
pub open spec fn priority_key(p: Option<Priority>) -> int {
    match p {
        Some(q) => priority_rank(q) as int,
        None => 255,
    }
}

/// The order of the aggregate task view: open before done, then by due date
/// (undated last), then by priority (unprioritized last), then by path, then
/// by line. Negative when `a` sorts first.
pub open spec fn task_order(a: Task, b: Task) -> int {
    let ca: int = if a.checked {
        1
    } else {
        0
    };
    let cb: int = if b.checked {
        1
    } else {
        0
    };
    if ca != cb {
        ca - cb
    } else if due_key(a.due) != due_key(b.due) {
        due_key(a.due) - due_key(b.due)
    } else if priority_key(a.priority) != priority_key(b.priority) {
        priority_key(a.priority) - priority_key(b.priority)
    } else if text_order(a.path@, b.path@) != 0 {
        text_order(a.path@, b.path@)
    } else {
        a.source_line - b.source_line
    }
}

/// Swapping the operands of [`task_order`] flips its sign.
pub proof fn lemma_task_order_antisymmetric(a: Task, b: Task)
    ensures
        task_order(a, b) == -task_order(b, a),
{
    lemma_text_order_antisymmetric(a.path@, b.path@);
}

/// [`task_order`] is transitive.
pub proof fn lemma_task_order_transitive(a: Task, b: Task, c: Task)
    requires
        task_order(a, b) <= 0,
        task_order(b, c) <= 0,
    ensures
        task_order(a, c) <= 0,
{
    lemma_text_order_antisymmetric(a.path@, b.path@);
    lemma_text_order_antisymmetric(b.path@, c.path@);
    lemma_text_order_antisymmetric(a.path@, c.path@);
    if text_order(a.path@, b.path@) <= 0 && text_order(b.path@, c.path@) <= 0 {
        lemma_text_order_transitive(a.path@, b.path@, c.path@);
    }
}

/// The tasks appear in [`task_order`].
pub open spec fn tasks_sorted(ts: Seq<Task>) -> bool {
    forall|i: int, j: int| 0 <= i < j < ts.len() ==> task_order(#[trigger] ts[i], #[trigger] ts[j]) <= 0
}

/// [`task_order`] of two tasks, as -1, 0 or 1.
fn task_order_exec(a: &Task, b: &Task) -> (r: i8)
    ensures
        r as int == if task_order(*a, *b) < 0 {
            -1int
        } else if task_order(*a, *b) > 0 {
            1int
        } else {
            0int
        },
{
    if a.checked != b.checked {
        return if b.checked {
            -1
        } else {
            1
        };
    }
    let da: i64 = match a.due {
        Some(d) => d.number() as i64,
        None => 0x1_0000_0000,
    };
    let db: i64 = match b.due {
        Some(d) => d.number() as i64,
        None => 0x1_0000_0000,
    };
    if da != db {
        return if da < db {
            -1
        } else {
            1
        };
    }
    let pa: u8 = match a.priority {
        Some(p) => p.rank(),
        None => 255,
    };
    let pb: u8 = match b.priority {
        Some(p) => p.rank(),
        None => 255,
    };
    if pa != pb {
        return if pa < pb {
            -1
        } else {
            1
        };
    }
    let path_a = chars_of(a.path.as_str());
    let path_b = chars_of(b.path.as_str());
    let t = text_order_exec(path_a.as_slice(), path_b.as_slice());
    if t != 0 {
        return t;
    }
    if a.source_line < b.source_line {
        -1
    } else if a.source_line > b.source_line {
        1
    } else {
        0
    }
}

/// Whether a task ties with `x` in [`task_order`].
pub open spec fn ties_with(x: Task) -> spec_fn(Task) -> bool {
    |t: Task| task_order(t, x) == 0
}

proof fn lemma_filter_none(s: Seq<Task>, f: spec_fn(Task) -> bool)
    requires
        forall|m: int| 0 <= m < s.len() ==> !f(#[trigger] s[m]),
    ensures
        s.filter(f) == Seq::<Task>::empty(),
    decreases s.len(),
{
    reveal(Seq::filter);
    if s.len() > 0 {
        lemma_filter_none(s.drop_last(), f);
    }
}

/// Inserting `v` at `p`, where nothing from `p` on passes `f` if `v` does,
/// adds `v` at the end of what passes `f`, if it passes.
proof fn lemma_filter_insert(s: Seq<Task>, p: int, v: Task, f: spec_fn(Task) -> bool)
    requires
        0 <= p <= s.len(),
        f(v) ==> forall|m: int| p <= m < s.len() ==> !f(#[trigger] s[m]),
    ensures
        s.insert(p, v).filter(f) == if f(v) {
            s.filter(f).push(v)
        } else {
            s.filter(f)
        },
{
    let a = s.take(p);
    let b = s.skip(p);
    let one = seq![v];
    assert(s.insert(p, v) =~= (a + one) + b);
    assert(s =~= a + b);
    Seq::filter_distributes_over_add(a + one, b, f);
    Seq::filter_distributes_over_add(a, one, f);
    Seq::filter_distributes_over_add(a, b, f);
    assert(one.drop_last() =~= Seq::<Task>::empty());
    assert(one.filter(f) == if f(v) {
        seq![v]
    } else {
        Seq::<Task>::empty()
    }) by {
        reveal(Seq::filter);
        lemma_filter_none(Seq::<Task>::empty(), f);
    }
    if f(v) {
        assert forall|m: int| 0 <= m < b.len() implies !f(#[trigger] b[m]) by {
            assert(b[m] == s[p + m]);
        }
        lemma_filter_none(b, f);
        assert(a.filter(f) + seq![v] =~= a.filter(f).push(v));
        assert(a.filter(f) + Seq::<Task>::empty() =~= a.filter(f));
    } else {
        assert(a.filter(f) + Seq::<Task>::empty() =~= a.filter(f));
    }
}

/// Order tasks for the aggregate view: open before done, then by due date
/// (undated last), then by priority (unprioritized last), then file order.
/// The sort is stable: tasks that tie keep their order.
pub fn sort_tasks(tasks: &mut Vec<Task>)
    ensures
        final(tasks)@.to_multiset() == old(tasks)@.to_multiset(),
        tasks_sorted(final(tasks)@),
        forall|i: int, j: int|
            0 <= i < j < final(tasks)@.len() ==> !must_precede(#[trigger] final(tasks)@[j], #[trigger] final(tasks)@[i]),
        forall|x: Task| #[trigger] final(tasks)@.filter(ties_with(x)) == old(tasks)@.filter(ties_with(x)),
{
    let ghost original = tasks@;
    let n = tasks.len();
    let mut i: usize = 0;
    while i < n
        invariant
            i <= n == tasks@.len(),
            original.len() == n,
            tasks@.to_multiset() == original.to_multiset(),
            tasks_sorted(tasks@.take(i as int)),
            tasks@.skip(i as int) == original.skip(i as int),
            forall|x: Task| #[trigger] tasks@.take(i as int).filter(ties_with(x)) == original.take(i as int).filter(ties_with(x)),
        decreases n - i,
    {
        let ghost before = tasks@;
        let item = tasks.remove(i);
        proof {
            to_multiset_remove(before, i as int);
        }
        let ghost rest = tasks@;
        assert(rest.take(i as int) =~= before.take(i as int));
        let mut p: usize = 0;
        while p < i && task_order_exec(&item, &tasks[p]) >= 0
            invariant
                p <= i < n,
                tasks@ == rest,
                rest.len() == n - 1,
                forall|m: int| 0 <= m < p ==> task_order(item, #[trigger] rest[m]) >= 0,
            decreases i - p,
        {
            p += 1;
        }
        tasks.insert(p, item);
        proof {
            to_multiset_insert(rest, p as int, item);
            let s = tasks@;
            assert(s == rest.insert(p as int, item));
            assert(before.to_multiset().count(item) > 0) by {
                before.to_multiset_ensures();
                assert(before.contains(item)) by {
                    assert(before[i as int] == item);
                }
            }
            assert(before.to_multiset().remove(item).insert(item) =~= before.to_multiset()) by {
                broadcast use vstd::multiset::group_multiset_axioms;
            }
            let sorted_prefix = before.take(i as int);
            assert forall|a: int, b: int| 0 <= a < b < i + 1 implies task_order(
                #[trigger] s.take(i + 1)[a],
                #[trigger] s.take(i + 1)[b],
            ) <= 0 by {
                assert(s.take(i + 1)[a] == s[a]);
                assert(s.take(i + 1)[b] == s[b]);
                if b < p {
                    assert(s[a] == rest[a] && s[b] == rest[b]);
                    assert(sorted_prefix[a] == rest[a] && sorted_prefix[b] == rest[b]);
                    assert(task_order(sorted_prefix[a], sorted_prefix[b]) <= 0);
                } else if b == p {
                    assert(s[a] == rest[a]);
                    lemma_task_order_antisymmetric(item, rest[a]);
                } else if a == p {
                    assert(s[b] == rest[b - 1]);
                    assert(p < i);
                    assert(task_order(item, rest[p as int]) < 0);
                    if b - 1 > p {
                        assert(sorted_prefix[p as int] == rest[p as int]);
                        assert(sorted_prefix[b - 1] == rest[b - 1]);
                        lemma_task_order_transitive(item, rest[p as int], rest[b - 1]);
                    }
                } else if a < p {
                    assert(s[a] == rest[a] && s[b] == rest[b - 1]);
                    assert(sorted_prefix[a] == rest[a] && sorted_prefix[b - 1] == rest[b - 1]);
                } else {
                    assert(s[a] == rest[a - 1] && s[b] == rest[b - 1]);
                    assert(sorted_prefix[a - 1] == rest[a - 1] && sorted_prefix[b - 1] == rest[b - 1]);
                }
            }
            assert(item == original[i as int]) by {
                assert(before.skip(i as int)[0] == original.skip(i as int)[0]);
            }
            assert(s.skip(i + 1) =~= original.skip(i + 1)) by {
                assert forall|k: int| 0 <= k < s.skip(i + 1).len() implies #[trigger] s.skip(i + 1)[k] == original.skip(i + 1)[k] by {
                    assert(s[i + 1 + k] == rest[i + k]);
                    assert(rest[i + k] == before[i + 1 + k]);
                    assert(before.skip(i as int)[k + 1] == original.skip(i as int)[k + 1]);
                }
            }
            assert(s.take(i + 1) =~= sorted_prefix.insert(p as int, item));
            assert(original.take(i + 1) =~= original.take(i as int).insert(i as int, item));
            assert forall|x: Task| #[trigger] s.take(i + 1).filter(ties_with(x)) == original.take(i + 1).filter(
                ties_with(x),
            ) by {
                let f = ties_with(x);
                if f(item) {
                    assert forall|m: int| p <= m < sorted_prefix.len() implies !f(#[trigger] sorted_prefix[m]) by {
                        if f(sorted_prefix[m]) {
                            assert(sorted_prefix[p as int] == rest[p as int]);
                            assert(task_order(item, rest[p as int]) < 0);
                            lemma_task_order_antisymmetric(sorted_prefix[m], x);
                            lemma_task_order_antisymmetric(item, x);
                            lemma_task_order_transitive(sorted_prefix[m], x, item);
                            if m > p {
                                assert(task_order(sorted_prefix[p as int], sorted_prefix[m]) <= 0);
                                lemma_task_order_transitive(sorted_prefix[p as int], sorted_prefix[m], item);
                            }
                            lemma_task_order_antisymmetric(item, sorted_prefix[p as int]);
                        }
                    }
                }
                lemma_filter_insert(sorted_prefix, p as int, item, f);
                lemma_filter_insert(original.take(i as int), i as int, item, f);
            }
        }
        i += 1;
    }
    assert(tasks@.take(n as int) =~= tasks@);
    assert(original.take(n as int) =~= original);
    proof {
        lemma_sorted_tasks_respect_fields(tasks@);
    }
}

/// Priority `p` outranks `q`: high before medium before low, and any
/// priority before none.
pub open spec fn outranks(p: Option<Priority>, q: Option<Priority>) -> bool {
    match (p, q) {
        (Some(Priority::High), Some(Priority::Medium)) => true,
        (Some(Priority::High), Some(Priority::Low)) => true,
        (Some(Priority::Medium), Some(Priority::Low)) => true,
        (Some(_), None) => true,
        _ => false,
    }
}

/// What the task view promises of the order of two tasks: `a` comes
/// before `b` when it is open and `b` done; or, with the same state, when
/// only `a` has a due date or `a` is due earlier; or, with the same state
/// and due date, when `a` has the higher priority; or, with all of these
/// the same and the same file, when `a` stands on an earlier line.
pub open spec fn must_precede(a: Task, b: Task) -> bool {
    ||| !a.checked && b.checked
    ||| a.checked == b.checked && a.due is Some && b.due is None
    ||| a.checked == b.checked && (a.due matches Some(x) && b.due matches Some(y) && x.day_number() < y.day_number())
    ||| a.checked == b.checked && day_of(a.due) == day_of(b.due) && outranks(a.priority, b.priority)
    ||| a.checked == b.checked && day_of(a.due) == day_of(b.due) && a.priority == b.priority && a.path@ == b.path@
        && a.source_line < b.source_line
}

/// The task order puts open tasks before done ones, then dated tasks by
/// due date with undated ones last, then by priority with unprioritized
/// ones last.
pub proof fn lemma_task_order_respects_fields(a: Task, b: Task)
    requires
        must_precede(a, b),
    ensures
        task_order(a, b) < 0,
{
    if let Some(x) = a.due {
        x.lemma_day_number_range();
    }
    if let Some(y) = b.due {
        y.lemma_day_number_range();
    }
    if a.path@ == b.path@ {
        lemma_text_order_antisymmetric(a.path@, b.path@);
    }
}

/// In a sorted task list no task comes after one it must precede: open
/// before done, earlier due dates first with undated tasks last, and,
/// within a due date, higher priorities first.
pub proof fn lemma_sorted_tasks_respect_fields(ts: Seq<Task>)
    requires
        tasks_sorted(ts),
    ensures
        forall|i: int, j: int| 0 <= i < j < ts.len() ==> !must_precede(#[trigger] ts[j], #[trigger] ts[i]),
{
    assert forall|i: int, j: int| 0 <= i < j < ts.len() implies !must_precede(#[trigger] ts[j], #[trigger] ts[i]) by {
        if must_precede(ts[j], ts[i]) {
            lemma_task_order_respects_fields(ts[j], ts[i]);
            lemma_task_order_antisymmetric(ts[i], ts[j]);
            assert(task_order(ts[i], ts[j]) <= 0);
        }
    }
}

} // verus!
