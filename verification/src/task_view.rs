//! The aggregate task view: filters, the visible rows, selection and scroll.
use vstd::prelude::*;

use crate::date::{iso_date_text, Date};
use crate::geometry::{Position, Rect};
use crate::tasks::{day_of, sort_tasks, task_order, tasks_sorted, Priority, Task};
use crate::text::{
    chars_of, find_from, find_from_exec, lemma_find_from, string_of_range, to_lowercase, trim,
    trim_bounds, unicode_lowercase,
};

verus! {

/// Which tasks the view lists by completion.
#[derive(Debug, Clone, Copy, PartialEq, Eq, Structural)]
pub enum TaskStatusFilter {
    Open,
    Done,
    All,
}

impl TaskStatusFilter {
    /// The next filter value, cycling Open → Done → All → Open.
    pub fn next(self) -> (f: TaskStatusFilter)
        ensures
            f == (match self {
                TaskStatusFilter::Open => TaskStatusFilter::Done,
                TaskStatusFilter::Done => TaskStatusFilter::All,
                TaskStatusFilter::All => TaskStatusFilter::Open,
            }),
    {
        match self {
            TaskStatusFilter::Open => TaskStatusFilter::Done,
            TaskStatusFilter::Done => TaskStatusFilter::All,
            TaskStatusFilter::All => TaskStatusFilter::Open,
        }
    }

    /// The label shown in the view header.
    pub fn label(self) -> (s: &'static str)
        ensures
            s@ == (match self {
                TaskStatusFilter::Open => "Open"@,
                TaskStatusFilter::Done => "Done"@,
                TaskStatusFilter::All => "All"@,
            }),
    {
        match self {
            TaskStatusFilter::Open => "Open",
            TaskStatusFilter::Done => "Done",
            TaskStatusFilter::All => "All",
        }
    }

    /// Whether this is the value a fresh view starts with.
    pub fn is_default(self) -> (b: bool)
        ensures
            b == (self == TaskStatusFilter::Open),
    {
        match self {
            TaskStatusFilter::Open => true,
            _ => false,
        }
    }
}

/// Which tasks the view lists by due date.
#[derive(Debug, Clone, Copy, PartialEq, Eq, Structural)]
pub enum TaskDueFilter {
    Any,
    Overdue,
    Today,
    Week,
}

impl TaskDueFilter {
    /// The next filter value, cycling Any → Overdue → Today → Week → Any.
    pub fn next(self) -> (f: TaskDueFilter)
        ensures
            f == (match self {
                TaskDueFilter::Any => TaskDueFilter::Overdue,
                TaskDueFilter::Overdue => TaskDueFilter::Today,
                TaskDueFilter::Today => TaskDueFilter::Week,
                TaskDueFilter::Week => TaskDueFilter::Any,
            }),
    {
        match self {
            TaskDueFilter::Any => TaskDueFilter::Overdue,
            TaskDueFilter::Overdue => TaskDueFilter::Today,
            TaskDueFilter::Today => TaskDueFilter::Week,
            TaskDueFilter::Week => TaskDueFilter::Any,
        }
    }

    /// The label shown in the view header.
    pub fn label(self) -> (s: &'static str)
        ensures
            s@ == (match self {
                TaskDueFilter::Any => "any"@,
                TaskDueFilter::Overdue => "overdue"@,
                TaskDueFilter::Today => "today"@,
                TaskDueFilter::Week => "this week"@,
            }),
    {
        match self {
            TaskDueFilter::Any => "any",
            TaskDueFilter::Overdue => "overdue",
            TaskDueFilter::Today => "today",
            TaskDueFilter::Week => "this week",
        }
    }

    /// Whether this is the value a fresh view starts with.
    pub fn is_default(self) -> (b: bool)
        ensures
            b == (self == TaskDueFilter::Any),
    {
        match self {
            TaskDueFilter::Any => true,
            _ => false,
        }
    }
}

/// Which tasks the view lists by priority.
#[derive(Debug, Clone, Copy, PartialEq, Eq, Structural)]
pub enum TaskPriorityFilter {
    Any,
    High,
    Medium,
    Low,
}

impl TaskPriorityFilter {
    /// The next filter value, cycling Any → High → Medium → Low → Any.
    pub fn next(self) -> (f: TaskPriorityFilter)
        ensures
            f == (match self {
                TaskPriorityFilter::Any => TaskPriorityFilter::High,
                TaskPriorityFilter::High => TaskPriorityFilter::Medium,
                TaskPriorityFilter::Medium => TaskPriorityFilter::Low,
                TaskPriorityFilter::Low => TaskPriorityFilter::Any,
            }),
    {
        match self {
            TaskPriorityFilter::Any => TaskPriorityFilter::High,
            TaskPriorityFilter::High => TaskPriorityFilter::Medium,
            TaskPriorityFilter::Medium => TaskPriorityFilter::Low,
            TaskPriorityFilter::Low => TaskPriorityFilter::Any,
        }
    }

    /// The label shown in the view header.
    pub fn label(self) -> (s: &'static str)
        ensures
            s@ == (match self {
                TaskPriorityFilter::Any => "any"@,
                TaskPriorityFilter::High => "high"@,
                TaskPriorityFilter::Medium => "medium"@,
                TaskPriorityFilter::Low => "low"@,
            }),
    {
        match self {
            TaskPriorityFilter::Any => "any",
            TaskPriorityFilter::High => "high",
            TaskPriorityFilter::Medium => "medium",
            TaskPriorityFilter::Low => "low",
        }
    }

    /// Whether this is the value a fresh view starts with.
    pub fn is_default(self) -> (b: bool)
        ensures
            b == (self == TaskPriorityFilter::Any),
    {
        match self {
            TaskPriorityFilter::Any => true,
            _ => false,
        }
    }
}

/// One of the interactive controls in the task view header.
#[derive(Debug, Clone, Copy, PartialEq, Eq, Structural)]
pub enum TaskFilterKind {
    Status,
    Due,
    Priority,
    Search,
}

/// Screen geometry of one rendered task row, recorded by the renderer for
/// mouse hit testing.
#[derive(Debug, Clone, Copy, PartialEq, Eq, Structural)]
pub struct TaskRowHit {
    pub position: usize,
    pub row: Rect,
    pub checkbox: Rect,
}

/// The task passes the completion filter.
pub open spec fn status_passes(f: TaskStatusFilter, t: Task) -> bool {
    match f {
        TaskStatusFilter::Open => !t.checked,
        TaskStatusFilter::Done => t.checked,
        TaskStatusFilter::All => true,
    }
}

/// The task passes the due-date filter on day `today`; "this week" means
/// due from today through seven days later.
pub open spec fn due_passes(f: TaskDueFilter, t: Task, today: int) -> bool {
    match f {
        TaskDueFilter::Any => true,
        TaskDueFilter::Overdue => (day_of(t.due) matches Some(d) && d < today) && !t.checked,
        TaskDueFilter::Today => day_of(t.due) == Some(today),
        TaskDueFilter::Week => day_of(t.due) matches Some(d) && today <= d <= today + 7,
    }
}

/// The task passes the priority filter.
pub open spec fn priority_passes(f: TaskPriorityFilter, t: Task) -> bool {
    match f {
        TaskPriorityFilter::Any => true,
        TaskPriorityFilter::High => t.priority == Some(Priority::High),
        TaskPriorityFilter::Medium => t.priority == Some(Priority::Medium),
        TaskPriorityFilter::Low => t.priority == Some(Priority::Low),
    }
}

/// `q` occurs in `s`.
pub open spec fn contains_text(s: Seq<char>, q: Seq<char>) -> bool {
    find_from(s, q, 0) is Some
}

/// The task matches a lowercased query: an empty query matches everything,
/// otherwise the lowercased text or note title must contain it.
pub open spec fn query_passes(q: Seq<char>, t: Task) -> bool {
    q.len() == 0 || contains_text(unicode_lowercase(t.text@), q) || contains_text(
        unicode_lowercase(t.note_title@),
        q,
    )
}

/// The task passes every filter.
pub open spec fn task_passes(
    t: Task,
    status: TaskStatusFilter,
    due: TaskDueFilter,
    priority: TaskPriorityFilter,
    query: Seq<char>,
    today: int,
) -> bool {
    &&& status_passes(status, t)
    &&& due_passes(due, t, today)
    &&& priority_passes(priority, t)
    &&& query_passes(query, t)
}

/// Indices, below `k`, of the tasks that pass every filter, in order.
pub open spec fn passing_indices(
    ts: Seq<Task>,
    k: int,
    status: TaskStatusFilter,
    due: TaskDueFilter,
    priority: TaskPriorityFilter,
    query: Seq<char>,
    today: int,
) -> Seq<usize>
    decreases k,
{
    if k <= 0 {
        Seq::empty()
    } else {
        let prev = passing_indices(ts, k - 1, status, due, priority, query, today);
        if task_passes(ts[k - 1], status, due, priority, query, today) {
            prev.push((k - 1) as usize)
        } else {
            prev
        }
    }
}

/// The day seven days after `today` is a valid date (computing it would
/// otherwise overflow the calendar).
pub open spec fn week_end_valid(today: Date) -> bool {
    today.day_number() + 7 <= i32::MAX && iso_date_text((today.day_number() + 7) as i32) is Some
}

/// The "this week" filter would compute the day a week after `today`: some
/// task passes the completion filter and is due today or later.
pub open spec fn week_filter_reads_dates(ts: Seq<Task>, status: TaskStatusFilter, due: TaskDueFilter, today: Date) -> bool {
    due == TaskDueFilter::Week && exists|i: int|
        0 <= i < ts.len() && status_passes(status, #[trigger] ts[i]) && due_from(ts[i], today)
}

/// The task is due on `today` or later.
pub open spec fn due_from(t: Task, today: Date) -> bool {
    match t.due {
        Some(d) => d.day_number() >= today.day_number(),
        None => false,
    }
}

/// Whether `q` occurs in the lowercased `text`.
fn lowercase_contains(text: &str, q: &[char]) -> (b: bool)
    ensures
        b == contains_text(unicode_lowercase(text@), q@),
{
    let lower = to_lowercase(text);
    let cs = chars_of(lower.as_str());
    find_from_exec(cs.as_slice(), q, 0).is_some()
}

/// Whether one task passes every filter.
fn task_passes_exec(
    t: &Task,
    status: TaskStatusFilter,
    due: TaskDueFilter,
    priority: TaskPriorityFilter,
    q: &[char],
    today: i64,
) -> (b: bool)
    ensures
        b == task_passes(*t, status, due, priority, q@, today as int),
{
    let s = match status {
        TaskStatusFilter::Open => !t.checked,
        TaskStatusFilter::Done => t.checked,
        TaskStatusFilter::All => true,
    };
    if !s {
        return false;
    }
    let d = match due {
        TaskDueFilter::Any => true,
        TaskDueFilter::Overdue => match t.due {
            Some(x) => (x.number() as i64) < today && !t.checked,
            None => false,
        },
        TaskDueFilter::Today => match t.due {
            Some(x) => x.number() as i64 == today,
            None => false,
        },
        TaskDueFilter::Week => match t.due {
            Some(x) => today <= x.number() as i64 && x.number() as i64 <= today + 7,
            None => false,
        },
    };
    if !d {
        return false;
    }
    let p = match priority {
        TaskPriorityFilter::Any => true,
        TaskPriorityFilter::High => t.priority == Some(Priority::High),
        TaskPriorityFilter::Medium => t.priority == Some(Priority::Medium),
        TaskPriorityFilter::Low => t.priority == Some(Priority::Low),
    };
    if !p {
        return false;
    }
    q.len() == 0 || lowercase_contains(t.text.as_str(), q) || lowercase_contains(
        t.note_title.as_str(),
        q,
    )
}

/// Indices into `tasks` of the tasks passing every filter, in order. `query`
/// is matched as given (callers lowercase it).
pub fn filter_task_indices(
    tasks: &[Task],
    status: TaskStatusFilter,
    due: TaskDueFilter,
    priority: TaskPriorityFilter,
    query: &str,
    today: Date,
) -> (out: Vec<usize>)
    requires
        week_filter_reads_dates(tasks@, status, due, today) ==> week_end_valid(today),
    ensures
        out@ == passing_indices(
            tasks@,
            tasks@.len() as int,
            status,
            due,
            priority,
            query@,
            today.day_number(),
        ),
        forall|m: int|
            0 <= m < out@.len() ==> out@[m] < tasks@.len() && filters_promise(
                tasks@[#[trigger] out@[m] as int],
                status,
                due,
                priority,
                query@,
                today.day_number(),
            ),
        forall|i: int|
            0 <= i < tasks@.len() ==> ((exists|m: int| 0 <= m < out@.len() && #[trigger] out@[m] == i) <==> gets_through(
                #[trigger] tasks@[i],
                status,
                due,
                priority,
                query@,
                today.day_number(),
            )),
{
    let q = chars_of(query);
    let day = today.number() as i64;
    let mut out: Vec<usize> = Vec::new();
    let mut i: usize = 0;
    while i < tasks.len()
        invariant
            i <= tasks@.len(),
            q@ == query@,
            day as int == today.day_number(),
            out@ == passing_indices(tasks@, i as int, status, due, priority, query@, today.day_number()),
        decreases tasks@.len() - i,
    {
        if task_passes_exec(&tasks[i], status, due, priority, q.as_slice(), day) {
            out.push(i);
        }
        i += 1;
    }
    proof {
        lemma_filtered_tasks_keep_promises(
            tasks@,
            tasks@.len() as int,
            status,
            due,
            priority,
            query@,
            today.day_number(),
        );
        lemma_listed_iff_gets_through(
            tasks@,
            tasks@.len() as int,
            status,
            due,
            priority,
            query@,
            today.day_number(),
        );
    }
    out
}

/// Aggregate task view state. Tasks are collected from every Markdown note
/// and filtered here; `visible` holds the indices into `tasks` of the rows
/// shown, `selected` is a position in `visible`.
pub struct TaskViewState {
    pub tasks: Vec<Task>,
    pub status: TaskStatusFilter,
    pub due: TaskDueFilter,
    pub priority: TaskPriorityFilter,
    pub query: String,
    pub text_input_active: bool,
    pub visible: Vec<usize>,
    pub selected: usize,
    pub scroll_offset: usize,
    pub row_hits: Vec<TaskRowHit>,
    pub filter_hits: Vec<(TaskFilterKind, Rect)>,
    pub list_area: Rect,
    pub loading: bool,
    pub scanned_once: bool,
    pub dirty: bool,
    pub signature: (u64, u64),
    pub request_generation: u64,
}

impl Default for TaskViewState {
    fn default() -> (s: TaskViewState)
        ensures
            s.tasks@.len() == 0,
            s.status == TaskStatusFilter::Open,
            s.due == TaskDueFilter::Any,
            s.priority == TaskPriorityFilter::Any,
            s.query@.len() == 0,
            !s.text_input_active,
            s.visible@.len() == 0,
            s.selected == 0,
            s.scroll_offset == 0,
            s.row_hits@.len() == 0,
            s.filter_hits@.len() == 0,
            s.list_area == (Rect { x: 0, y: 0, width: 0, height: 0 }),
            !s.loading,
            !s.scanned_once,
            s.dirty,
            s.signature == (0u64, 0u64),
            s.request_generation == 0,
    {
        TaskViewState {
            tasks: Vec::new(),
            status: TaskStatusFilter::Open,
            due: TaskDueFilter::Any,
            priority: TaskPriorityFilter::Any,
            query: String::new(),
            text_input_active: false,
            visible: Vec::new(),
            selected: 0,
            scroll_offset: 0,
            row_hits: Vec::new(),
            filter_hits: Vec::new(),
            list_area: Rect::new(0, 0, 0, 0),
            loading: false,
            scanned_once: false,
            dirty: true,
            signature: (0, 0),
            request_generation: 0,
        }
    }
}

/// The scroll offset that shows row `selected` of `count` rows in a list
/// `height` rows tall: the old offset, pulled back so that no blank rows
/// trail the list, then moved just far enough to show the selection.
pub open spec fn clamped_offset(old_offset: int, selected: int, count: int, height: int) -> int {
    let max_offset = if count > height {
        count - height
    } else {
        0
    };
    let o = if old_offset < max_offset {
        old_offset
    } else {
        max_offset
    };
    if selected < o {
        selected
    } else if selected >= o + height {
        selected + 1 - height
    } else {
        o
    }
}

impl TaskViewState {
    /// Sort the tasks into view order and recompute `visible` from the active
    /// filters and the trimmed, lowercased query; the selection and scroll
    /// offset are pulled back into range.
    pub fn apply_filters(&mut self, today: Date)
        requires
            week_filter_reads_dates(old(self).tasks@, old(self).status, old(self).due, today) ==> week_end_valid(today),
        ensures
            final(self).tasks@.to_multiset() == old(self).tasks@.to_multiset(),
            tasks_sorted(final(self).tasks@),
            final(self).visible@ == passing_indices(
                final(self).tasks@,
                final(self).tasks@.len() as int,
                old(self).status,
                old(self).due,
                old(self).priority,
                unicode_lowercase(trim(old(self).query@)),
                today.day_number(),
            ),
            final(self).selected == if old(self).selected < final(self).visible@.len() {
                old(self).selected as int
            } else if final(self).visible@.len() == 0 {
                0
            } else {
                final(self).visible@.len() - 1
            },
            final(self).scroll_offset == if old(self).scroll_offset < final(self).selected {
                old(self).scroll_offset
            } else {
                final(self).selected
            },
            final(self).status == old(self).status,
            final(self).due == old(self).due,
            final(self).priority == old(self).priority,
            final(self).query@ == old(self).query@,
            final(self).text_input_active == old(self).text_input_active,
            final(self).loading == old(self).loading,
            final(self).scanned_once == old(self).scanned_once,
            final(self).dirty == old(self).dirty,
            final(self).signature == old(self).signature,
            final(self).request_generation == old(self).request_generation,
    {
        let ghost before = self.tasks@;
        sort_tasks(&mut self.tasks);
        proof {
            if week_filter_reads_dates(self.tasks@, self.status, self.due, today) {
                let i = choose|i: int|
                    0 <= i < self.tasks@.len() && status_passes(self.status, #[trigger] self.tasks@[i])
                        && due_from(self.tasks@[i], today);
                let t = self.tasks@[i];
                assert(self.tasks@.to_multiset().count(t) > 0) by {
                    self.tasks@.to_multiset_ensures();
                    assert(self.tasks@.contains(t));
                }
                assert(before.contains(t)) by {
                    before.to_multiset_ensures();
                }
                let j = choose|j: int| 0 <= j < before.len() && before[j] == t;
                assert(status_passes(self.status, before[j]) && due_from(before[j], today));
            }
        }
        let qs = chars_of(self.query.as_str());
        let (a, b) = trim_bounds(qs.as_slice());
        let trimmed = string_of_range(qs.as_slice(), a, b);
        let query = to_lowercase(trimmed.as_str());
        self.visible = filter_task_indices(
            self.tasks.as_slice(),
            self.status,
            self.due,
            self.priority,
            query.as_str(),
            today,
        );
        let last = if self.visible.len() == 0 {
            0
        } else {
            self.visible.len() - 1
        };
        if self.selected > last {
            self.selected = last;
        }
        if self.scroll_offset > self.selected {
            self.scroll_offset = self.selected;
        }
    }

    /// The selected task, if any row is visible.
    pub fn selected_task(&self) -> (r: Option<&Task>)
        ensures
            r == (if self.selected < self.visible@.len() && (self.visible@[self.selected as int] as int)
                < self.tasks@.len() {
                Some(&self.tasks@[self.visible@[self.selected as int] as int])
            } else {
                None
            }),
    {
        if self.selected < self.visible.len() {
            let index = self.visible[self.selected];
            if index < self.tasks.len() {
                return Some(&self.tasks[index]);
            }
        }
        None
    }

    /// True once at least one scan has completed.
    pub fn scanned_once(&self) -> (b: bool)
        ensures
            b == self.scanned_once,
    {
        self.scanned_once
    }

    /// True when any filter differs from its default.
    pub fn has_active_filters(&self) -> (b: bool)
        ensures
            b == (self.status != TaskStatusFilter::Open || self.due != TaskDueFilter::Any
                || self.priority != TaskPriorityFilter::Any || trim(self.query@).len() > 0),
    {
        if !self.status.is_default() || !self.due.is_default() || !self.priority.is_default() {
            return true;
        }
        let qs = chars_of(self.query.as_str());
        let (a, b) = trim_bounds(qs.as_slice());
        a < b
    }

    /// Bring `scroll_offset` into a range where the selection is visible and
    /// no blank rows trail the list when it fits.
    pub fn clamp_scroll(&mut self, list_height: usize)
        ensures
            final(self).visible@ == old(self).visible@,
            ({
                let count = old(self).visible@.len();
                if list_height == 0 || count == 0 {
                    &&& final(self).scroll_offset == 0
                    &&& final(self).selected == old(self).selected
                } else {
                    &&& final(self).selected == if old(self).selected < count {
                        old(self).selected as int
                    } else {
                        count - 1
                    }
                    &&& final(self).scroll_offset == clamped_offset(
                        old(self).scroll_offset as int,
                        final(self).selected as int,
                        count as int,
                        list_height as int,
                    )
                    &&& final(self).scroll_offset <= final(self).selected < final(self).scroll_offset
                        + list_height
                    &&& final(self).scroll_offset + list_height <= count || final(self).scroll_offset
                        == 0
                }
            }),
            final(self).tasks@ == old(self).tasks@,
            final(self).status == old(self).status,
            final(self).due == old(self).due,
            final(self).priority == old(self).priority,
            final(self).query@ == old(self).query@,
    {
        let count = self.visible.len();
        if list_height == 0 || count == 0 {
            self.scroll_offset = 0;
            return;
        }
        if self.selected > count - 1 {
            self.selected = count - 1;
        }
        let max_offset = if count > list_height {
            count - list_height
        } else {
            0
        };
        if self.scroll_offset > max_offset {
            self.scroll_offset = max_offset;
        }
        if self.selected < self.scroll_offset {
            self.scroll_offset = self.selected;
        } else if self.selected - self.scroll_offset >= list_height {
            self.scroll_offset = self.selected + 1 - list_height;
        }
    }

    /// Move the selection by `delta` rows, clamped to the visible rows.
    pub fn move_selection(&mut self, delta: isize)
        ensures
            final(self).visible@ == old(self).visible@,
            final(self).selected == ({
                let count = old(self).visible@.len();
                let target = old(self).selected + delta;
                if count == 0 || target < 0 {
                    0
                } else if target >= count {
                    count - 1
                } else {
                    target
                }
            }),
    {
        let count = self.visible.len();
        if count == 0 {
            self.selected = 0;
            return;
        }
        let target: usize = if delta < 0 {
            let magnitude: usize = ((-(delta + 1)) as usize) + 1;
            self.selected.saturating_sub(magnitude)
        } else {
            self.selected.saturating_add(delta as usize)
        };
        self.selected = if target > count - 1 {
            count - 1
        } else {
            target
        };
    }

    /// Select the row at `position`, clamped to the visible rows.
    pub fn select(&mut self, position: usize)
        ensures
            final(self).visible@ == old(self).visible@,
            final(self).selected == (if old(self).visible@.len() == 0 {
                0
            } else if position < old(self).visible@.len() {
                position as int
            } else {
                old(self).visible@.len() - 1
            }),
    {
        let count = self.visible.len();
        self.selected = if count == 0 {
            0
        } else if position > count - 1 {
            count - 1
        } else {
            position
        };
    }
}

/// The status filter after `next`.
pub open spec fn next_status(s: TaskStatusFilter) -> TaskStatusFilter {
    match s {
        TaskStatusFilter::Open => TaskStatusFilter::Done,
        TaskStatusFilter::Done => TaskStatusFilter::All,
        TaskStatusFilter::All => TaskStatusFilter::Open,
    }
}

/// The due filter after `next`.
pub open spec fn next_due(d: TaskDueFilter) -> TaskDueFilter {
    match d {
        TaskDueFilter::Any => TaskDueFilter::Overdue,
        TaskDueFilter::Overdue => TaskDueFilter::Today,
        TaskDueFilter::Today => TaskDueFilter::Week,
        TaskDueFilter::Week => TaskDueFilter::Any,
    }
}

/// The priority filter after `next`.
pub open spec fn next_priority(p: TaskPriorityFilter) -> TaskPriorityFilter {
    match p {
        TaskPriorityFilter::Any => TaskPriorityFilter::High,
        TaskPriorityFilter::High => TaskPriorityFilter::Medium,
        TaskPriorityFilter::Medium => TaskPriorityFilter::Low,
        TaskPriorityFilter::Low => TaskPriorityFilter::Any,
    }
}

/// Each filter control cycles back to where it started: three presses for
/// the status filter, four for the due-date and priority filters.
pub proof fn lemma_task_filters_cycle(s: TaskStatusFilter, d: TaskDueFilter, p: TaskPriorityFilter)
    ensures
        next_status(next_status(next_status(s))) == s,
        next_due(next_due(next_due(next_due(d)))) == d,
        next_priority(next_priority(next_priority(next_priority(p)))) == p,
{
}

/// What re-running the filters leaves in `after`: the tasks of `before` in
/// view order, the rows that pass the filters of `after`, and the selection
/// and scroll offset of `before` pulled back into range.
pub open spec fn refiltered(before: TaskViewState, after: TaskViewState, today: Date) -> bool {
    &&& after.tasks@.to_multiset() == before.tasks@.to_multiset()
    &&& tasks_sorted(after.tasks@)
    &&& after.visible@ == passing_indices(
        after.tasks@,
        after.tasks@.len() as int,
        after.status,
        after.due,
        after.priority,
        unicode_lowercase(trim(after.query@)),
        today.day_number(),
    )
    &&& after.selected == if before.selected < after.visible@.len() {
        before.selected as int
    } else if after.visible@.len() == 0 {
        0
    } else {
        after.visible@.len() - 1
    }
    &&& after.scroll_offset == if before.scroll_offset < after.selected {
        before.scroll_offset
    } else {
        after.selected
    }
}

impl TaskViewState {
    /// Advances one filter to its next value and re-runs the filters, or,
    /// for the search control, starts typing a query.
    pub fn cycle_task_filter(&mut self, kind: TaskFilterKind, today: Date)
        requires
            kind != TaskFilterKind::Search && week_filter_reads_dates(
                old(self).tasks@,
                if kind == TaskFilterKind::Status {
                    next_status(old(self).status)
                } else {
                    old(self).status
                },
                if kind == TaskFilterKind::Due {
                    next_due(old(self).due)
                } else {
                    old(self).due
                }, today) ==> week_end_valid(today),
        ensures
            kind == TaskFilterKind::Search ==> *final(self) == (TaskViewState {
                text_input_active: true,
                ..*old(self)
            }),
            kind != TaskFilterKind::Search ==> {
                &&& final(self).status == if kind == TaskFilterKind::Status {
                    next_status(old(self).status)
                } else {
                    old(self).status
                }
                &&& final(self).due == if kind == TaskFilterKind::Due {
                    next_due(old(self).due)
                } else {
                    old(self).due
                }
                &&& final(self).priority == if kind == TaskFilterKind::Priority {
                    next_priority(old(self).priority)
                } else {
                    old(self).priority
                }
                &&& final(self).query@ == old(self).query@
                &&& final(self).text_input_active == old(self).text_input_active
                &&& refiltered(*old(self), *final(self), today)
            },
    {
        match kind {
            TaskFilterKind::Status => {
                self.status = self.status.next();
            },
            TaskFilterKind::Due => {
                self.due = self.due.next();
            },
            TaskFilterKind::Priority => {
                self.priority = self.priority.next();
            },
            TaskFilterKind::Search => {
                self.text_input_active = true;
                return;
            },
        }
        self.apply_filters(today);
    }

    /// Resets every filter and the query, stops typing, and re-runs the
    /// filters.
    pub fn clear_task_filters(&mut self, today: Date)
        ensures
            final(self).status == TaskStatusFilter::Open,
            final(self).due == TaskDueFilter::Any,
            final(self).priority == TaskPriorityFilter::Any,
            final(self).query@.len() == 0,
            !final(self).text_input_active,
            refiltered(*old(self), *final(self), today),
    {
        self.status = TaskStatusFilter::Open;
        self.due = TaskDueFilter::Any;
        self.priority = TaskPriorityFilter::Any;
        self.query = String::new();
        self.text_input_active = false;
        self.apply_filters(today);
    }

    /// Selects the first row.
    pub fn task_select_first(&mut self)
        ensures
            final(self).visible@ == old(self).visible@,
            final(self).selected == 0,
    {
        self.select(0);
    }

    /// Selects the last row (the first when none is visible).
    pub fn task_select_last(&mut self)
        ensures
            final(self).visible@ == old(self).visible@,
            final(self).selected == if old(self).visible@.len() == 0 {
                0
            } else {
                old(self).visible@.len() - 1
            },
    {
        let last = if self.visible.len() == 0 {
            0
        } else {
            self.visible.len() - 1
        };
        self.select(last);
    }

    /// Whether the open view must ask for a fresh scan: it was marked dirty,
    /// the notes changed since the last request (`signature` differs from
    /// the one recorded then), or no scan has run or is running yet.
    pub fn needs_task_scan(&self, signature: (u64, u64)) -> (b: bool)
        ensures
            b == (self.dirty || self.signature != signature || (!self.loading && !self.scanned_once)),
    {
        let changed = self.dirty || self.signature.0 != signature.0 || self.signature.1 != signature.1;
        changed || (!self.loading && !self.scanned_once)
    }

    /// Records a scan request for notes with `signature`; `generation` is
    /// what the worker handed back, or `None` when no worker was there. Then
    /// the view stops waiting and counts as scanned, and the result is
    /// `true`: the scanner is unavailable and the caller says so.
    pub fn record_task_scan_request(&mut self, signature: (u64, u64), generation: Option<u64>) -> (unavailable: bool)
        ensures
            unavailable == generation is None,
            !final(self).dirty,
            final(self).signature == signature,
            generation is Some ==> {
                &&& final(self).request_generation == generation->0
                &&& final(self).loading
                &&& final(self).scanned_once == old(self).scanned_once
            },
            generation is None ==> {
                &&& final(self).request_generation == old(self).request_generation
                &&& !final(self).loading
                &&& final(self).scanned_once
            },
            final(self).tasks@ == old(self).tasks@,
            final(self).visible@ == old(self).visible@,
            final(self).selected == old(self).selected,
            final(self).scroll_offset == old(self).scroll_offset,
    {
        self.dirty = false;
        self.signature = signature;
        match generation {
            Some(g) => {
                self.request_generation = g;
                self.loading = true;
                false
            },
            None => {
                self.loading = false;
                self.scanned_once = true;
                true
            },
        }
    }

    /// Takes a finished scan. The tasks of the latest request replace the
    /// list, the view stops waiting, counts as scanned and re-runs its
    /// filters; a response to an older request is ignored. Returns whether
    /// the list was replaced.
    pub fn receive_task_scan(&mut self, generation: u64, tasks: Vec<Task>, today: Date) -> (taken: bool)
        requires
            generation == old(self).request_generation && week_filter_reads_dates(
                tasks@,
                old(self).status,
                old(self).due, today) ==> week_end_valid(today),
        ensures
            taken == (generation == old(self).request_generation),
            !taken ==> *final(self) == *old(self),
            taken ==> {
                &&& final(self).tasks@.to_multiset() == tasks@.to_multiset()
                &&& !final(self).loading
                &&& final(self).scanned_once
                &&& final(self).status == old(self).status
                &&& final(self).due == old(self).due
                &&& final(self).priority == old(self).priority
                &&& final(self).query@ == old(self).query@
                &&& refiltered(TaskViewState { tasks: tasks, ..*old(self) }, *final(self), today)
            },
    {
        if generation != self.request_generation {
            return false;
        }
        self.tasks = tasks;
        self.loading = false;
        self.scanned_once = true;
        self.apply_filters(today);
        true
    }
}

/// What a left click in the task view lands on.
#[derive(Debug, Clone, Copy, PartialEq, Eq, Structural)]
pub enum TaskViewClick {
    /// A filter control in the header.
    Filter(TaskFilterKind),
    /// A task row, and whether the click is on its checkbox.
    Row { position: usize, on_checkbox: bool },
}

impl TaskViewState {
    /// What a left click at (`column`, `row`) lands on: the first filter
    /// control recorded by the renderer that holds it, else the first task
    /// row that does; `None` elsewhere.
    pub fn task_view_click(&self, column: u16, row: u16) -> (r: Option<TaskViewClick>)
        ensures
            ({
                let p = Position { x: column, y: row };
                let fs = self.filter_hits@;
                let rs = self.row_hits@;
                if exists|i: int| 0 <= i < fs.len() && #[trigger] fs[i].1.holds(p) {
                    exists|i: int|
                        0 <= i < fs.len() && #[trigger] fs[i].1.holds(p) && (forall|j: int|
                            0 <= j < i ==> !#[trigger] fs[j].1.holds(p)) && r == Some(TaskViewClick::Filter(fs[i].0))
                } else if exists|i: int| 0 <= i < rs.len() && #[trigger] rs[i].row.holds(p) {
                    exists|i: int|
                        0 <= i < rs.len() && #[trigger] rs[i].row.holds(p) && (forall|j: int|
                            0 <= j < i ==> !#[trigger] rs[j].row.holds(p)) && r == Some(
                            TaskViewClick::Row { position: rs[i].position, on_checkbox: rs[i].checkbox.holds(p) },
                        )
                } else {
                    r is None
                }
            }),
    {
        let p = Position::new(column, row);
        let nf = self.filter_hits.len();
        let mut i: usize = 0;
        while i < nf
            invariant
                nf == self.filter_hits.len(),
                p == (Position { x: column, y: row }),
                i <= nf,
                forall|j: int| 0 <= j < i ==> !#[trigger] self.filter_hits@[j].1.holds(p),
            decreases nf - i,
        {
            let (kind, rect) = self.filter_hits[i];
            if rect.contains(p) {
                let r = Some(TaskViewClick::Filter(kind));
                assert(self.filter_hits@[i as int].1.holds(p));
                assert(kind == self.filter_hits@[i as int].0);
                return r;
            }
            i += 1;
        }
        let nr = self.row_hits.len();
        let mut k: usize = 0;
        while k < nr
            invariant
                nr == self.row_hits.len(),
                p == (Position { x: column, y: row }),
                k <= nr,
                forall|j: int| 0 <= j < nf ==> !#[trigger] self.filter_hits@[j].1.holds(p),
                nf == self.filter_hits.len(),
                forall|j: int| 0 <= j < k ==> !#[trigger] self.row_hits@[j].row.holds(p),
            decreases nr - k,
        {
            let hit = self.row_hits[k];
            if hit.row.contains(p) {
                let r = Some(TaskViewClick::Row { position: hit.position, on_checkbox: hit.checkbox.contains(p) });
                assert(self.row_hits@[k as int].row.holds(p));
                assert(hit == self.row_hits@[k as int]);
                return r;
            }
            k += 1;
        }
        None
    }

    /// The rows the selection moves when the wheel turns over (`column`,
    /// `row`): one up or down inside the task list, none elsewhere.
    pub fn task_view_wheel_step(&self, column: u16, row: u16, up: bool) -> (r: Option<isize>)
        ensures
            r == if self.list_area.holds(Position { x: column, y: row }) {
                Some(if up {
                    -1isize
                } else {
                    1isize
                })
            } else {
                None
            },
    {
        if self.list_area.contains(Position::new(column, row)) {
            Some(
                if up {
                    -1
                } else {
                    1
                },
            )
        } else {
            None
        }
    }
}

/// What each filter promises of a task it lets through: "open" and "done"
/// by the checkbox; "overdue" an unticked task due before today; "today"
/// due today; "this week" due from today through seven days later; a
/// priority filter that exact priority; a query text found in the
/// lowercased text or note title.
pub open spec fn filters_promise(
    t: Task,
    status: TaskStatusFilter,
    due: TaskDueFilter,
    priority: TaskPriorityFilter,
    query: Seq<char>,
    today: int,
) -> bool {
    &&& (status == TaskStatusFilter::Open ==> !t.checked)
    &&& (status == TaskStatusFilter::Done ==> t.checked)
    &&& (due == TaskDueFilter::Overdue ==> !t.checked && (t.due matches Some(d) && d.day_number() < today))
    &&& (due == TaskDueFilter::Today ==> (t.due matches Some(d) && d.day_number() == today))
    &&& (due == TaskDueFilter::Week ==> (t.due matches Some(d) && today <= d.day_number() && d.day_number()
        <= today + 7))
    &&& (priority == TaskPriorityFilter::High ==> t.priority == Some(Priority::High))
    &&& (priority == TaskPriorityFilter::Medium ==> t.priority == Some(Priority::Medium))
    &&& (priority == TaskPriorityFilter::Low ==> t.priority == Some(Priority::Low))
    &&& (query.len() > 0 ==> find_from(unicode_lowercase(t.text@), query, 0) is Some || find_from(
        unicode_lowercase(t.note_title@),
        query,
        0,
    ) is Some)
}

/// The filtered indices are increasing, point into the list, and each
/// task listed keeps every filter's promise (see [`filters_promise`]); a
/// completed task is never overdue.
pub proof fn lemma_filtered_tasks_keep_promises(
    ts: Seq<Task>,
    k: int,
    status: TaskStatusFilter,
    due: TaskDueFilter,
    priority: TaskPriorityFilter,
    query: Seq<char>,
    today: int,
)
    requires
        0 <= k <= ts.len(),
        ts.len() <= usize::MAX,
    ensures
        ({
            let r = passing_indices(ts, k, status, due, priority, query, today);
            &&& forall|m: int| 0 <= m < r.len() ==> #[trigger] r[m] < k
            &&& forall|m: int, n: int| 0 <= m < n < r.len() ==> #[trigger] r[m] < #[trigger] r[n]
            &&& forall|m: int|
                0 <= m < r.len() ==> filters_promise(ts[#[trigger] r[m] as int], status, due, priority, query, today)
        }),
    decreases k,
{
    if k > 0 {
        lemma_filtered_tasks_keep_promises(ts, k - 1, status, due, priority, query, today);
        let prev = passing_indices(ts, k - 1, status, due, priority, query, today);
        let r = passing_indices(ts, k, status, due, priority, query, today);
        if task_passes(ts[k - 1], status, due, priority, query, today) {
            assert(r == prev.push((k - 1) as usize));
            assert forall|m: int| 0 <= m < r.len() implies #[trigger] r[m] < k && filters_promise(
                ts[r[m] as int],
                status,
                due,
                priority,
                query,
                today,
            ) by {
                if m < prev.len() {
                    assert(r[m] == prev[m]);
                }
            }
            assert forall|m: int, n: int| 0 <= m < n < r.len() implies #[trigger] r[m] < #[trigger] r[n] by {
                assert(r[m] == prev[m]);
                if n < prev.len() {
                    assert(r[n] == prev[n]);
                }
            }
        }
    }
}

/// With every filter open (all tasks, any date, any priority, no query)
/// the view lists every task, in order.
pub proof fn lemma_open_filters_list_everything(ts: Seq<Task>, k: int, today: int)
    requires
        0 <= k <= ts.len(),
        ts.len() <= usize::MAX,
    ensures
        ({
            let r = passing_indices(
                ts,
                k,
                TaskStatusFilter::All,
                TaskDueFilter::Any,
                TaskPriorityFilter::Any,
                Seq::empty(),
                today,
            );
            &&& r.len() == k
            &&& forall|m: int| 0 <= m < k ==> #[trigger] r[m] == m
        }),
    decreases k,
{
    if k > 0 {
        lemma_open_filters_list_everything(ts, k - 1, today);
        let prev = passing_indices(
            ts,
            k - 1,
            TaskStatusFilter::All,
            TaskDueFilter::Any,
            TaskPriorityFilter::Any,
            Seq::empty(),
            today,
        );
        let r = passing_indices(
            ts,
            k,
            TaskStatusFilter::All,
            TaskDueFilter::Any,
            TaskPriorityFilter::Any,
            Seq::empty(),
            today,
        );
        assert(r == prev.push((k - 1) as usize));
        assert forall|m: int| 0 <= m < k implies #[trigger] r[m] == m by {
            if m < k - 1 {
                assert(r[m] == prev[m]);
            }
        }
    }
}

/// When a task gets through the filters: the status filter lets all
/// tasks, only open or only done ones through; the due filter any task,
/// only unticked tasks due before today, tasks due today, or tasks due
/// within the coming week; the priority filter any task or only that
/// priority; and a nonempty query only tasks whose lowercased text or note
/// title contains it.
pub open spec fn gets_through(
    t: Task,
    status: TaskStatusFilter,
    due: TaskDueFilter,
    priority: TaskPriorityFilter,
    query: Seq<char>,
    today: int,
) -> bool {
    &&& (status == TaskStatusFilter::All || (status == TaskStatusFilter::Open && !t.checked) || (status
        == TaskStatusFilter::Done && t.checked))
    &&& (due == TaskDueFilter::Any || (due == TaskDueFilter::Overdue && !t.checked && (t.due matches Some(d)
        && d.day_number() < today)) || (due == TaskDueFilter::Today && (t.due matches Some(d) && d.day_number()
        == today)) || (due == TaskDueFilter::Week && (t.due matches Some(d) && today <= d.day_number()
        && d.day_number() <= today + 7)))
    &&& (priority == TaskPriorityFilter::Any || (priority == TaskPriorityFilter::High && t.priority == Some(
        Priority::High,
    )) || (priority == TaskPriorityFilter::Medium && t.priority == Some(Priority::Medium)) || (priority
        == TaskPriorityFilter::Low && t.priority == Some(Priority::Low)))
    &&& (query.len() == 0 || find_from(unicode_lowercase(t.text@), query, 0) is Some || find_from(
        unicode_lowercase(t.note_title@),
        query,
        0,
    ) is Some)
}

/// A task is listed exactly when it gets through every filter (see
/// [`gets_through`]).
pub proof fn lemma_listed_iff_gets_through(
    ts: Seq<Task>,
    k: int,
    status: TaskStatusFilter,
    due: TaskDueFilter,
    priority: TaskPriorityFilter,
    query: Seq<char>,
    today: int,
)
    requires
        0 <= k <= ts.len(),
        ts.len() <= usize::MAX,
    ensures
        forall|i: int|
            0 <= i < k ==> ((exists|m: int|
                0 <= m < passing_indices(ts, k, status, due, priority, query, today).len() && #[trigger] passing_indices(
                    ts,
                    k,
                    status,
                    due,
                    priority,
                    query,
                    today,
                )[m] == i) <==> gets_through(#[trigger] ts[i], status, due, priority, query, today)),
    decreases k,
{
    if k > 0 {
        lemma_listed_iff_gets_through(ts, k - 1, status, due, priority, query, today);
        lemma_filtered_tasks_keep_promises(ts, k - 1, status, due, priority, query, today);
        let prev = passing_indices(ts, k - 1, status, due, priority, query, today);
        let r = passing_indices(ts, k, status, due, priority, query, today);
        assert(task_passes(ts[k - 1], status, due, priority, query, today) == gets_through(
            ts[k - 1],
            status,
            due,
            priority,
            query,
            today,
        ));
        assert forall|i: int| 0 <= i < k implies ((exists|m: int| 0 <= m < r.len() && #[trigger] r[m] == i)
            <==> gets_through(#[trigger] ts[i], status, due, priority, query, today)) by {
            assert(task_passes(ts[i], status, due, priority, query, today) == gets_through(
                ts[i],
                status,
                due,
                priority,
                query,
                today,
            ));
            if task_passes(ts[k - 1], status, due, priority, query, today) {
                assert(r == prev.push((k - 1) as usize));
                if i < k - 1 {
                    if exists|m: int| 0 <= m < r.len() && #[trigger] r[m] == i {
                        let m = choose|m: int| 0 <= m < r.len() && #[trigger] r[m] == i;
                        if m == prev.len() {
                            assert(r[m] == k - 1);
                        } else {
                            assert(prev[m] == i);
                        }
                    }
                    if exists|m: int| 0 <= m < prev.len() && #[trigger] prev[m] == i {
                        let m = choose|m: int| 0 <= m < prev.len() && #[trigger] prev[m] == i;
                        assert(r[m] == i);
                    }
                } else {
                    assert(r[prev.len() as int] == i);
                }
            } else {
                if i == k - 1 {
                    if exists|m: int| 0 <= m < r.len() && #[trigger] r[m] == i {
                        let m = choose|m: int| 0 <= m < r.len() && #[trigger] r[m] == i;
                        assert(r[m] < k - 1);
                    }
                }
            }
        }
    }
}

} // verus!
