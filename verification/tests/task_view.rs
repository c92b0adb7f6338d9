use ekphos::date::Date;
use ekphos::display::{fit, truncate, Columns, CHECKBOX_WIDTH, COLUMN_GAP, DATE_WIDTH, MAX_NOTE_WIDTH, MIN_TEXT_WIDTH, PRIORITY_WIDTH};
use ekphos::task_view::{filter_task_indices, TaskDueFilter, TaskFilterKind, TaskPriorityFilter, TaskStatusFilter, TaskViewState};
use ekphos::tasks::{NoteId, Priority, Task};
use unicode_width::UnicodeWidthStr;
use ekphos::geometry::Rect;
use ekphos::task_view::{TaskRowHit, TaskViewClick};

fn task(text: &str, checked: bool, due: Option<Date>, priority: Option<Priority>) -> Task {
    Task { note_id: NoteId::new(1), path: "a.md".into(), note_title: "A".into(), source_line: 0, indent: 0, text: text.into(), checked, due, start: None, done: None, priority }
}

fn today() -> Date {
    Date::parse("2026-09-04").unwrap()
}

fn state_with(count: usize) -> TaskViewState {
    let mut state = TaskViewState { tasks: (0..count).map(|index| task(&format!("task {index}"), false, None, None)).collect(), status: TaskStatusFilter::All, ..Default::default() };
    state.apply_filters(today());
    state
}

#[test]
fn filters_narrow_by_status_due_priority_and_query() {
    let tasks = vec![task("overdue", false, Some(Date::parse("2026-01-01").unwrap()), Some(Priority::High)), task("today", false, Some(today()), None), task("done today", true, Some(today()), None), task("plain", false, None, None)];
    let open = filter_task_indices(&tasks, TaskStatusFilter::Open, TaskDueFilter::Any, TaskPriorityFilter::Any, "", today());
    assert_eq!(open, [0, 1, 3]);
    let overdue = filter_task_indices(&tasks, TaskStatusFilter::Open, TaskDueFilter::Overdue, TaskPriorityFilter::Any, "", today());
    assert_eq!(overdue, [0]);
    let due_today = filter_task_indices(&tasks, TaskStatusFilter::All, TaskDueFilter::Today, TaskPriorityFilter::Any, "", today());
    assert_eq!(due_today, [1, 2]);
    let high = filter_task_indices(&tasks, TaskStatusFilter::Open, TaskDueFilter::Any, TaskPriorityFilter::High, "", today());
    assert_eq!(high, [0]);
    let query = filter_task_indices(&tasks, TaskStatusFilter::Open, TaskDueFilter::Any, TaskPriorityFilter::Any, "plain", today());
    assert_eq!(query, [3]);
    let none = filter_task_indices(&tasks, TaskStatusFilter::Open, TaskDueFilter::Any, TaskPriorityFilter::Any, "zzz", today());
    assert!(none.is_empty());
}

#[test]
fn selection_moves_and_clamps_within_visible_rows() {
    let mut state = state_with(5);
    state.move_selection(3);
    assert_eq!(state.selected, 3);
    state.move_selection(10);
    assert_eq!(state.selected, 4);
    state.move_selection(-100);
    assert_eq!(state.selected, 0);
    state.select(99);
    assert_eq!(state.selected, 4);
    let mut empty = state_with(0);
    empty.move_selection(1);
    empty.select(3);
    assert_eq!(empty.selected, 0);
}

#[test]
fn scroll_follows_selection_and_never_leaves_blank_rows() {
    let mut state = state_with(20);
    state.selected = 15;
    state.clamp_scroll(5);
    assert_eq!(state.scroll_offset, 11);
    state.selected = 2;
    state.clamp_scroll(5);
    assert_eq!(state.scroll_offset, 2);
    state.scroll_offset = 50;
    state.selected = 19;
    state.clamp_scroll(5);
    assert_eq!(state.scroll_offset, 15);
    state.clamp_scroll(0);
    assert_eq!(state.scroll_offset, 0);
    let mut few = state_with(3);
    few.scroll_offset = 2;
    few.selected = 2;
    few.clamp_scroll(10);
    assert_eq!(few.scroll_offset, 0);
}

#[test]
fn scroll_stays_put_while_the_selection_is_shown() {
    let mut state = state_with(20);
    state.scroll_offset = 7;
    state.selected = 9;
    state.clamp_scroll(5);
    assert_eq!(state.scroll_offset, 7);
    state.selected = 11;
    state.clamp_scroll(5);
    assert_eq!(state.scroll_offset, 7);
    state.selected = 12;
    state.clamp_scroll(5);
    assert_eq!(state.scroll_offset, 8);
}

#[test]
fn apply_filters_keeps_selection_in_range_after_shrinking() {
    let mut state = state_with(10);
    state.selected = 9;
    state.scroll_offset = 6;
    state.query = "task 1".into();
    state.apply_filters(today());
    assert_eq!(state.visible, [1]);
    assert_eq!(state.selected, 0);
    assert_eq!(state.scroll_offset, 0);
    assert!(state.has_active_filters());
    assert_eq!(state.selected_task().map(|task| task.text.as_str()), Some("task 1"));
}

#[test]
fn filters_cycle_and_know_their_defaults() {
    assert_eq!(TaskStatusFilter::Open.next(), TaskStatusFilter::Done);
    assert_eq!(TaskStatusFilter::All.next(), TaskStatusFilter::Open);
    assert_eq!(TaskDueFilter::Week.next(), TaskDueFilter::Any);
    assert_eq!(TaskPriorityFilter::Low.next(), TaskPriorityFilter::Any);
    assert_eq!(TaskDueFilter::Week.label(), "this week");
    assert!(TaskStatusFilter::Open.is_default() && !TaskStatusFilter::Done.is_default());
    assert!(TaskDueFilter::Any.is_default() && TaskPriorityFilter::Any.is_default());
}

#[test]
fn week_filter_covers_seven_days_from_today() {
    let tasks = vec![
        task("past", false, Some(Date::parse("2026-09-03").unwrap()), None),
        task("now", false, Some(today()), None),
        task("edge", false, Some(Date::parse("2026-09-11").unwrap()), None),
        task("later", false, Some(Date::parse("2026-09-12").unwrap()), None),
    ];
    let week = filter_task_indices(&tasks, TaskStatusFilter::All, TaskDueFilter::Week, TaskPriorityFilter::Any, "", today());
    assert_eq!(week, [1, 2]);
}

#[test]
fn query_matches_note_titles_case_insensitively() {
    let mut titled = task("x", false, None, None);
    titled.note_title = "Groceries".into();
    let tasks = vec![titled, task("y", false, None, None)];
    assert_eq!(filter_task_indices(&tasks, TaskStatusFilter::All, TaskDueFilter::Any, TaskPriorityFilter::Any, "groc", today()), [0]);
}

#[test]
fn default_state_has_no_active_filters() {
    let mut state = TaskViewState::default();
    assert!(!state.has_active_filters());
    state.query = "   ".into();
    assert!(!state.has_active_filters());
    assert!(state.selected_task().is_none());
}

#[test]
fn truncate_limits_text_to_available_columns() {
    assert_eq!(truncate("hello", 10), "hello");
    assert_eq!(truncate("hello", 5), "hello");
    assert_eq!(truncate("hello", 3), "he…");
    assert_eq!(truncate("hello", 1), "…");
    assert_eq!(truncate("hello", 0), "");
    assert_eq!(truncate("日本語です", 5), "日本…");
}

#[test]
fn fit_pads_to_exact_width_including_wide_glyphs() {
    assert_eq!(fit("ab", 4), "ab  ");
    assert_eq!(fit("📅 2026-06-01", DATE_WIDTH).width(), DATE_WIDTH);
    assert_eq!(fit("⏫", PRIORITY_WIDTH), "⏫ ");
    assert_eq!(fit("a very long title", 6), "a ver…");
    assert_eq!(fit("", 3), "   ");
}

#[test]
fn columns_drop_from_the_right_as_width_shrinks() {
    let wide = Columns::fit(120);
    assert!(wide.priority && wide.date);
    assert_eq!(wide.note, MAX_NOTE_WIDTH);
    assert_eq!(wide.text, 120 - CHECKBOX_WIDTH - wide.trailing_width());

    let medium = Columns::fit(60);
    assert!(medium.priority && medium.date);
    assert_eq!(medium.note, 15);
    assert!(medium.text >= MIN_TEXT_WIDTH);

    let narrow = Columns::fit(40);
    assert_eq!(narrow.note, 0);
    assert!(narrow.date && narrow.priority);
    assert_eq!(narrow.text, 40 - CHECKBOX_WIDTH - COLUMN_GAP - PRIORITY_WIDTH - COLUMN_GAP - DATE_WIDTH);

    let tiny = Columns::fit(22);
    assert!(!tiny.date && tiny.priority && tiny.note == 0);
    assert_eq!(tiny.text, 22 - CHECKBOX_WIDTH - COLUMN_GAP - PRIORITY_WIDTH);

    let bare = Columns::fit(20);
    assert!(!bare.priority && !bare.date && bare.note == 0);
    assert_eq!(bare.text, 16);

    let minimal = Columns::fit(6);
    assert!(!minimal.priority && !minimal.date && minimal.note == 0);
    assert_eq!(minimal.text, 2);
    assert_eq!(Columns::fit(0).text, 0);
}

#[test]
fn cycling_a_filter_refilters_and_search_starts_typing() {
    let mut state = TaskViewState { tasks: vec![task("open", false, None, None), task("done", true, None, None)], ..Default::default() };
    state.apply_filters(today());
    assert_eq!(state.visible.len(), 1);
    assert!(!state.tasks[state.visible[0]].checked);
    state.cycle_task_filter(TaskFilterKind::Status, today());
    assert_eq!(state.status, TaskStatusFilter::Done);
    assert_eq!(state.visible.len(), 1);
    assert!(state.tasks[state.visible[0]].checked);
    state.cycle_task_filter(TaskFilterKind::Status, today());
    assert_eq!(state.visible.len(), 2);
    state.cycle_task_filter(TaskFilterKind::Priority, today());
    assert_eq!(state.priority, TaskPriorityFilter::High);
    assert!(state.visible.is_empty());
    state.cycle_task_filter(TaskFilterKind::Due, today());
    assert_eq!(state.due, TaskDueFilter::Overdue);
    assert!(!state.text_input_active);
    state.cycle_task_filter(TaskFilterKind::Search, today());
    assert!(state.text_input_active);
    assert_eq!(state.due, TaskDueFilter::Overdue);
}

#[test]
fn clearing_filters_restores_defaults() {
    let mut state = state_with(3);
    state.priority = TaskPriorityFilter::Low;
    state.query = "zzz".to_string();
    state.text_input_active = true;
    state.apply_filters(today());
    assert!(state.visible.is_empty());
    state.clear_task_filters(today());
    assert_eq!(state.status, TaskStatusFilter::Open);
    assert_eq!(state.priority, TaskPriorityFilter::Any);
    assert!(state.query.is_empty());
    assert!(!state.text_input_active);
    assert_eq!(state.visible.len(), 3);
    assert!(!state.has_active_filters());
}

#[test]
fn first_and_last_select_the_ends() {
    let mut state = state_with(4);
    state.task_select_last();
    assert_eq!(state.selected, 3);
    state.task_select_first();
    assert_eq!(state.selected, 0);
    let mut empty = state_with(0);
    empty.task_select_last();
    assert_eq!(empty.selected, 0);
}

#[test]
fn scans_are_requested_when_stale_and_only_the_latest_is_taken() {
    let mut state = TaskViewState::default();
    assert!(state.needs_task_scan((0, 0)));
    assert!(!state.record_task_scan_request((3, 4), Some(7)));
    assert!(state.loading);
    assert!(!state.needs_task_scan((3, 4)));
    assert!(state.needs_task_scan((3, 5)));
    assert!(!state.receive_task_scan(6, vec![task("old", false, None, None)], today()));
    assert!(state.tasks.is_empty());
    assert!(state.receive_task_scan(7, vec![task("new", false, None, None)], today()));
    assert!(!state.loading);
    assert!(state.scanned_once());
    assert_eq!(state.visible, vec![0]);
    assert!(!state.needs_task_scan((3, 4)));
    state.dirty = true;
    assert!(state.needs_task_scan((3, 4)));
}

#[test]
fn a_missing_scanner_ends_the_wait() {
    let mut state = TaskViewState::default();
    assert!(state.record_task_scan_request((1, 1), None));
    assert!(!state.loading);
    assert!(state.scanned_once());
    assert!(!state.dirty);
    assert!(!state.needs_task_scan((1, 1)));
}

#[test]
fn clicks_hit_filters_before_rows_and_find_checkboxes() {
    let mut state = state_with(3);
    state.filter_hits = vec![(TaskFilterKind::Status, Rect::new(0, 0, 10, 1)), (TaskFilterKind::Due, Rect::new(10, 0, 10, 1))];
    state.row_hits = vec![
        TaskRowHit { position: 0, row: Rect::new(0, 2, 40, 1), checkbox: Rect::new(2, 2, 3, 1) },
        TaskRowHit { position: 1, row: Rect::new(0, 3, 40, 1), checkbox: Rect::new(2, 3, 3, 1) },
    ];
    state.list_area = Rect::new(0, 2, 40, 10);
    assert_eq!(state.task_view_click(12, 0), Some(TaskViewClick::Filter(TaskFilterKind::Due)));
    assert_eq!(state.task_view_click(3, 3), Some(TaskViewClick::Row { position: 1, on_checkbox: true }));
    assert_eq!(state.task_view_click(20, 2), Some(TaskViewClick::Row { position: 0, on_checkbox: false }));
    assert_eq!(state.task_view_click(20, 8), None);
    assert_eq!(state.task_view_wheel_step(5, 8, true), Some(-1));
    assert_eq!(state.task_view_wheel_step(5, 8, false), Some(1));
    assert_eq!(state.task_view_wheel_step(5, 0, true), None);
}
