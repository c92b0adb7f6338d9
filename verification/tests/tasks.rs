use ekphos::date::Date;
use ekphos::tasks::{
    collect_tasks, locate_task_line, parse_task_line, set_checked, sort_tasks, strip_metadata, DueState,
    NoteId, Priority, Task,
};

fn date(value: &str) -> Date {
    Date::parse(value).unwrap()
}

#[test]
fn parses_dash_star_and_plus_markers() {
    for marker in ["- [ ] task", "* [x] task", "+ [X] task"] {
        let parsed = parse_task_line(marker).expect("task");
        assert_eq!(parsed.body, "task");
        assert_eq!(parsed.checked, marker.contains("[x]") || marker.contains("[X]"));
        assert_eq!(parsed.indent, 0);
        assert_eq!(parsed.body_offset, 6);
    }
    assert!(parse_task_line("- task").is_none());
    assert!(parse_task_line("-[]task").is_none());
    assert!(parse_task_line("regular text").is_none());
}

#[test]
fn parses_indented_tasks_with_tab_stops() {
    let parsed = parse_task_line("  - [ ] nested").unwrap();
    assert_eq!(parsed.indent, 2);
    let parsed = parse_task_line("\t- [ ] nested").unwrap();
    assert_eq!(parsed.indent, 4);
}

#[test]
fn extracts_due_start_done_and_priority() {
    let parsed = parse_task_line("- [ ] Pay rent 🛫 2026-05-01 📅 2026-06-01 ⏫").unwrap();
    assert_eq!(parsed.due, Some(date("2026-06-01")));
    assert_eq!(parsed.start, Some(date("2026-05-01")));
    assert_eq!(parsed.done, None);
    assert_eq!(parsed.priority, Some(Priority::High));

    let parsed = parse_task_line("- [x] Submitted ✅ 2026-05-30 🔽").unwrap();
    assert_eq!(parsed.done, Some(date("2026-05-30")));
    assert_eq!(parsed.priority, Some(Priority::Low));
    assert!(parsed.checked);
}

#[test]
fn invalid_dates_are_ignored() {
    let parsed = parse_task_line("- [ ] task 📅 notadate").unwrap();
    assert_eq!(parsed.due, None);
}

#[test]
fn set_checked_stamps_and_removes_completion_date() {
    let today = date("2026-09-04");
    let line = "- [ ] Pay rent 📅 2026-06-01";
    let done = set_checked(line, true, today).unwrap();
    assert_eq!(done, format!("- [x] Pay rent 📅 2026-06-01 ✅ {}", today.to_text()));
    let reopened = set_checked(&done, false, today).unwrap();
    assert_eq!(reopened, "- [ ] Pay rent 📅 2026-06-01");
}

#[test]
fn set_checked_replaces_existing_completion_date() {
    let today = date("2026-09-04");
    let line = "- [x] Done ✅ 2026-01-01";
    let updated = set_checked(line, true, today).unwrap();
    assert_eq!(updated, format!("- [x] Done ✅ {}", today.to_text()));
}

#[test]
fn set_checked_preserves_indent_and_marker() {
    let today = date("2026-09-04");
    let updated = set_checked("  * [ ] indented task", true, today).unwrap();
    assert_eq!(updated, format!("  * [x] indented task ✅ {}", today.to_text()));
}

#[test]
fn set_checked_rejects_non_task_lines() {
    let today = date("2026-09-04");
    assert!(set_checked("- plain item", true, today).is_none());
}

#[test]
fn strip_metadata_removes_tokens_and_keeps_words() {
    assert_eq!(strip_metadata("Pay rent +home 📅 2026-06-01 ⏫"), "Pay rent +home");
    assert_eq!(strip_metadata("Submitted ✅ 2026-05-30 🔽"), "Submitted");
    assert_eq!(strip_metadata("  spaced   words 🛫 2026-01-01  "), "spaced words");
    assert_eq!(strip_metadata("📅 notadate keeps"), "notadate keeps");
    assert_eq!(strip_metadata("⏫"), "");
}

#[test]
fn due_state_classifies_against_today() {
    let today = date("2026-09-05");
    let mut task = collect_tasks("- [ ] a 📅 2026-09-01\n", NoteId::new(1), "a.md", "A").remove(0);
    assert_eq!(task.due_state(today), DueState::Overdue);
    task.due = Some(today);
    assert_eq!(task.due_state(today), DueState::Today);
    task.due = Some(date("2026-09-06"));
    assert_eq!(task.due_state(today), DueState::Upcoming);
    task.checked = true;
    task.due = Some(date("2026-01-01"));
    assert_eq!(task.due_state(today), DueState::Upcoming);
    task.due = None;
    assert_eq!(task.due_state(today), DueState::Undated);
}

#[test]
fn collect_tasks_stores_display_text() {
    let tasks = collect_tasks("- [ ] Pay rent 📅 2026-06-01 ⏫\n", NoteId::new(1), "a.md", "A");
    assert_eq!(tasks[0].text, "Pay rent");
    assert_eq!(tasks[0].due, Some(date("2026-06-01")));
}

#[test]
fn locate_task_line_finds_matching_line_and_preserves_endings() {
    let body = "intro\r\n- [ ] alpha 📅 2026-06-01\r\n- [x] beta\r\n";
    let range = locate_task_line(body, 1, "alpha").unwrap();
    assert_eq!(&body[range.clone()], "- [ ] alpha 📅 2026-06-01");
    let mut rewritten = body.to_string();
    rewritten.replace_range(range, "- [x] alpha 📅 2026-06-01 ✅ 2026-09-05");
    assert_eq!(rewritten, "intro\r\n- [x] alpha 📅 2026-06-01 ✅ 2026-09-05\r\n- [x] beta\r\n");
    let last = locate_task_line("- [ ] only", 0, "only").unwrap();
    assert_eq!(last, 0..10);
}

#[test]
fn locate_task_line_rejects_stale_positions() {
    let body = "- [ ] alpha\n- [ ] beta\n";
    assert!(locate_task_line(body, 0, "beta").is_none());
    assert!(locate_task_line(body, 5, "alpha").is_none());
    assert!(locate_task_line("plain\n", 0, "plain").is_none());
}

#[test]
fn collect_tasks_skips_code_fences() {
    let body = "- [ ] real task\n```md\n- [ ] in fence\n```\n~~~\n- [ ] in tilde fence\n~~~\n- [ ] another real\n";
    let tasks = collect_tasks(body, NoteId::new(1), "notes.md", "Notes");
    assert_eq!(tasks.len(), 2);
    assert_eq!(tasks[0].source_line, 0);
    assert_eq!(tasks[1].source_line, 7);
}

fn task_at(line: usize, text: &str, checked: bool, due: Option<Date>, priority: Option<Priority>) -> Task {
    Task {
        note_id: NoteId::new(1),
        path: "a.md".into(),
        note_title: "A".into(),
        source_line: line,
        indent: 0,
        text: text.into(),
        checked,
        due,
        start: None,
        done: None,
        priority,
    }
}

#[test]
fn sort_tasks_puts_open_urgent_first() {
    let mut tasks = vec![
        task_at(0, "done", true, None, Some(Priority::High)),
        task_at(1, "undated", false, None, None),
        task_at(2, "overdue", false, Some(date("2026-01-01")), None),
        task_at(3, "high", false, Some(date("2026-06-01")), Some(Priority::High)),
    ];
    sort_tasks(&mut tasks);
    let texts: Vec<&str> = tasks.iter().map(|task| task.text.as_str()).collect();
    assert_eq!(texts, ["overdue", "high", "undated", "done"]);
}

#[test]
fn sort_orders_by_path_then_line_when_everything_else_ties() {
    let mut tasks = vec![task_at(5, "b5", false, None, None), task_at(2, "b2", false, None, None)];
    let mut other = task_at(9, "a9", false, None, None);
    other.path = "a.md".into();
    tasks[0].path = "b.md".into();
    tasks[1].path = "b.md".into();
    tasks.push(other);
    sort_tasks(&mut tasks);
    let texts: Vec<&str> = tasks.iter().map(|task| task.text.as_str()).collect();
    assert_eq!(texts, ["a9", "b2", "b5"]);
}

#[test]
fn sort_keeps_tied_tasks_in_their_order() {
    let mut tasks = vec![
        task_at(3, "second", false, None, None),
        task_at(1, "first", false, None, None),
        task_at(3, "third", false, None, None),
        task_at(3, "fourth", false, None, None),
    ];
    sort_tasks(&mut tasks);
    let texts: Vec<&str> = tasks.iter().map(|task| task.text.as_str()).collect();
    assert_eq!(texts, ["first", "second", "third", "fourth"]);
}

#[test]
fn priority_tokens_labels_and_ranks() {
    assert_eq!(Priority::High.token(), "⏫");
    assert_eq!(Priority::Medium.token(), "🔼");
    assert_eq!(Priority::Low.token(), "🔽");
    assert_eq!(Priority::Medium.label(), "medium");
    assert_eq!(Priority::from_token("🔼"), Some(Priority::Medium));
    assert_eq!(Priority::from_token("x"), None);
    assert!(Priority::High.rank() < Priority::Medium.rank() && Priority::Medium.rank() < Priority::Low.rank());
}

#[test]
fn priority_is_found_inside_punctuation() {
    let parsed = parse_task_line("- [ ] ship it (🔼)").unwrap();
    assert_eq!(parsed.priority, Some(Priority::Medium));
}

#[test]
fn checking_then_unchecking_restores_a_line_without_stamp() {
    let today = date("2026-09-04");
    let line = "* [ ] water plants";
    let checked = set_checked(line, true, today).unwrap();
    assert_eq!(set_checked(&checked, false, today).unwrap(), line);
}

#[test]
fn unchecking_without_a_stamp_only_flips_the_box() {
    let today = date("2026-09-04");
    assert_eq!(set_checked("- [x] keep ✅ soon", false, today).unwrap(), "- [ ] keep soon");
    assert_eq!(set_checked("- [X] nothing", false, today).unwrap(), "- [ ] nothing");
}

#[test]
fn stripping_is_idempotent_on_examples() {
    for body in ["Pay rent +home 📅 2026-06-01 ⏫", "📅 notadate keeps", "a  b\tc 🔽"] {
        let once = strip_metadata(body);
        assert_eq!(strip_metadata(&once), once);
    }
}

#[test]
fn body_offset_counts_leading_blanks() {
    let parsed = parse_task_line("\t  + [ ] x").unwrap();
    assert_eq!(parsed.body_offset, 9);
    assert_eq!(parsed.indent, 6);
}

#[test]
fn lines_after_a_crlf_keep_their_numbers() {
    let tasks = collect_tasks("a\r\n- [ ] b\r\n", NoteId::new(3), "x.md", "X");
    assert_eq!(tasks.len(), 1);
    assert_eq!(tasks[0].source_line, 1);
    assert_eq!(tasks[0].text, "b");
    assert_eq!(tasks[0].note_id, NoteId::new(3));
}

#[test]
fn reopening_a_task_that_is_only_a_stamp_leaves_no_task() {
    let today = date("2026-09-04");
    let reopened = set_checked("- [x] ✅ 2026-01-01", false, today).unwrap();
    assert_eq!(reopened, "- [ ]");
    assert!(parse_task_line(&reopened).is_none());
}

#[test]
fn completing_an_empty_task_keeps_it_a_task() {
    let today = date("2026-09-04");
    let done = set_checked("- [ ] ", true, today).unwrap();
    assert_eq!(done, "- [x] ✅ 2026-09-04");
    assert!(parse_task_line(&done).unwrap().checked);
}
