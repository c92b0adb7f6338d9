use ekphos::date::Date;
use ekphos::dialogs::{
    apply_text_dialog_key, buffer_search_action, cycle_listed_selection, delete_confirm_answer, directory_not_found_answer, dismisses_welcome, empty_directory_action,
    help_dialog_scroll, keybinding_warning_scroll, page_step, route_key, KeyRoute, search_input_action, search_picker_action, submitted_name, task_view_action, theme_selector_action,
    unsaved_changes_choice, wiki_note_confirm_answer, BufferSearchAction, DialogCommand, EmptyDirectoryAction, SearchInputAction, SearchPickerAction, TaskViewAction,
    ThemeSelectorAction, UnsavedChoice, MAX_HELP_LINES,
};
use ekphos::keys::{KeyCode, KeyEvent, ALT, CONTROL, SHIFT};
use ekphos::session::{DialogState, Mode};
use ekphos::task_view::{TaskStatusFilter, TaskViewState};
use ekphos::tasks::{collect_tasks, locate_task_line, set_checked, NoteId};

fn key(code: KeyCode) -> KeyEvent {
    KeyEvent::new(code, 0)
}

fn ctrl(c: char) -> KeyEvent {
    KeyEvent::new(KeyCode::Char(c), CONTROL)
}

fn today() -> Date {
    Date::parse("2026-09-04").unwrap()
}

const FIXTURE: &str = "# Fixture\n\n- [ ] alpha 📅 2026-06-01 ⏫\n";
const OTHER: &str = "# Other\n\n- [ ] beta\n- [x] gamma ✅ 2026-01-01\n";

/// The task view over the two fixture notes, scanned and filtered.
fn task_view() -> TaskViewState {
    let mut tasks = collect_tasks(FIXTURE, NoteId::new(1), "fixture.md", "Fixture");
    tasks.extend(collect_tasks(OTHER, NoteId::new(2), "other.md", "Other"));
    let mut state = TaskViewState::default();
    state.record_task_scan_request((0, 0), Some(1));
    assert!(state.receive_task_scan(1, tasks, today()));
    state
}

fn visible_texts(state: &TaskViewState) -> Vec<String> {
    state.visible.iter().map(|&index| state.tasks[index].text.clone()).collect()
}

/// Carries out what a key picks in the task view, as the app does for the
/// actions that stay inside the view. Returns whether the view closed.
fn press(state: &mut TaskViewState, key: KeyEvent) -> bool {
    let page = page_step(state.list_area.height);
    match task_view_action(key, state.text_input_active, state.query.is_empty(), page) {
        Some(TaskViewAction::StopTyping) => state.text_input_active = false,
        Some(TaskViewAction::QueryPop) => {
            state.query.pop();
            state.apply_filters(today());
        }
        Some(TaskViewAction::QueryClear) => {
            state.query.clear();
            state.apply_filters(today());
        }
        Some(TaskViewAction::QueryPush(ch)) => {
            state.query.push(ch);
            state.apply_filters(today());
        }
        Some(TaskViewAction::Close) => {
            state.text_input_active = false;
            return true;
        }
        Some(TaskViewAction::MoveSelection(delta)) => state.move_selection(delta),
        Some(TaskViewAction::SelectFirst) => state.task_select_first(),
        Some(TaskViewAction::SelectLast) => state.task_select_last(),
        Some(TaskViewAction::CycleFilter(kind)) => state.cycle_task_filter(kind, today()),
        Some(TaskViewAction::ClearFilters) => state.clear_task_filters(today()),
        Some(TaskViewAction::Rescan) => state.dirty = true,
        Some(TaskViewAction::ToggleTask) | Some(TaskViewAction::OpenSource) | None => {}
    }
    false
}

#[test]
fn text_dialog_commands_preserve_existing_key_behavior() {
    let mut input = String::from("ab");
    let mut error = Some(String::from("invalid"));
    assert_eq!(apply_text_dialog_key(&mut input, &mut error, key(KeyCode::Char('c')), true), DialogCommand::Edited);
    assert_eq!(input, "abc");
    assert_eq!(error, None);
    error = Some(String::from("invalid"));
    assert_eq!(apply_text_dialog_key(&mut input, &mut error, key(KeyCode::Backspace), true), DialogCommand::Edited);
    assert_eq!(input, "ab");
    assert_eq!(error, None);
    assert_eq!(apply_text_dialog_key(&mut input, &mut error, key(KeyCode::Enter), true), DialogCommand::Submit);
    assert_eq!(apply_text_dialog_key(&mut input, &mut error, key(KeyCode::Esc), true), DialogCommand::Cancel);
    assert_eq!(apply_text_dialog_key(&mut input, &mut error, key(KeyCode::Left), true), DialogCommand::Ignore);
}

#[test]
fn rename_note_editing_keeps_its_existing_error_policy() {
    let mut input = String::from("old");
    let mut error = Some(String::from("unchanged"));
    assert_eq!(apply_text_dialog_key(&mut input, &mut error, key(KeyCode::Char('x')), false), DialogCommand::Edited);
    assert_eq!(input, "oldx");
    assert_eq!(error.as_deref(), Some("unchanged"));
}

#[test]
fn backspace_on_empty_text_and_multibyte_text() {
    let mut input = String::new();
    let mut error = None;
    assert_eq!(apply_text_dialog_key(&mut input, &mut error, key(KeyCode::Backspace), true), DialogCommand::Edited);
    assert_eq!(input, "");
    let mut input = String::from("añé");
    apply_text_dialog_key(&mut input, &mut error, key(KeyCode::Backspace), true);
    assert_eq!(input, "añ");
}

#[test]
fn submitted_names_are_trimmed_and_never_blank() {
    assert_eq!(submitted_name("  Daily Log \t"), Some("Daily Log".to_string()));
    assert_eq!(submitted_name("   "), None);
    assert_eq!(submitted_name(""), None);
}

#[test]
fn task_view_keys_filter_search_and_close() {
    let mut state = task_view();
    assert_eq!(visible_texts(&state), ["alpha", "beta"]);
    press(&mut state, key(KeyCode::Char('f')));
    assert_eq!(state.status, TaskStatusFilter::Done);
    assert_eq!(visible_texts(&state), ["gamma"]);
    press(&mut state, key(KeyCode::Char('f')));
    assert_eq!(state.status, TaskStatusFilter::All);
    press(&mut state, key(KeyCode::Char('p')));
    assert_eq!(visible_texts(&state), ["alpha"]);
    press(&mut state, key(KeyCode::Char('c')));
    assert_eq!(visible_texts(&state), ["alpha", "beta"]);
    assert!(!state.has_active_filters());

    press(&mut state, key(KeyCode::Char('/')));
    assert!(state.text_input_active);
    for ch in "be".chars() {
        press(&mut state, key(KeyCode::Char(ch)));
    }
    assert_eq!(visible_texts(&state), ["beta"]);
    press(&mut state, key(KeyCode::Char('j')));
    assert_eq!(state.query, "bej", "typing must go to the query, not navigation");
    press(&mut state, key(KeyCode::Backspace));
    press(&mut state, key(KeyCode::Enter));
    assert!(!state.text_input_active);
    assert_eq!(visible_texts(&state), ["beta"]);
    assert!(!press(&mut state, key(KeyCode::Esc)));
    assert!(state.query.is_empty());
    assert!(press(&mut state, key(KeyCode::Esc)));
}

#[test]
fn task_view_navigation_and_toggle_write_through_to_disk() {
    let mut state = task_view();
    press(&mut state, key(KeyCode::Char('G')));
    assert_eq!(state.selected, 1);
    press(&mut state, key(KeyCode::Char('g')));
    assert_eq!(state.selected, 0);
    press(&mut state, key(KeyCode::Down));
    assert_eq!(state.selected_task().map(|task| task.text.as_str()), Some("beta"));
    press(&mut state, key(KeyCode::Down));
    assert_eq!(state.selected, 1, "selection must clamp at the last row");
    assert_eq!(task_view_action(key(KeyCode::Char(' ')), false, true, 1), Some(TaskViewAction::ToggleTask));
    let task = state.selected_task().unwrap().clone();
    let mut body = OTHER.to_string();
    let range = locate_task_line(&body, task.source_line, &task.text).unwrap();
    let updated = set_checked(&body[range.clone()], !task.checked, today()).unwrap();
    body.replace_range(range, &updated);
    assert_eq!(body, format!("# Other\n\n- [x] beta ✅ {}\n- [x] gamma ✅ 2026-01-01\n", today().to_text()));
    let mut tasks = collect_tasks(FIXTURE, NoteId::new(1), "fixture.md", "Fixture");
    tasks.extend(collect_tasks(&body, NoteId::new(2), "other.md", "Other"));
    state.record_task_scan_request((0, 1), Some(2));
    assert!(state.receive_task_scan(2, tasks, today()));
    assert_eq!(visible_texts(&state), ["alpha"]);
}

#[test]
fn task_view_toggle_refuses_stale_lines() {
    let mut state = task_view();
    press(&mut state, key(KeyCode::Char('G')));
    let task = state.selected_task().unwrap().clone();
    let edited = "# Other\n\nintro\n- [ ] beta\n";
    assert_eq!(locate_task_line(edited, task.source_line, &task.text), None, "a moved task must not rewrite the wrong line");
}

#[test]
fn task_view_modifiers_pages_and_rescan() {
    assert_eq!(task_view_action(ctrl('j'), false, true, 5), None);
    assert_eq!(task_view_action(KeyEvent::new(KeyCode::Char('j'), ALT), false, true, 5), None);
    assert_eq!(task_view_action(KeyEvent::new(KeyCode::Char('j'), SHIFT), false, true, 5), Some(TaskViewAction::MoveSelection(1)));
    assert_eq!(task_view_action(key(KeyCode::PageDown), false, true, 5), Some(TaskViewAction::MoveSelection(5)));
    assert_eq!(task_view_action(key(KeyCode::Char('K')), false, true, 5), Some(TaskViewAction::MoveSelection(-5)));
    assert_eq!(task_view_action(key(KeyCode::Char('r')), false, true, 5), Some(TaskViewAction::Rescan));
    assert_eq!(task_view_action(key(KeyCode::Enter), false, true, 5), Some(TaskViewAction::OpenSource));
    assert_eq!(task_view_action(ctrl('u'), true, false, 5), Some(TaskViewAction::QueryClear));
    assert_eq!(task_view_action(ctrl('x'), true, false, 5), None);
    assert_eq!(task_view_action(key(KeyCode::Esc), false, false, 5), Some(TaskViewAction::QueryClear));
    assert_eq!(page_step(0), 1);
    assert_eq!(page_step(12), 12);
}

#[test]
fn keybinding_warning_scrolls_within_its_issues() {
    assert_eq!(keybinding_warning_scroll(3, 2, KeyCode::Esc), None);
    assert_eq!(keybinding_warning_scroll(3, 2, KeyCode::Enter), None);
    assert_eq!(keybinding_warning_scroll(3, 2, KeyCode::Down), Some(4));
    assert_eq!(keybinding_warning_scroll(15, 2, KeyCode::Char('j')), Some(15));
    assert_eq!(keybinding_warning_scroll(12, 2, KeyCode::PageDown), Some(15));
    assert_eq!(keybinding_warning_scroll(3, 2, KeyCode::PageUp), Some(0));
    assert_eq!(keybinding_warning_scroll(0, 2, KeyCode::Char('k')), Some(0));
    assert_eq!(keybinding_warning_scroll(4, 0, KeyCode::Down), Some(0));
    assert_eq!(keybinding_warning_scroll(4, 2, KeyCode::Char('x')), Some(4));
}

#[test]
fn help_dialog_scrolls_and_closes() {
    assert_eq!(help_dialog_scroll(5, key(KeyCode::Char('q'))), None);
    assert_eq!(help_dialog_scroll(5, key(KeyCode::Char('?'))), None);
    assert_eq!(help_dialog_scroll(5, key(KeyCode::Down)), Some(6));
    assert_eq!(help_dialog_scroll(MAX_HELP_LINES, key(KeyCode::Char('j'))), Some(90));
    assert_eq!(help_dialog_scroll(5, ctrl('d')), Some(15));
    assert_eq!(help_dialog_scroll(85, ctrl('d')), Some(90));
    assert_eq!(help_dialog_scroll(5, ctrl('u')), Some(0));
    assert_eq!(help_dialog_scroll(5, key(KeyCode::Char('d'))), Some(5));
    assert_eq!(help_dialog_scroll(5, key(KeyCode::Char('G'))), Some(90));
    assert_eq!(help_dialog_scroll(50, key(KeyCode::Char('g'))), Some(0));
}

#[test]
fn confirmation_dialogs_answer_by_letter() {
    assert_eq!(delete_confirm_answer(KeyCode::Char('Y')), Some(true));
    assert_eq!(delete_confirm_answer(KeyCode::Esc), Some(false));
    assert_eq!(delete_confirm_answer(KeyCode::Enter), None);
    assert_eq!(wiki_note_confirm_answer(KeyCode::Enter), Some(true));
    assert_eq!(wiki_note_confirm_answer(KeyCode::Char('n')), Some(false));
    assert_eq!(unsaved_changes_choice(KeyCode::Char('s')), Some(UnsavedChoice::Save));
    assert_eq!(unsaved_changes_choice(KeyCode::Char('N')), Some(UnsavedChoice::Discard));
    assert_eq!(unsaved_changes_choice(KeyCode::Esc), Some(UnsavedChoice::Stay));
    assert_eq!(unsaved_changes_choice(KeyCode::Char('q')), None);
    assert_eq!(empty_directory_action(KeyCode::Char('n')), Some(EmptyDirectoryAction::CreateNote));
    assert_eq!(empty_directory_action(KeyCode::Esc), Some(EmptyDirectoryAction::Close));
    assert_eq!(directory_not_found_answer(KeyCode::Char('C')), Some(false));
    assert_eq!(directory_not_found_answer(KeyCode::Char('q')), Some(true));
    assert_eq!(directory_not_found_answer(KeyCode::Char('x')), None);
    assert!(dismisses_welcome(KeyCode::Char(' ')));
    assert!(!dismisses_welcome(KeyCode::Char('x')));
}

#[test]
fn search_picker_and_theme_selector_keys() {
    assert_eq!(search_picker_action(ctrl('j')), Some(SearchPickerAction::Next));
    assert_eq!(search_picker_action(KeyEvent::new(KeyCode::Char('j'), CONTROL | SHIFT)), Some(SearchPickerAction::PushChar('j')));
    assert_eq!(search_picker_action(key(KeyCode::Char('j'))), Some(SearchPickerAction::PushChar('j')));
    assert_eq!(search_picker_action(key(KeyCode::BackTab)), Some(SearchPickerAction::Previous));
    assert_eq!(search_picker_action(key(KeyCode::Right)), Some(SearchPickerAction::ToggleMode));
    assert_eq!(search_picker_action(key(KeyCode::Home)), None);
    assert_eq!(theme_selector_action(key(KeyCode::Char('j'))), Some(ThemeSelectorAction::Next));
    assert_eq!(theme_selector_action(ctrl('p')), Some(ThemeSelectorAction::Previous));
    assert_eq!(theme_selector_action(key(KeyCode::Char('l'))), Some(ThemeSelectorAction::ToggleStyle));
    assert_eq!(theme_selector_action(key(KeyCode::Char('x'))), None);
}

#[test]
fn sidebar_filter_keys_and_wrapping_selection() {
    assert_eq!(search_input_action(ctrl('n')), Some(SearchInputAction::Next));
    assert_eq!(search_input_action(key(KeyCode::Up)), Some(SearchInputAction::Previous));
    assert_eq!(search_input_action(key(KeyCode::Char('n'))), Some(SearchInputAction::PushChar('n')));
    assert_eq!(search_input_action(key(KeyCode::Esc)), Some(SearchInputAction::Clear));
    assert_eq!(search_input_action(key(KeyCode::Enter)), Some(SearchInputAction::Finish));
    let visible = [4, 7, 9];
    assert_eq!(cycle_listed_selection(&visible, 9, true), Some(4));
    assert_eq!(cycle_listed_selection(&visible, 4, false), Some(9));
    assert_eq!(cycle_listed_selection(&visible, 7, true), Some(9));
    assert_eq!(cycle_listed_selection(&visible, 5, true), Some(7));
    assert_eq!(cycle_listed_selection(&[], 5, true), None);
}

#[test]
fn buffer_search_keys() {
    assert_eq!(buffer_search_action(KeyEvent::new(KeyCode::Char('N'), SHIFT)), Some(BufferSearchAction::PushChar('N')));
    assert_eq!(buffer_search_action(ctrl('n')), Some(BufferSearchAction::Next));
    assert_eq!(buffer_search_action(ctrl('c')), Some(BufferSearchAction::ToggleCase));
    assert_eq!(buffer_search_action(key(KeyCode::Char('c'))), Some(BufferSearchAction::PushChar('c')));
    assert_eq!(buffer_search_action(key(KeyCode::Enter)), Some(BufferSearchAction::Next));
    assert_eq!(buffer_search_action(key(KeyCode::BackTab)), Some(BufferSearchAction::Previous));
    assert_eq!(buffer_search_action(key(KeyCode::Esc)), Some(BufferSearchAction::End));
    assert_eq!(buffer_search_action(key(KeyCode::Left)), None);
}

#[test]
fn keys_go_to_the_frontmost_handler() {
    assert_eq!(route_key(true, DialogState::Help, true, true, true, true, Mode::Edit), KeyRoute::KeybindingWarning);
    assert_eq!(route_key(false, DialogState::Help, true, true, true, true, Mode::Edit), KeyRoute::Dialog(DialogState::Help));
    assert_eq!(route_key(false, DialogState::Closed, true, true, true, true, Mode::Edit), KeyRoute::Welcome);
    assert_eq!(route_key(false, DialogState::Closed, false, true, true, true, Mode::Edit), KeyRoute::SearchPicker);
    assert_eq!(route_key(false, DialogState::Closed, false, false, true, true, Mode::Edit), KeyRoute::SidebarSearch);
    assert_eq!(route_key(false, DialogState::Closed, false, false, false, true, Mode::Edit), KeyRoute::BufferSearch);
    assert_eq!(route_key(false, DialogState::Closed, false, false, false, false, Mode::Edit), KeyRoute::Edit);
    assert_eq!(route_key(false, DialogState::Closed, false, false, false, false, Mode::Normal), KeyRoute::Normal);
}
