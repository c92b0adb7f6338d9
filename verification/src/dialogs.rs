//! What a key press does in each modal dialog and in the search prompts:
//! the text a dialog holds after the key, how far a scrolled dialog moves,
//! and which action a key picks. The caller carries the action out.
use vstd::prelude::*;

use crate::keys::{KeyCode, KeyEvent, ALT, CONTROL, SHIFT, SUPER};
use crate::session::{DialogState, Mode};
use crate::task_view::TaskFilterKind;
use crate::text::{chars_of, push_char, string_of_range, trim, trim_bounds};

verus! {

/// What a key did to a one-line text dialog.
#[derive(Debug, Clone, Copy, PartialEq, Eq, Structural)]
pub enum DialogCommand {
    Submit,
    Cancel,
    Edited,
    Ignore,
}

/// Enter submits, Esc cancels, a character or Backspace edits, anything
/// else is ignored.
pub open spec fn text_dialog_command(code: KeyCode) -> DialogCommand {
    match code {
        KeyCode::Enter => DialogCommand::Submit,
        KeyCode::Esc => DialogCommand::Cancel,
        KeyCode::Char(_) => DialogCommand::Edited,
        KeyCode::Backspace => DialogCommand::Edited,
        _ => DialogCommand::Ignore,
    }
}

/// Text after one key: a character is appended, Backspace drops the last
/// character (if any), other keys leave it.
pub open spec fn text_after_key(text: Seq<char>, code: KeyCode) -> Seq<char> {
    match code {
        KeyCode::Char(c) => text.push(c),
        KeyCode::Backspace => if text.len() > 0 {
            text.drop_last()
        } else {
            text
        },
        _ => text,
    }
}

/// Drops the last character of `s`, if any.
fn pop_char(s: &mut String)
    ensures
        final(s)@ == if old(s)@.len() > 0 {
            old(s)@.drop_last()
        } else {
            old(s)@
        },
{
    let cs = chars_of(s.as_str());
    let n = cs.len();
    if n > 0 {
        *s = string_of_range(cs.as_slice(), 0, n - 1);
    }
}

/// Applies a key to the text of a one-line dialog and says what it did.
/// An edit clears the dialog's error when `clear_error_on_edit` is set.
pub fn apply_text_dialog_key(
    input: &mut String,
    error: &mut Option<String>,
    key: KeyEvent,
    clear_error_on_edit: bool,
) -> (c: DialogCommand)
    ensures
        c == text_dialog_command(key.code),
        final(input)@ == text_after_key(old(input)@, key.code),
        *final(error) == if c == DialogCommand::Edited && clear_error_on_edit {
            None
        } else {
            *old(error)
        },
{
    match key.code {
        KeyCode::Enter => DialogCommand::Submit,
        KeyCode::Esc => DialogCommand::Cancel,
        KeyCode::Char(ch) => {
            push_char(input, ch);
            if clear_error_on_edit {
                *error = None;
            }
            DialogCommand::Edited
        },
        KeyCode::Backspace => {
            pop_char(input);
            if clear_error_on_edit {
                *error = None;
            }
            DialogCommand::Edited
        },
        _ => DialogCommand::Ignore,
    }
}

/// The name a create dialog submits: its text trimmed, or `None` when
/// nothing but whitespace was typed (the dialog then says the name cannot
/// be empty).
pub fn submitted_name(input: &str) -> (r: Option<String>)
    ensures
        r is None <==> trim(input@).len() == 0,
        r is Some ==> r->0@ == trim(input@),
{
    let cs = chars_of(input);
    let (a, b) = trim_bounds(cs.as_slice());
    if a == b {
        None
    } else {
        Some(string_of_range(cs.as_slice(), a, b))
    }
}

/// `a - b`, or 0 when `b` is larger.
pub open spec fn sat_sub(a: int, b: int) -> int {
    if a > b {
        a - b
    } else {
        0
    }
}

/// The smaller of two numbers.
pub open spec fn min_of(a: int, b: int) -> int {
    if a < b {
        a
    } else {
        b
    }
}

/// `a - b` on `usize`, stopping at 0.
fn minus(a: usize, b: usize) -> (r: usize)
    ensures
        r == sat_sub(a as int, b as int),
{
    if a > b {
        a - b
    } else {
        0
    }
}

/// `a + b` on `usize`, stopping at the largest value.
fn plus(a: usize, b: usize) -> (r: usize)
    ensures
        r == min_of(a + b, usize::MAX as int),
{
    if a > usize::MAX - b {
        usize::MAX
    } else {
        a + b
    }
}

/// The last line the keybinding warning scrolls to: eight lines per issue.
pub open spec fn warning_max_scroll(issue_count: int) -> int {
    sat_sub(min_of(issue_count * 8, usize::MAX as int), 1)
}

/// The scroll of the keybinding warning after a key, or `None` when Esc or
/// Enter closes it: j/Down and k/Up move a line, PageDown and PageUp five;
/// moving down stops at eight lines per issue.
pub fn keybinding_warning_scroll(scroll: usize, issue_count: usize, code: KeyCode) -> (r: Option<usize>)
    ensures
        (code == KeyCode::Esc || code == KeyCode::Enter) <==> r is None,
        r is Some ==> r->0 == (match code {
            KeyCode::Down | KeyCode::Char('j') => min_of(min_of(scroll + 1, usize::MAX as int), warning_max_scroll(issue_count as int)),
            KeyCode::Up | KeyCode::Char('k') => sat_sub(scroll as int, 1),
            KeyCode::PageDown => min_of(min_of(scroll + 5, usize::MAX as int), warning_max_scroll(issue_count as int)),
            KeyCode::PageUp => sat_sub(scroll as int, 5),
            _ => scroll as int,
        }),
{
    match code {
        KeyCode::Esc | KeyCode::Enter => {
            return None;
        },
        _ => {},
    }
    let lines = if issue_count > usize::MAX / 8 {
        usize::MAX
    } else {
        issue_count * 8
    };
    let max_scroll = minus(lines, 1);
    let next = match code {
        KeyCode::Down | KeyCode::Char('j') => {
            let s = plus(scroll, 1);
            if s < max_scroll {
                s
            } else {
                max_scroll
            }
        },
        KeyCode::Up | KeyCode::Char('k') => minus(scroll, 1),
        KeyCode::PageDown => {
            let s = plus(scroll, 5);
            if s < max_scroll {
                s
            } else {
                max_scroll
            }
        },
        KeyCode::PageUp => minus(scroll, 5),
        _ => scroll,
    };
    Some(next)
}

/// The last line the help dialog scrolls to.
pub const MAX_HELP_LINES: usize = 90;

/// Whether Control is held.
pub open spec fn with_control(modifiers: u8) -> bool {
    modifiers & CONTROL != 0
}

/// The scroll of the help dialog after a key, or `None` when Esc, Enter,
/// q or ? closes it (its scroll then returns to the top): j/Down and k/Up
/// move a line, Ctrl-d and Ctrl-u ten, g goes to the top and G to the end.
pub fn help_dialog_scroll(scroll: usize, key: KeyEvent) -> (r: Option<usize>)
    ensures
        r == (match key.code {
            KeyCode::Esc | KeyCode::Enter | KeyCode::Char('q') | KeyCode::Char('?') => None,
            KeyCode::Char('j') | KeyCode::Down => Some(min_of(min_of(scroll + 1, usize::MAX as int), 90) as usize),
            KeyCode::Char('k') | KeyCode::Up => Some(sat_sub(scroll as int, 1) as usize),
            KeyCode::Char('d') if with_control(key.modifiers) => Some(
                min_of(min_of(scroll + 10, usize::MAX as int), 90) as usize,
            ),
            KeyCode::Char('u') if with_control(key.modifiers) => Some(sat_sub(scroll as int, 10) as usize),
            KeyCode::Char('g') => Some(0usize),
            KeyCode::Char('G') => Some(90usize),
            _ => Some(scroll),
        }),
{
    let control = key.modifiers & CONTROL != 0;
    match key.code {
        KeyCode::Esc | KeyCode::Enter | KeyCode::Char('q') | KeyCode::Char('?') => None,
        KeyCode::Char('j') | KeyCode::Down => {
            let s = plus(scroll, 1);
            Some(
                if s < MAX_HELP_LINES {
                    s
                } else {
                    MAX_HELP_LINES
                },
            )
        },
        KeyCode::Char('k') | KeyCode::Up => Some(minus(scroll, 1)),
        KeyCode::Char('d') if control => {
            let s = plus(scroll, 10);
            Some(
                if s < MAX_HELP_LINES {
                    s
                } else {
                    MAX_HELP_LINES
                },
            )
        },
        KeyCode::Char('u') if control => Some(minus(scroll, 10)),
        KeyCode::Char('g') => Some(0),
        KeyCode::Char('G') => Some(MAX_HELP_LINES),
        _ => Some(scroll),
    }
}

/// The answer a key gives a delete confirmation: y or Y confirms, n, N or
/// Esc declines, anything else leaves the question open.
pub fn delete_confirm_answer(code: KeyCode) -> (r: Option<bool>)
    ensures
        r == (match code {
            KeyCode::Char('y') | KeyCode::Char('Y') => Some(true),
            KeyCode::Char('n') | KeyCode::Char('N') | KeyCode::Esc => Some(false),
            _ => None,
        }),
{
    match code {
        KeyCode::Char('y') | KeyCode::Char('Y') => Some(true),
        KeyCode::Char('n') | KeyCode::Char('N') | KeyCode::Esc => Some(false),
        _ => None,
    }
}

/// The answer a key gives the question whether to create the note a wiki
/// link points to: y, Y or Enter creates it, n, N or Esc does not.
pub fn wiki_note_confirm_answer(code: KeyCode) -> (r: Option<bool>)
    ensures
        r == (match code {
            KeyCode::Char('y') | KeyCode::Char('Y') | KeyCode::Enter => Some(true),
            KeyCode::Char('n') | KeyCode::Char('N') | KeyCode::Esc => Some(false),
            _ => None,
        }),
{
    match code {
        KeyCode::Char('y') | KeyCode::Char('Y') | KeyCode::Enter => Some(true),
        KeyCode::Char('n') | KeyCode::Char('N') | KeyCode::Esc => Some(false),
        _ => None,
    }
}

/// What to do with unsaved edits.
#[derive(Debug, Clone, Copy, PartialEq, Eq, Structural)]
pub enum UnsavedChoice {
    /// Save, then leave the editor.
    Save,
    /// Throw the edits away and leave the editor.
    Discard,
    /// Close the question and keep editing.
    Stay,
}

/// The choice a key makes in the unsaved-changes dialog: s, S, y or Y saves,
/// d, D, n or N discards, Esc stays.
pub fn unsaved_changes_choice(code: KeyCode) -> (r: Option<UnsavedChoice>)
    ensures
        r == (match code {
            KeyCode::Char('s') | KeyCode::Char('S') | KeyCode::Char('y') | KeyCode::Char('Y') => Some(
                UnsavedChoice::Save,
            ),
            KeyCode::Char('d') | KeyCode::Char('D') | KeyCode::Char('n') | KeyCode::Char('N') => Some(
                UnsavedChoice::Discard,
            ),
            KeyCode::Esc => Some(UnsavedChoice::Stay),
            _ => None,
        }),
{
    match code {
        KeyCode::Char('s') | KeyCode::Char('S') | KeyCode::Char('y') | KeyCode::Char('Y') => Some(
            UnsavedChoice::Save,
        ),
        KeyCode::Char('d') | KeyCode::Char('D') | KeyCode::Char('n') | KeyCode::Char('N') => Some(
            UnsavedChoice::Discard,
        ),
        KeyCode::Esc => Some(UnsavedChoice::Stay),
        _ => None,
    }
}

/// What a key does in the dialog shown for an empty notes folder.
#[derive(Debug, Clone, Copy, PartialEq, Eq, Structural)]
pub enum EmptyDirectoryAction {
    Close,
    CreateNote,
}

/// Enter or Esc closes the empty-folder dialog, n starts a new note.
pub fn empty_directory_action(code: KeyCode) -> (r: Option<EmptyDirectoryAction>)
    ensures
        r == (match code {
            KeyCode::Enter | KeyCode::Esc => Some(EmptyDirectoryAction::Close),
            KeyCode::Char('n') => Some(EmptyDirectoryAction::CreateNote),
            _ => None,
        }),
{
    match code {
        KeyCode::Enter | KeyCode::Esc => Some(EmptyDirectoryAction::Close),
        KeyCode::Char('n') => Some(EmptyDirectoryAction::CreateNote),
        _ => None,
    }
}

/// The answer a key gives when the notes folder is missing: c or C creates
/// it (`Some(false)`, keep running), q, Q or Esc quits (`Some(true)`).
pub fn directory_not_found_answer(code: KeyCode) -> (r: Option<bool>)
    ensures
        r == (match code {
            KeyCode::Char('c') | KeyCode::Char('C') => Some(false),
            KeyCode::Char('q') | KeyCode::Char('Q') | KeyCode::Esc => Some(true),
            _ => None,
        }),
{
    match code {
        KeyCode::Char('c') | KeyCode::Char('C') => Some(false),
        KeyCode::Char('q') | KeyCode::Char('Q') | KeyCode::Esc => Some(true),
        _ => None,
    }
}

/// Whether a key dismisses the welcome screen: Enter, Esc or Space.
pub fn dismisses_welcome(code: KeyCode) -> (b: bool)
    ensures
        b == (code == KeyCode::Enter || code == KeyCode::Esc || code == KeyCode::Char(' ')),
{
    match code {
        KeyCode::Enter | KeyCode::Esc | KeyCode::Char(' ') => true,
        _ => false,
    }
}

/// What a key does in the task view.
#[derive(Debug, Clone, Copy, PartialEq, Eq, Structural)]
pub enum TaskViewAction {
    /// Leave the search box.
    StopTyping,
    /// Drop the last character of the query and refilter.
    QueryPop,
    /// Empty the query and refilter.
    QueryClear,
    /// Append a character to the query and refilter.
    QueryPush(char),
    /// Close the task view.
    Close,
    /// Move the selection by this many rows.
    MoveSelection(isize),
    SelectFirst,
    SelectLast,
    /// Tick or untick the selected task in its note.
    ToggleTask,
    /// Open the selected task's note at its line.
    OpenSource,
    /// Advance a filter, or start typing a query.
    CycleFilter(TaskFilterKind),
    /// Reset every filter and the query.
    ClearFilters,
    /// Scan the notes again.
    Rescan,
}

/// Whether Control, Alt or Super is held.
pub open spec fn with_command_modifier(modifiers: u8) -> bool {
    modifiers & (CONTROL | ALT | SUPER) != 0
}

/// The rows a page key moves in the task view: the list's height, at least
/// one.
pub fn page_step(list_height: u16) -> (n: isize)
    ensures
        n == if list_height > 0 {
            list_height as int
        } else {
            1
        },
{
    if list_height > 0 {
        list_height as isize
    } else {
        1
    }
}

/// The action a key picks in the task view. While a query is typed, Esc or
/// Enter leaves the box, Backspace deletes, Ctrl-u empties the query and a
/// character without Control, Alt or Super is typed. Otherwise keys with
/// those modifiers do nothing; Esc empties a non-empty query or else closes
/// the view, and the letters and arrows move, select, toggle, open, filter,
/// clear or rescan. A page moves `page` rows.
pub fn task_view_action(key: KeyEvent, text_input_active: bool, query_empty: bool, page: isize) -> (r: Option<
    TaskViewAction,
>)
    requires
        page > isize::MIN,
    ensures
        r == (if text_input_active {
            match key.code {
                KeyCode::Esc | KeyCode::Enter => Some(TaskViewAction::StopTyping),
                KeyCode::Backspace => Some(TaskViewAction::QueryPop),
                KeyCode::Char('u') if with_control(key.modifiers) => Some(TaskViewAction::QueryClear),
                KeyCode::Char(ch) if !with_command_modifier(key.modifiers) => Some(TaskViewAction::QueryPush(ch)),
                _ => None,
            }
        } else if with_command_modifier(key.modifiers) {
            None
        } else {
            match key.code {
                KeyCode::Esc => if query_empty {
                    Some(TaskViewAction::Close)
                } else {
                    Some(TaskViewAction::QueryClear)
                },
                KeyCode::Char('q') => Some(TaskViewAction::Close),
                KeyCode::Down | KeyCode::Char('j') => Some(TaskViewAction::MoveSelection(1isize)),
                KeyCode::Up | KeyCode::Char('k') => Some(TaskViewAction::MoveSelection(-1isize)),
                KeyCode::PageDown | KeyCode::Char('J') => Some(TaskViewAction::MoveSelection(page)),
                KeyCode::PageUp | KeyCode::Char('K') => Some(TaskViewAction::MoveSelection((-page) as isize)),
                KeyCode::Home | KeyCode::Char('g') => Some(TaskViewAction::SelectFirst),
                KeyCode::End | KeyCode::Char('G') => Some(TaskViewAction::SelectLast),
                KeyCode::Char(' ') | KeyCode::Char('x') => Some(TaskViewAction::ToggleTask),
                KeyCode::Enter => Some(TaskViewAction::OpenSource),
                KeyCode::Char('f') => Some(TaskViewAction::CycleFilter(TaskFilterKind::Status)),
                KeyCode::Char('d') => Some(TaskViewAction::CycleFilter(TaskFilterKind::Due)),
                KeyCode::Char('p') => Some(TaskViewAction::CycleFilter(TaskFilterKind::Priority)),
                KeyCode::Char('/') => Some(TaskViewAction::CycleFilter(TaskFilterKind::Search)),
                KeyCode::Char('c') => Some(TaskViewAction::ClearFilters),
                KeyCode::Char('r') => Some(TaskViewAction::Rescan),
                _ => None,
            }
        }),
{
    let control = key.modifiers & CONTROL != 0;
    let command = key.modifiers & (CONTROL | ALT | SUPER) != 0;
    if text_input_active {
        return match key.code {
            KeyCode::Esc | KeyCode::Enter => Some(TaskViewAction::StopTyping),
            KeyCode::Backspace => Some(TaskViewAction::QueryPop),
            KeyCode::Char('u') if control => Some(TaskViewAction::QueryClear),
            KeyCode::Char(ch) if !command => Some(TaskViewAction::QueryPush(ch)),
            _ => None,
        };
    }
    if command {
        return None;
    }
    match key.code {
        KeyCode::Esc => if query_empty {
            Some(TaskViewAction::Close)
        } else {
            Some(TaskViewAction::QueryClear)
        },
        KeyCode::Char('q') => Some(TaskViewAction::Close),
        KeyCode::Down | KeyCode::Char('j') => Some(TaskViewAction::MoveSelection(1)),
        KeyCode::Up | KeyCode::Char('k') => Some(TaskViewAction::MoveSelection(-1)),
        KeyCode::PageDown | KeyCode::Char('J') => Some(TaskViewAction::MoveSelection(page)),
        KeyCode::PageUp | KeyCode::Char('K') => Some(TaskViewAction::MoveSelection(-page)),
        KeyCode::Home | KeyCode::Char('g') => Some(TaskViewAction::SelectFirst),
        KeyCode::End | KeyCode::Char('G') => Some(TaskViewAction::SelectLast),
        KeyCode::Char(' ') | KeyCode::Char('x') => Some(TaskViewAction::ToggleTask),
        KeyCode::Enter => Some(TaskViewAction::OpenSource),
        KeyCode::Char('f') => Some(TaskViewAction::CycleFilter(TaskFilterKind::Status)),
        KeyCode::Char('d') => Some(TaskViewAction::CycleFilter(TaskFilterKind::Due)),
        KeyCode::Char('p') => Some(TaskViewAction::CycleFilter(TaskFilterKind::Priority)),
        KeyCode::Char('/') => Some(TaskViewAction::CycleFilter(TaskFilterKind::Search)),
        KeyCode::Char('c') => Some(TaskViewAction::ClearFilters),
        KeyCode::Char('r') => Some(TaskViewAction::Rescan),
        _ => None,
    }
}

/// What a key does in the search picker.
#[derive(Debug, Clone, Copy, PartialEq, Eq, Structural)]
pub enum SearchPickerAction {
    Close,
    Select,
    ToggleMode,
    Previous,
    Next,
    PopChar,
    PushChar(char),
}

/// The action a key picks in the search picker: Esc closes, Enter opens the
/// result, Left or Right switches between file and content search, Up,
/// Back-Tab, Ctrl-k and Ctrl-p go up, Down, Tab, Ctrl-j and Ctrl-n go down,
/// Backspace deletes and any other character is typed. "Ctrl" means Control
/// and nothing else.
pub fn search_picker_action(key: KeyEvent) -> (r: Option<SearchPickerAction>)
    ensures
        r == (match key.code {
            KeyCode::Esc => Some(SearchPickerAction::Close),
            KeyCode::Enter => Some(SearchPickerAction::Select),
            KeyCode::Left | KeyCode::Right => Some(SearchPickerAction::ToggleMode),
            KeyCode::Up | KeyCode::BackTab => Some(SearchPickerAction::Previous),
            KeyCode::Down | KeyCode::Tab => Some(SearchPickerAction::Next),
            KeyCode::Char('j') if key.modifiers == CONTROL => Some(SearchPickerAction::Next),
            KeyCode::Char('k') if key.modifiers == CONTROL => Some(SearchPickerAction::Previous),
            KeyCode::Char('n') if key.modifiers == CONTROL => Some(SearchPickerAction::Next),
            KeyCode::Char('p') if key.modifiers == CONTROL => Some(SearchPickerAction::Previous),
            KeyCode::Backspace => Some(SearchPickerAction::PopChar),
            KeyCode::Char(c) => Some(SearchPickerAction::PushChar(c)),
            _ => None,
        }),
{
    let control_only = key.modifiers == CONTROL;
    match key.code {
        KeyCode::Esc => Some(SearchPickerAction::Close),
        KeyCode::Enter => Some(SearchPickerAction::Select),
        KeyCode::Left | KeyCode::Right => Some(SearchPickerAction::ToggleMode),
        KeyCode::Up | KeyCode::BackTab => Some(SearchPickerAction::Previous),
        KeyCode::Down | KeyCode::Tab => Some(SearchPickerAction::Next),
        KeyCode::Char('j') if control_only => Some(SearchPickerAction::Next),
        KeyCode::Char('k') if control_only => Some(SearchPickerAction::Previous),
        KeyCode::Char('n') if control_only => Some(SearchPickerAction::Next),
        KeyCode::Char('p') if control_only => Some(SearchPickerAction::Previous),
        KeyCode::Backspace => Some(SearchPickerAction::PopChar),
        KeyCode::Char(c) => Some(SearchPickerAction::PushChar(c)),
        _ => None,
    }
}

/// What a key does in the theme selector.
#[derive(Debug, Clone, Copy, PartialEq, Eq, Structural)]
pub enum ThemeSelectorAction {
    Cancel,
    Confirm,
    Previous,
    Next,
    ToggleStyle,
}

/// The action a key picks in the theme selector: Esc cancels, Enter
/// confirms, Up/k and Ctrl-p go up, Down/j and Ctrl-n go down, and Left,
/// Right, Tab, h or l switch the style.
pub fn theme_selector_action(key: KeyEvent) -> (r: Option<ThemeSelectorAction>)
    ensures
        r == (match key.code {
            KeyCode::Esc => Some(ThemeSelectorAction::Cancel),
            KeyCode::Enter => Some(ThemeSelectorAction::Confirm),
            KeyCode::Up | KeyCode::Char('k') => Some(ThemeSelectorAction::Previous),
            KeyCode::Down | KeyCode::Char('j') => Some(ThemeSelectorAction::Next),
            KeyCode::Char('n') if key.modifiers == CONTROL => Some(ThemeSelectorAction::Next),
            KeyCode::Char('p') if key.modifiers == CONTROL => Some(ThemeSelectorAction::Previous),
            KeyCode::Left | KeyCode::Right | KeyCode::Tab | KeyCode::Char('h') | KeyCode::Char('l') => Some(
                ThemeSelectorAction::ToggleStyle,
            ),
            _ => None,
        }),
{
    let control_only = key.modifiers == CONTROL;
    match key.code {
        KeyCode::Esc => Some(ThemeSelectorAction::Cancel),
        KeyCode::Enter => Some(ThemeSelectorAction::Confirm),
        KeyCode::Up | KeyCode::Char('k') => Some(ThemeSelectorAction::Previous),
        KeyCode::Down | KeyCode::Char('j') => Some(ThemeSelectorAction::Next),
        KeyCode::Char('n') if control_only => Some(ThemeSelectorAction::Next),
        KeyCode::Char('p') if control_only => Some(ThemeSelectorAction::Previous),
        KeyCode::Left | KeyCode::Right | KeyCode::Tab | KeyCode::Char('h') | KeyCode::Char('l') => Some(
            ThemeSelectorAction::ToggleStyle,
        ),
        _ => None,
    }
}

/// What a key does while the sidebar filter is typed.
#[derive(Debug, Clone, Copy, PartialEq, Eq, Structural)]
pub enum SearchInputAction {
    /// Select the next listed note, wrapping around.
    Next,
    /// Select the previous listed note, wrapping around.
    Previous,
    /// Drop the filter.
    Clear,
    /// Keep the filter and leave the box.
    Finish,
    PopChar,
    PushChar(char),
}

/// The action a key picks while filtering the sidebar: Down, Ctrl-j and
/// Ctrl-n go down, Up, Ctrl-k and Ctrl-p go up, Esc drops the filter, Enter
/// keeps it, Backspace deletes and any other character is typed.
pub fn search_input_action(key: KeyEvent) -> (r: Option<SearchInputAction>)
    ensures
        r == (if key.code == KeyCode::Down || (key.code == KeyCode::Char('j') && key.modifiers == CONTROL) || (
        key.code == KeyCode::Char('n') && key.modifiers == CONTROL) {
            Some(SearchInputAction::Next)
        } else if key.code == KeyCode::Up || (key.code == KeyCode::Char('k') && key.modifiers == CONTROL) || (
        key.code == KeyCode::Char('p') && key.modifiers == CONTROL) {
            Some(SearchInputAction::Previous)
        } else {
            match key.code {
                KeyCode::Esc => Some(SearchInputAction::Clear),
                KeyCode::Enter => Some(SearchInputAction::Finish),
                KeyCode::Backspace => Some(SearchInputAction::PopChar),
                KeyCode::Char(c) => Some(SearchInputAction::PushChar(c)),
                _ => None,
            }
        }),
{
    let control_only = key.modifiers == CONTROL;
    let down = match key.code {
        KeyCode::Down => true,
        KeyCode::Char('j') | KeyCode::Char('n') => control_only,
        _ => false,
    };
    let up = match key.code {
        KeyCode::Up => true,
        KeyCode::Char('k') | KeyCode::Char('p') => control_only,
        _ => false,
    };
    if down {
        return Some(SearchInputAction::Next);
    }
    if up {
        return Some(SearchInputAction::Previous);
    }
    match key.code {
        KeyCode::Esc => Some(SearchInputAction::Clear),
        KeyCode::Enter => Some(SearchInputAction::Finish),
        KeyCode::Backspace => Some(SearchInputAction::PopChar),
        KeyCode::Char(c) => Some(SearchInputAction::PushChar(c)),
        _ => None,
    }
}

/// Whether `pos` is where the sidebar selection `selected` stands among the
/// listed entries `v`: its first occurrence, or 0 when it is not listed.
pub open spec fn listed_position(v: Seq<usize>, selected: usize, pos: int) -> bool {
    ||| (0 <= pos < v.len() && v[pos] == selected && forall|j: int| 0 <= j < pos ==> v[j] != selected)
    ||| (pos == 0 && forall|j: int| 0 <= j < v.len() ==> v[j] != selected)
}

/// The position one step down (wrapping to the top) or up (wrapping to the
/// bottom) from `pos` among `n` entries.
pub open spec fn wrapped_step(pos: int, n: int, down: bool) -> int {
    if down {
        (pos + 1) % n
    } else if pos == 0 {
        n - 1
    } else {
        pos - 1
    }
}

/// The listed note to select when moving through the filtered sidebar: the
/// one after (or before) the selected entry, wrapping around; a selection
/// that is not listed counts as the first. `None` when nothing is listed.
pub fn cycle_listed_selection(visible: &[usize], selected: usize, down: bool) -> (r: Option<usize>)
    ensures
        visible.len() == 0 <==> r is None,
        r is Some ==> exists|pos: int|
            #[trigger] listed_position(visible@, selected, pos) && r->0 == visible@[wrapped_step(
                pos,
                visible.len() as int,
                down,
            )],
{
    let n = visible.len();
    if n == 0 {
        return None;
    }
    let mut pos: usize = 0;
    let mut i: usize = 0;
    while i < n
        invariant_except_break
            pos == 0,
        invariant
            n == visible.len(),
            0 < n,
            i <= n,
            forall|j: int| 0 <= j < i ==> visible@[j] != selected,
        ensures
            pos < n,
            listed_position(visible@, selected, pos as int),
        decreases n - i,
    {
        if visible[i] == selected {
            pos = i;
            break;
        }
        i += 1;
    }
    let target = if down {
        (pos + 1) % n
    } else if pos == 0 {
        n - 1
    } else {
        pos - 1
    };
    assert(listed_position(visible@, selected, pos as int));
    Some(visible[target])
}

/// What a key does in the search of the open buffer.
#[derive(Debug, Clone, Copy, PartialEq, Eq, Structural)]
pub enum BufferSearchAction {
    /// End the search.
    End,
    /// Go to the next match, if there is one.
    Next,
    /// Go to the previous match, if there is one.
    Previous,
    PopChar,
    PushChar(char),
    /// Switch case-sensitive matching and search again.
    ToggleCase,
}

/// The action a key picks in the buffer search: Esc ends it, Enter, Down,
/// Tab and Ctrl-n go to the next match, Up, Back-Tab and Ctrl-p to the
/// previous one, Ctrl-c switches case sensitivity, Backspace deletes and any
/// other character is typed.
pub fn buffer_search_action(key: KeyEvent) -> (r: Option<BufferSearchAction>)
    ensures
        r == (match key.code {
            KeyCode::Esc => Some(BufferSearchAction::End),
            KeyCode::Enter => Some(BufferSearchAction::Next),
            KeyCode::Backspace => Some(BufferSearchAction::PopChar),
            KeyCode::Char(c) if key.modifiers == SHIFT => Some(BufferSearchAction::PushChar(c)),
            KeyCode::Char('n') if key.modifiers == CONTROL => Some(BufferSearchAction::Next),
            KeyCode::Char('p') if key.modifiers == CONTROL => Some(BufferSearchAction::Previous),
            KeyCode::Char('c') if key.modifiers == CONTROL => Some(BufferSearchAction::ToggleCase),
            KeyCode::Char(c) => Some(BufferSearchAction::PushChar(c)),
            KeyCode::Down | KeyCode::Tab => Some(BufferSearchAction::Next),
            KeyCode::Up | KeyCode::BackTab => Some(BufferSearchAction::Previous),
            _ => None,
        }),
{
    let control_only = key.modifiers == CONTROL;
    match key.code {
        KeyCode::Esc => Some(BufferSearchAction::End),
        KeyCode::Enter => Some(BufferSearchAction::Next),
        KeyCode::Backspace => Some(BufferSearchAction::PopChar),
        KeyCode::Char(c) if key.modifiers == SHIFT => Some(BufferSearchAction::PushChar(c)),
        KeyCode::Char('n') if control_only => Some(BufferSearchAction::Next),
        KeyCode::Char('p') if control_only => Some(BufferSearchAction::Previous),
        KeyCode::Char('c') if control_only => Some(BufferSearchAction::ToggleCase),
        KeyCode::Char(c) => Some(BufferSearchAction::PushChar(c)),
        KeyCode::Down | KeyCode::Tab => Some(BufferSearchAction::Next),
        KeyCode::Up | KeyCode::BackTab => Some(BufferSearchAction::Previous),
        _ => None,
    }
}

/// Who handles a key press.
#[derive(Debug, Clone, Copy, PartialEq, Eq, Structural)]
pub enum KeyRoute {
    /// The warning about broken key bindings.
    KeybindingWarning,
    /// The open dialog or full-screen view.
    Dialog(DialogState),
    /// The welcome screen.
    Welcome,
    /// The search picker.
    SearchPicker,
    /// The sidebar filter.
    SidebarSearch,
    /// The search in the open buffer.
    BufferSearch,
    /// The key bindings of the main view.
    Normal,
    /// The editor.
    Edit,
}

/// Who handles a key: the keybinding warning while it shows, then an open
/// dialog, then the welcome screen, the search picker, the sidebar filter
/// and the buffer search, and otherwise the main view or the editor by mode.
/// All but the last two drop a half-typed key sequence.
pub fn route_key(
    keybinding_warning: bool,
    dialog: DialogState,
    show_welcome: bool,
    search_picker_open: bool,
    search_active: bool,
    buffer_search_active: bool,
    mode: Mode,
) -> (r: KeyRoute)
    ensures
        r == if keybinding_warning {
            KeyRoute::KeybindingWarning
        } else if dialog != DialogState::Closed {
            KeyRoute::Dialog(dialog)
        } else if show_welcome {
            KeyRoute::Welcome
        } else if search_picker_open {
            KeyRoute::SearchPicker
        } else if search_active {
            KeyRoute::SidebarSearch
        } else if buffer_search_active {
            KeyRoute::BufferSearch
        } else if mode == Mode::Normal {
            KeyRoute::Normal
        } else {
            KeyRoute::Edit
        },
{
    if keybinding_warning {
        KeyRoute::KeybindingWarning
    } else if dialog != DialogState::Closed {
        KeyRoute::Dialog(dialog)
    } else if show_welcome {
        KeyRoute::Welcome
    } else if search_picker_open {
        KeyRoute::SearchPicker
    } else if search_active {
        KeyRoute::SidebarSearch
    } else if buffer_search_active {
        KeyRoute::BufferSearch
    } else {
        match mode {
            Mode::Normal => KeyRoute::Normal,
            Mode::Edit => KeyRoute::Edit,
        }
    }
}

} // verus!
