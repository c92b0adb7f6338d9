use ekphos::keys::KeyCode;
use ekphos::wiki_autocomplete::{closing_pair_before, link_closed_at, AutocompleteNext, EditorEdit, SuggestionRequest, WikiAutocomplete, WikiAutocompleteMode};

fn popup(query: &str, mode: WikiAutocompleteMode, target: Option<&str>) -> WikiAutocomplete {
    WikiAutocomplete { query: query.to_string(), suggestion_count: 3, selected_index: 0, mode, target_note: target.map(str::to_string) }
}

fn open(query: &str, mode: WikiAutocompleteMode, target: Option<&str>, suggestions: SuggestionRequest) -> AutocompleteNext {
    AutocompleteNext::Open { query: query.to_string(), mode, target_note: target.map(str::to_string), suggestions }
}

#[test]
fn typing_narrows_notes_and_headings() {
    let step = popup("pro", WikiAutocompleteMode::Note, None).handle_wiki_autocomplete(KeyCode::Char('j'), None);
    assert_eq!(step.edits, vec![EditorEdit::InsertChar('j')]);
    assert_eq!(step.next, open("proj", WikiAutocompleteMode::Note, None, SuggestionRequest::Notes("proj".to_string())));
    assert!(step.handled);
    let step = popup("Int", WikiAutocompleteMode::Heading, Some("Plan")).handle_wiki_autocomplete(KeyCode::Char('r'), None);
    assert_eq!(step.next, open("Intr", WikiAutocompleteMode::Heading, Some("Plan"), SuggestionRequest::Headings("Plan".to_string(), "Intr".to_string())));
    let step = popup("Sh", WikiAutocompleteMode::Alias, Some("Plan")).handle_wiki_autocomplete(KeyCode::Char('o'), None);
    assert_eq!(step.next, open("Sho", WikiAutocompleteMode::Alias, Some("Plan"), SuggestionRequest::Nothing));
}

#[test]
fn hash_and_pipe_switch_modes() {
    let step = popup("Plan", WikiAutocompleteMode::Note, None).handle_wiki_autocomplete(KeyCode::Char('#'), None);
    assert_eq!(step.edits, vec![EditorEdit::InsertChar('#')]);
    assert_eq!(step.next, open("", WikiAutocompleteMode::Heading, Some("Plan"), SuggestionRequest::Headings("Plan".to_string(), String::new())));
    let step = popup("Intro", WikiAutocompleteMode::Heading, Some("Plan")).handle_wiki_autocomplete(KeyCode::Char('|'), None);
    assert_eq!(step.next, open("", WikiAutocompleteMode::Alias, Some("Plan#Intro"), SuggestionRequest::Nothing));
    let step = popup("Plan", WikiAutocompleteMode::Note, None).handle_wiki_autocomplete(KeyCode::Char('|'), None);
    assert_eq!(step.next, open("", WikiAutocompleteMode::Alias, Some("Plan"), SuggestionRequest::Nothing));
    let step = popup("x", WikiAutocompleteMode::Alias, Some("Plan")).handle_wiki_autocomplete(KeyCode::Char('|'), None);
    assert_eq!(step.next, open("x|", WikiAutocompleteMode::Alias, Some("Plan"), SuggestionRequest::Nothing));
}

#[test]
fn backspace_steps_back_through_the_modes() {
    let step = popup("ab", WikiAutocompleteMode::Note, None).handle_wiki_autocomplete(KeyCode::Backspace, None);
    assert_eq!(step.edits, vec![EditorEdit::DeleteBackward(1)]);
    assert_eq!(step.next, open("a", WikiAutocompleteMode::Note, None, SuggestionRequest::Notes("a".to_string())));
    let step = popup("", WikiAutocompleteMode::Note, None).handle_wiki_autocomplete(KeyCode::Backspace, None);
    assert_eq!(step.edits, vec![EditorEdit::DeleteBackward(2)]);
    assert_eq!(step.next, AutocompleteNext::Close);
    let step = popup("", WikiAutocompleteMode::Heading, Some("Plan")).handle_wiki_autocomplete(KeyCode::Backspace, None);
    assert_eq!(step.next, open("Plan", WikiAutocompleteMode::Note, None, SuggestionRequest::Notes("Plan".to_string())));
    let step = popup("", WikiAutocompleteMode::Alias, Some("Plan#Intro")).handle_wiki_autocomplete(KeyCode::Backspace, None);
    assert_eq!(step.next, open("Intro", WikiAutocompleteMode::Heading, Some("Plan"), SuggestionRequest::Headings("Plan".to_string(), "Intro".to_string())));
    let step = popup("", WikiAutocompleteMode::Alias, Some("Plan")).handle_wiki_autocomplete(KeyCode::Backspace, None);
    assert_eq!(step.next, open("Plan", WikiAutocompleteMode::Note, None, SuggestionRequest::Notes("Plan".to_string())));
    let step = popup("", WikiAutocompleteMode::Alias, None).handle_wiki_autocomplete(KeyCode::Backspace, None);
    assert_eq!(step.next, AutocompleteNext::Close);
    let step = popup("é", WikiAutocompleteMode::Heading, None).handle_wiki_autocomplete(KeyCode::Backspace, None);
    assert_eq!(step.next, open("", WikiAutocompleteMode::Heading, None, SuggestionRequest::Nothing));
}

#[test]
fn enter_completes_or_descends_into_folders() {
    let note = popup("pl", WikiAutocompleteMode::Note, None);
    let step = note.handle_wiki_autocomplete(KeyCode::Enter, Some(("Plan".to_string(), false)));
    assert_eq!(step.edits, vec![EditorEdit::DeleteBackward(2), EditorEdit::Insert("Plan".to_string()), EditorEdit::CloseLinkIfOpen]);
    assert_eq!(step.next, AutocompleteNext::Close);
    assert!(step.refresh_highlights);
    let step = note.handle_wiki_autocomplete(KeyCode::Tab, Some(("projects/".to_string(), true)));
    assert_eq!(step.edits, vec![EditorEdit::DeleteBackward(2), EditorEdit::Insert("projects/".to_string())]);
    assert_eq!(step.next, open("projects/", WikiAutocompleteMode::Note, None, SuggestionRequest::Notes("projects/".to_string())));
    assert!(!step.refresh_highlights);
    let step = note.handle_wiki_autocomplete(KeyCode::Enter, None);
    assert!(step.edits.is_empty());
    assert_eq!(step.next, AutocompleteNext::Keep);
    let heading = popup("In", WikiAutocompleteMode::Heading, Some("Plan"));
    let step = heading.handle_wiki_autocomplete(KeyCode::Enter, Some(("Intro".to_string(), true)));
    assert_eq!(step.next, AutocompleteNext::Close);
    let alias = popup("shown", WikiAutocompleteMode::Alias, Some("Plan"));
    let step = alias.handle_wiki_autocomplete(KeyCode::Enter, Some(("x".to_string(), false)));
    assert_eq!(step.edits, vec![EditorEdit::CloseLinkIfOpen]);
    assert_eq!(step.next, AutocompleteNext::Close);
}

#[test]
fn arrows_cycle_suggestions_except_in_alias_mode() {
    let mut note = popup("p", WikiAutocompleteMode::Note, None);
    assert_eq!(note.handle_wiki_autocomplete(KeyCode::Up, None).next, AutocompleteNext::Select(2));
    note.selected_index = 2;
    assert_eq!(note.handle_wiki_autocomplete(KeyCode::Down, None).next, AutocompleteNext::Select(0));
    assert_eq!(popup("p", WikiAutocompleteMode::Alias, Some("a")).handle_wiki_autocomplete(KeyCode::Down, None).next, AutocompleteNext::Keep);
    let empty = WikiAutocomplete { suggestion_count: 0, ..popup("p", WikiAutocompleteMode::Note, None) };
    assert_eq!(empty.handle_wiki_autocomplete(KeyCode::Down, None).next, AutocompleteNext::Keep);
}

#[test]
fn escape_closes_and_other_keys_fall_through() {
    let note = popup("p", WikiAutocompleteMode::Note, None);
    let step = note.handle_wiki_autocomplete(KeyCode::Esc, None);
    assert_eq!(step.next, AutocompleteNext::Close);
    assert!(step.handled);
    let step = note.handle_wiki_autocomplete(KeyCode::Left, None);
    assert_eq!(step.next, AutocompleteNext::Close);
    assert!(!step.handled);
    let step = note.handle_wiki_autocomplete(KeyCode::Char(']'), None);
    assert_eq!(step.edits, vec![EditorEdit::InsertChar(']')]);
    assert_eq!(step.next, AutocompleteNext::CloseAfterPair);
}

#[test]
fn bracket_checks_look_around_the_cursor() {
    assert!(link_closed_at("[[Plan]]", 6));
    assert!(!link_closed_at("[[Plan]]", 7));
    assert!(!link_closed_at("[[Plan", 6));
    assert!(closing_pair_before("[[Plan]]", 8));
    assert!(!closing_pair_before("[[Plan]]", 7));
    assert!(!closing_pair_before("]]", 1));
    assert!(!closing_pair_before("]]", 3));
    assert!(link_closed_at("[[日本]]", 4));
}
