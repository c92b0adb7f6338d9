//! The wiki-link autocomplete popup of the editor: what a key typed while it
//! is open does to the text, and what the popup becomes. The caller makes
//! the edits and builds the suggestion list asked for.
use vstd::prelude::*;

use crate::keys::KeyCode;
use crate::text::{chars_of, push_char, push_str, string_of, string_of_range};

verus! {

/// What the popup completes: a note name, a heading of a note (after `#`),
/// or the alias shown for the link (after `|`).
#[derive(Debug, Clone, Copy, PartialEq, Eq, Structural)]
pub enum WikiAutocompleteMode {
    Note,
    Heading,
    Alias,
}

/// The open popup: the text typed since it opened, how many suggestions it
/// lists, the highlighted one, its mode, and the note (with its heading, in
/// alias mode) the link points to once a note or heading is chosen.
pub struct WikiAutocomplete {
    pub query: String,
    pub suggestion_count: usize,
    pub selected_index: usize,
    pub mode: WikiAutocompleteMode,
    pub target_note: Option<String>,
}

/// An edit of the editor text at the cursor.
#[derive(Debug, Clone, PartialEq, Eq)]
pub enum EditorEdit {
    /// Delete this many characters before the cursor.
    DeleteBackward(usize),
    /// Type this text.
    Insert(String),
    /// Type this character.
    InsertChar(char),
    /// Type `]]` unless the cursor already stands before `]]`.
    CloseLinkIfOpen,
}

/// An edit as plain values.
pub enum EditView {
    DeleteBackward(nat),
    Insert(Seq<char>),
    InsertChar(char),
    CloseLinkIfOpen,
}

impl View for EditorEdit {
    type V = EditView;

    open spec fn view(&self) -> EditView {
        match self {
            EditorEdit::DeleteBackward(n) => EditView::DeleteBackward(*n as nat),
            EditorEdit::Insert(s) => EditView::Insert(s@),
            EditorEdit::InsertChar(c) => EditView::InsertChar(*c),
            EditorEdit::CloseLinkIfOpen => EditView::CloseLinkIfOpen,
        }
    }
}

/// The suggestion list a reopened popup shows.
#[derive(Debug, Clone, PartialEq, Eq)]
pub enum SuggestionRequest {
    /// Notes matching this text.
    Notes(String),
    /// Headings of the first note matching this text.
    Headings(String, String),
    /// No suggestions (alias mode).
    Nothing,
}

/// The popup after the key.
#[derive(Debug, Clone, PartialEq, Eq)]
pub enum AutocompleteNext {
    /// The popup closes.
    Close,
    /// The popup stays as it was.
    Keep,
    /// The popup stays, with this suggestion highlighted.
    Select(usize),
    /// The popup closes if the two characters before the cursor are now
    /// `]]` (see `closing_pair_before`).
    CloseAfterPair,
    /// The popup shows this query, in this mode, with this target note and
    /// these suggestions, the first one highlighted.
    Open { query: String, mode: WikiAutocompleteMode, target_note: Option<String>, suggestions: SuggestionRequest },
}

/// What a key does: the edits, in order, the popup after them, whether the
/// editor's link highlighting must be refreshed, and whether the popup took
/// the key at all.
pub struct AutocompleteStep {
    pub edits: Vec<EditorEdit>,
    pub next: AutocompleteNext,
    pub refresh_highlights: bool,
    pub handled: bool,
}

/// The suggestion list as plain values.
pub enum RequestView {
    Notes(Seq<char>),
    Headings(Seq<char>, Seq<char>),
    Nothing,
}

/// The popup after a key, as plain values.
pub enum NextView {
    Close,
    Keep,
    Select(nat),
    CloseAfterPair,
    Open { query: Seq<char>, mode: WikiAutocompleteMode, target_note: Option<Seq<char>>, suggestions: RequestView },
}

/// A key's effect as plain values.
pub struct StepView {
    pub edits: Seq<EditView>,
    pub next: NextView,
    pub refresh_highlights: bool,
    pub handled: bool,
}

/// The view of an optional string.
pub open spec fn opt_view(o: Option<String>) -> Option<Seq<char>> {
    match o {
        Some(s) => Some(s@),
        None => None,
    }
}

/// The edits as plain values.
pub open spec fn edit_views(v: Seq<EditorEdit>) -> Seq<EditView> {
    v.map_values(|e: EditorEdit| e@)
}

impl View for SuggestionRequest {
    type V = RequestView;

    open spec fn view(&self) -> RequestView {
        match self {
            SuggestionRequest::Notes(q) => RequestView::Notes(q@),
            SuggestionRequest::Headings(n, h) => RequestView::Headings(n@, h@),
            SuggestionRequest::Nothing => RequestView::Nothing,
        }
    }
}

impl View for AutocompleteNext {
    type V = NextView;

    open spec fn view(&self) -> NextView {
        match self {
            AutocompleteNext::Close => NextView::Close,
            AutocompleteNext::Keep => NextView::Keep,
            AutocompleteNext::Select(i) => NextView::Select(*i as nat),
            AutocompleteNext::CloseAfterPair => NextView::CloseAfterPair,
            AutocompleteNext::Open { query, mode, target_note, suggestions } => NextView::Open {
                query: query@,
                mode: *mode,
                target_note: opt_view(*target_note),
                suggestions: suggestions@,
            },
        }
    }
}

impl View for AutocompleteStep {
    type V = StepView;

    open spec fn view(&self) -> StepView {
        StepView {
            edits: edit_views(self.edits@),
            next: self.next@,
            refresh_highlights: self.refresh_highlights,
            handled: self.handled,
        }
    }
}

/// The position of the first `#` in `t`, if any.
pub open spec fn first_hash(t: Seq<char>, from: int) -> Option<int>
    decreases t.len() - from,
{
    if from < 0 || from >= t.len() {
        None
    } else if t[from] == '#' {
        Some(from)
    } else {
        first_hash(t, from + 1)
    }
}

/// The suggestions for a query typed in `mode`: notes matching it, the
/// target note's headings matching it, or none in alias mode (or without a
/// target note).
pub open spec fn suggestions_for(mode: WikiAutocompleteMode, target: Option<Seq<char>>, q: Seq<char>) -> RequestView {
    match mode {
        WikiAutocompleteMode::Note => RequestView::Notes(q),
        WikiAutocompleteMode::Heading => match target {
            Some(t) => RequestView::Headings(t, q),
            None => RequestView::Nothing,
        },
        WikiAutocompleteMode::Alias => RequestView::Nothing,
    }
}

/// A step that edits and reopens the popup.
pub open spec fn reopen(edits: Seq<EditView>, query: Seq<char>, mode: WikiAutocompleteMode, target: Option<Seq<char>>, s: RequestView) -> StepView {
    StepView {
        edits,
        next: NextView::Open { query, mode, target_note: target, suggestions: s },
        refresh_highlights: false,
        handled: true,
    }
}

/// A step that only edits and closes the popup.
pub open spec fn close_with(edits: Seq<EditView>, refresh: bool) -> StepView {
    StepView { edits, next: NextView::Close, refresh_highlights: refresh, handled: true }
}

/// What a key does to the open popup `(query, count, selected, mode,
/// target)`, given the highlighted suggestion's text and whether it is a
/// folder.
pub open spec fn autocomplete_step(
    query: Seq<char>,
    count: nat,
    selected: nat,
    mode: WikiAutocompleteMode,
    target: Option<Seq<char>>,
    key: KeyCode,
    suggestion: Option<(Seq<char>, bool)>,
) -> StepView {
    match key {
        KeyCode::Esc => close_with(seq![], false),
        KeyCode::Enter | KeyCode::Tab => if mode == WikiAutocompleteMode::Alias {
            close_with(seq![EditView::CloseLinkIfOpen], true)
        } else {
            match suggestion {
                None => StepView { edits: seq![], next: NextView::Keep, refresh_highlights: false, handled: true },
                Some((text, is_folder)) => {
                    let typed = seq![EditView::DeleteBackward(query.len()), EditView::Insert(text)];
                    if mode == WikiAutocompleteMode::Note && is_folder {
                        reopen(typed, text, WikiAutocompleteMode::Note, None, RequestView::Notes(text))
                    } else {
                        close_with(typed.push(EditView::CloseLinkIfOpen), true)
                    }
                },
            }
        },
        KeyCode::Down => StepView {
            edits: seq![],
            next: if mode != WikiAutocompleteMode::Alias && count > 0 {
                NextView::Select(((selected + 1) % count) as nat)
            } else {
                NextView::Keep
            },
            refresh_highlights: false,
            handled: true,
        },
        KeyCode::Up => StepView {
            edits: seq![],
            next: if mode != WikiAutocompleteMode::Alias && count > 0 {
                NextView::Select(
                    if selected == 0 {
                        (count - 1) as nat
                    } else {
                        (selected - 1) as nat
                    },
                )
            } else {
                NextView::Keep
            },
            refresh_highlights: false,
            handled: true,
        },
        KeyCode::Backspace => if query.len() == 0 {
            match mode {
                WikiAutocompleteMode::Note => close_with(seq![EditView::DeleteBackward(2)], false),
                WikiAutocompleteMode::Heading => match target {
                    Some(t) => reopen(seq![EditView::DeleteBackward(1)], t, WikiAutocompleteMode::Note, None, RequestView::Notes(t)),
                    None => close_with(seq![EditView::DeleteBackward(1)], false),
                },
                WikiAutocompleteMode::Alias => match target {
                    Some(t) => match first_hash(t, 0) {
                        Some(i) => reopen(
                            seq![EditView::DeleteBackward(1)],
                            t.subrange(i + 1, t.len() as int),
                            WikiAutocompleteMode::Heading,
                            Some(t.subrange(0, i)),
                            RequestView::Headings(t.subrange(0, i), t.subrange(i + 1, t.len() as int)),
                        ),
                        None => reopen(seq![EditView::DeleteBackward(1)], t, WikiAutocompleteMode::Note, None, RequestView::Notes(t)),
                    },
                    None => close_with(seq![EditView::DeleteBackward(1)], false),
                },
            }
        } else {
            let q = query.drop_last();
            reopen(seq![EditView::DeleteBackward(1)], q, mode, target, suggestions_for(mode, target, q))
        },
        KeyCode::Char(']') => StepView {
            edits: seq![EditView::InsertChar(']')],
            next: NextView::CloseAfterPair,
            refresh_highlights: false,
            handled: true,
        },
        KeyCode::Char('#') if mode == WikiAutocompleteMode::Note => reopen(
            seq![EditView::InsertChar('#')],
            seq![],
            WikiAutocompleteMode::Heading,
            Some(query),
            RequestView::Headings(query, seq![]),
        ),
        KeyCode::Char('|') if mode != WikiAutocompleteMode::Alias => reopen(
            seq![EditView::InsertChar('|')],
            seq![],
            WikiAutocompleteMode::Alias,
            Some(
                if mode == WikiAutocompleteMode::Heading {
                    match target {
                        Some(t) => t + seq!['#'] + query,
                        None => query,
                    }
                } else {
                    query
                },
            ),
            RequestView::Nothing,
        ),
        KeyCode::Char(c) => {
            let q = query.push(c);
            reopen(seq![EditView::InsertChar(c)], q, mode, target, suggestions_for(mode, target, q))
        },
        _ => StepView { edits: seq![], next: NextView::Close, refresh_highlights: false, handled: false },
    }
}

/// Typing a character and erasing it again gives back the popup's query
/// and suggestions, for any character that does not close the link or
/// switch the popup to headings or alias.
pub proof fn lemma_type_then_erase(
    query: Seq<char>,
    count: nat,
    selected: nat,
    mode: WikiAutocompleteMode,
    target: Option<Seq<char>>,
    c: char,
    count2: nat,
)
    requires
        c != ']',
        !(c == '#' && mode == WikiAutocompleteMode::Note),
        !(c == '|' && mode != WikiAutocompleteMode::Alias),
    ensures
        autocomplete_step(query, count, selected, mode, target, KeyCode::Char(c), None).next == (NextView::Open {
            query: query.push(c),
            mode,
            target_note: target,
            suggestions: suggestions_for(mode, target, query.push(c)),
        }),
        autocomplete_step(query.push(c), count2, 0, mode, target, KeyCode::Backspace, None).next == (NextView::Open {
            query,
            mode,
            target_note: target,
            suggestions: suggestions_for(mode, target, query),
        }),
{
    assert(query.push(c).drop_last() =~= query);
}

fn copy_string(s: &String) -> (r: String)
    ensures
        r@ == s@,
{
    let cs = chars_of(s.as_str());
    string_of(cs.as_slice())
}

fn copy_target(t: &Option<String>) -> (r: Option<String>)
    ensures
        opt_view(r) == opt_view(*t),
{
    match t {
        Some(s) => Some(copy_string(s)),
        None => None,
    }
}

fn suggestions_exec(mode: WikiAutocompleteMode, target: &Option<String>, q: &String) -> (r: SuggestionRequest)
    ensures
        r@ == suggestions_for(mode, opt_view(*target), q@),
{
    match mode {
        WikiAutocompleteMode::Note => SuggestionRequest::Notes(copy_string(q)),
        WikiAutocompleteMode::Heading => match target {
            Some(t) => SuggestionRequest::Headings(copy_string(t), copy_string(q)),
            None => SuggestionRequest::Nothing,
        },
        WikiAutocompleteMode::Alias => SuggestionRequest::Nothing,
    }
}

fn one_edit(e: EditorEdit) -> (v: Vec<EditorEdit>)
    ensures
        edit_views(v@) == seq![e@],
{
    let mut v: Vec<EditorEdit> = Vec::new();
    v.push(e);
    proof {
        assert(edit_views(v@) =~= seq![e@]);
    }
    v
}

fn first_hash_exec(t: &[char]) -> (r: Option<usize>)
    ensures
        r is None <==> first_hash(t@, 0) is None,
        r matches Some(i) ==> i < t@.len() && first_hash(t@, 0) == Some(i as int),
{
    let n = t.len();
    let mut i: usize = 0;
    while i < n
        invariant
            n == t.len(),
            i <= n,
            first_hash(t@, 0) == first_hash(t@, i as int),
        decreases n - i,
    {
        if t[i] == '#' {
            return Some(i);
        }
        i += 1;
    }
    None
}

impl WikiAutocomplete {
    /// The popup's state as plain values.
    pub open spec fn step_of(&self, key: KeyCode, suggestion: Option<(String, bool)>) -> StepView {
        autocomplete_step(
            self.query@,
            self.suggestion_count as nat,
            self.selected_index as nat,
            self.mode,
            opt_view(self.target_note),
            key,
            match suggestion {
                Some((t, f)) => Some((t@, f)),
                None => None,
            },
        )
    }

    /// What `key` does while the popup is open. `suggestion` is the
    /// highlighted suggestion's text and whether it names a folder (`None`
    /// when nothing is highlighted).
    pub fn handle_wiki_autocomplete(&self, key: KeyCode, suggestion: Option<(String, bool)>) -> (r: AutocompleteStep)
        requires
            self.selected_index < usize::MAX,
        ensures
            r@ == self.step_of(key, suggestion),
    {
        let mode = self.mode;
        match key {
            KeyCode::Esc => {
                let r = AutocompleteStep { edits: Vec::new(), next: AutocompleteNext::Close, refresh_highlights: false, handled: true };
                proof {
                    assert(r@.edits =~= seq![]);
                assert(r@ == self.step_of(key, suggestion));
                }
                r
            },
            KeyCode::Enter | KeyCode::Tab => {
                if mode == WikiAutocompleteMode::Alias {
                    return AutocompleteStep {
                        edits: one_edit(EditorEdit::CloseLinkIfOpen),
                        next: AutocompleteNext::Close,
                        refresh_highlights: true,
                        handled: true,
                    };
                }
                match suggestion {
                    None => {
                        let r = AutocompleteStep { edits: Vec::new(), next: AutocompleteNext::Keep, refresh_highlights: false, handled: true };
                        proof {
                            assert(r@.edits =~= seq![]);
                        assert(r@ == self.step_of(key, suggestion));
                        }
                        r
                    },
                    Some((text, is_folder)) => {
                        let count = chars_of(self.query.as_str()).len();
                        let mut edits: Vec<EditorEdit> = Vec::new();
                        edits.push(EditorEdit::DeleteBackward(count));
                        edits.push(EditorEdit::Insert(copy_string(&text)));
                        if mode == WikiAutocompleteMode::Note && is_folder {
                            let r = AutocompleteStep {
                                edits,
                                next: AutocompleteNext::Open {
                                    query: copy_string(&text),
                                    mode: WikiAutocompleteMode::Note,
                                    target_note: None,
                                    suggestions: SuggestionRequest::Notes(copy_string(&text)),
                                },
                                refresh_highlights: false,
                                handled: true,
                            };
                            proof {
                                assert(r@.edits =~= seq![EditView::DeleteBackward(self.query@.len()), EditView::Insert(text@)]);
                            }
                            r
                        } else {
                            edits.push(EditorEdit::CloseLinkIfOpen);
                            let r = AutocompleteStep { edits, next: AutocompleteNext::Close, refresh_highlights: true, handled: true };
                            proof {
                                assert(r@.edits =~= seq![
                                    EditView::DeleteBackward(self.query@.len()),
                                    EditView::Insert(text@),
                                    EditView::CloseLinkIfOpen,
                                ]);
                                assert(seq![EditView::DeleteBackward(self.query@.len()), EditView::Insert(text@)].push(
                                    EditView::CloseLinkIfOpen,
                                ) =~= seq![
                                    EditView::DeleteBackward(self.query@.len()),
                                    EditView::Insert(text@),
                                    EditView::CloseLinkIfOpen,
                                ]);
                            }
                            r
                        }
                    },
                }
            },
            KeyCode::Down => {
                let count = self.suggestion_count;
                let next = if mode != WikiAutocompleteMode::Alias && count > 0 {
                    AutocompleteNext::Select((self.selected_index + 1) % count)
                } else {
                    AutocompleteNext::Keep
                };
                let r = AutocompleteStep { edits: Vec::new(), next, refresh_highlights: false, handled: true };
                proof {
                    assert(r@.edits =~= seq![]);
                assert(r@ == self.step_of(key, suggestion));
                }
                r
            },
            KeyCode::Up => {
                let count = self.suggestion_count;
                let next = if mode != WikiAutocompleteMode::Alias && count > 0 {
                    AutocompleteNext::Select(
                        if self.selected_index == 0 {
                            count - 1
                        } else {
                            self.selected_index - 1
                        },
                    )
                } else {
                    AutocompleteNext::Keep
                };
                let r = AutocompleteStep { edits: Vec::new(), next, refresh_highlights: false, handled: true };
                proof {
                    assert(r@.edits =~= seq![]);
                assert(r@ == self.step_of(key, suggestion));
                }
                r
            },
            KeyCode::Backspace => {
                let r = self.backspace_step();
                assert(self.step_of(key, suggestion) == self.step_of(KeyCode::Backspace, None));
                r
            },
            KeyCode::Char(c) => {
                let r = self.char_step(c);
                assert(self.step_of(key, suggestion) == self.step_of(KeyCode::Char(c), None));
                r
            },
            _ => {
                let r = AutocompleteStep { edits: Vec::new(), next: AutocompleteNext::Close, refresh_highlights: false, handled: false };
                proof {
                    assert(r@.edits =~= seq![]);
                assert(r@ == self.step_of(key, suggestion));
                }
                r
            },
        }
    }

    fn backspace_step(&self) -> (r: AutocompleteStep)
        ensures
            r@ == self.step_of(KeyCode::Backspace, None),
    {
        let qs = chars_of(self.query.as_str());
        let mode = self.mode;
        if qs.len() == 0 {
            match mode {
                WikiAutocompleteMode::Note => AutocompleteStep {
                    edits: one_edit(EditorEdit::DeleteBackward(2)),
                    next: AutocompleteNext::Close,
                    refresh_highlights: false,
                    handled: true,
                },
                WikiAutocompleteMode::Heading => match &self.target_note {
                    Some(t) => AutocompleteStep {
                        edits: one_edit(EditorEdit::DeleteBackward(1)),
                        next: AutocompleteNext::Open {
                            query: copy_string(t),
                            mode: WikiAutocompleteMode::Note,
                            target_note: None,
                            suggestions: SuggestionRequest::Notes(copy_string(t)),
                        },
                        refresh_highlights: false,
                        handled: true,
                    },
                    None => AutocompleteStep {
                        edits: one_edit(EditorEdit::DeleteBackward(1)),
                        next: AutocompleteNext::Close,
                        refresh_highlights: false,
                        handled: true,
                    },
                },
                WikiAutocompleteMode::Alias => match &self.target_note {
                    Some(t) => {
                        let ts = chars_of(t.as_str());
                        match first_hash_exec(ts.as_slice()) {
                            Some(i) => {
                                assert(i < ts.len());
                                let note_part = string_of_range(ts.as_slice(), 0, i);
                                let heading_part = string_of_range(ts.as_slice(), i + 1, ts.len());
                                assert(note_part@ =~= t@.subrange(0, i as int));
                                assert(heading_part@ =~= t@.subrange(i + 1, t@.len() as int));
                                let r = AutocompleteStep {
                                    edits: one_edit(EditorEdit::DeleteBackward(1)),
                                    next: AutocompleteNext::Open {
                                        query: copy_string(&heading_part),
                                        mode: WikiAutocompleteMode::Heading,
                                        target_note: Some(copy_string(&note_part)),
                                        suggestions: SuggestionRequest::Headings(note_part, heading_part),
                                    },
                                    refresh_highlights: false,
                                    handled: true,
                                };
                                r
                            },
                            None => AutocompleteStep {
                                edits: one_edit(EditorEdit::DeleteBackward(1)),
                                next: AutocompleteNext::Open {
                                    query: copy_string(t),
                                    mode: WikiAutocompleteMode::Note,
                                    target_note: None,
                                    suggestions: SuggestionRequest::Notes(copy_string(t)),
                                },
                                refresh_highlights: false,
                                handled: true,
                            },
                        }
                    },
                    None => AutocompleteStep {
                        edits: one_edit(EditorEdit::DeleteBackward(1)),
                        next: AutocompleteNext::Close,
                        refresh_highlights: false,
                        handled: true,
                    },
                },
            }
        } else {
            let q = string_of_range(qs.as_slice(), 0, qs.len() - 1);
            assert(q@ =~= self.query@.drop_last());
            let suggestions = suggestions_exec(mode, &self.target_note, &q);
            let r = AutocompleteStep {
                edits: one_edit(EditorEdit::DeleteBackward(1)),
                next: AutocompleteNext::Open { query: q, mode, target_note: copy_target(&self.target_note), suggestions },
                refresh_highlights: false,
                handled: true,
            };
            r
        }
    }

    fn char_step(&self, c: char) -> (r: AutocompleteStep)
        ensures
            r@ == self.step_of(KeyCode::Char(c), None),
    {
        let mode = self.mode;
        if c == ']' {
            return AutocompleteStep {
                edits: one_edit(EditorEdit::InsertChar(']')),
                next: AutocompleteNext::CloseAfterPair,
                refresh_highlights: false,
                handled: true,
            };
        }
        if c == '#' && mode == WikiAutocompleteMode::Note {
            return AutocompleteStep {
                edits: one_edit(EditorEdit::InsertChar('#')),
                next: AutocompleteNext::Open {
                    query: String::new(),
                    mode: WikiAutocompleteMode::Heading,
                    target_note: Some(copy_string(&self.query)),
                    suggestions: SuggestionRequest::Headings(copy_string(&self.query), String::new()),
                },
                refresh_highlights: false,
                handled: true,
            };
        }
        if c == '|' && mode != WikiAutocompleteMode::Alias {
            let full = if mode == WikiAutocompleteMode::Heading {
                match &self.target_note {
                    Some(t) => {
                        let mut s = copy_string(t);
                        push_char(&mut s, '#');
                        push_str(&mut s, self.query.as_str());
                        assert(s@ =~= t@ + seq!['#'] + self.query@);
                        s
                    },
                    None => copy_string(&self.query),
                }
            } else {
                copy_string(&self.query)
            };
            return AutocompleteStep {
                edits: one_edit(EditorEdit::InsertChar('|')),
                next: AutocompleteNext::Open {
                    query: String::new(),
                    mode: WikiAutocompleteMode::Alias,
                    target_note: Some(full),
                    suggestions: SuggestionRequest::Nothing,
                },
                refresh_highlights: false,
                handled: true,
            };
        }
        let mut q = copy_string(&self.query);
        push_char(&mut q, c);
        let suggestions = suggestions_exec(mode, &self.target_note, &q);
        AutocompleteStep {
            edits: one_edit(EditorEdit::InsertChar(c)),
            next: AutocompleteNext::Open { query: q, mode, target_note: copy_target(&self.target_note), suggestions },
            refresh_highlights: false,
            handled: true,
        }
    }
}

/// Whether the link is already closed at the cursor: the characters at
/// column `col` and the next are `]]`.
pub fn link_closed_at(line: &str, col: usize) -> (b: bool)
    ensures
        b == (col + 1 < line@.len() && line@[col as int] == ']' && line@[col + 1] == ']'),
{
    let cs = chars_of(line);
    col < cs.len() && cs.len() - col > 1 && cs[col] == ']' && cs[col + 1] == ']'
}

/// Whether the two characters before column `col` are `]]`, which closes
/// the popup after a typed `]`.
pub fn closing_pair_before(line: &str, col: usize) -> (b: bool)
    ensures
        b == (2 <= col <= line@.len() && line@[col - 2] == ']' && line@[col - 1] == ']'),
{
    let cs = chars_of(line);
    col >= 2 && col <= cs.len() && cs[col - 2] == ']' && cs[col - 1] == ']'
}

} // verus!
