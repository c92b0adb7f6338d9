//! Plain state types of an editing session: modes, dialogs, toasts, the
//! rendered content items of a note and their table metadata.
use vstd::prelude::*;

use crate::config::{StyleMode, ThemeEntry};
use crate::geometry::Rect;
use crate::tasks::NoteId;
use crate::text::{chars_of, same_chars, string_of, trim, trim_bounds};

verus! {

/// Where block-insert mode places typed text relative to the block.
#[derive(Debug, Clone, Copy, PartialEq, Eq, Structural)]
pub enum BlockInsertMode {
    Insert,
    Append,
}

/// Severity of a transient [`Toast`] notification, used to pick its accent
/// color.
#[derive(Debug, Clone, Copy, PartialEq, Eq, Structural)]
pub enum ToastKind {
    Error,
    Info,
    Success,
}

/// How long a toast stays on screen before auto-dismissing, in nanoseconds
/// (four seconds).
pub const TOAST_TTL_NANOS: u64 = 4_000_000_000;

/// A short-lived, non-blocking notification shown as a floating overlay.
/// `shown_at` is the moment it appeared, in nanoseconds on the session's
/// monotonic clock.
#[derive(Debug, Clone)]
pub struct Toast {
    pub message: String,
    pub kind: ToastKind,
    pub shown_at: u64,
}

impl Toast {
    /// Whether the toast has been on screen for its whole lifetime at `now`.
    /// A `now` before `shown_at` counts as no time elapsed.
    pub fn is_expired_at(&self, now: u64) -> (b: bool)
        ensures
            b == (now >= self.shown_at && now - self.shown_at >= TOAST_TTL_NANOS),
    {
        now.saturating_sub(self.shown_at) >= TOAST_TTL_NANOS
    }
}

/// An active block insertion over a range of rows.
#[derive(Debug, Clone, Copy)]
pub struct BlockInsertState {
    pub mode: BlockInsertMode,
    pub rows: (usize, usize),
    pub insert_col: usize,
    pub active_row: usize,
    pub start_col: usize,
}

/// Frontmatter fields kept for every note in the catalog.
#[derive(Debug, Clone)]
pub struct CompactFrontmatter {
    pub tags: Vec<String>,
    pub date: Option<String>,
}

/// Whether the content pane is being read or edited.
#[derive(Debug, Clone, Copy, PartialEq, Eq, Structural)]
pub enum Mode {
    Normal,
    Edit,
}

/// The dialog or full-screen view currently open.
#[derive(Debug, Clone, Copy, PartialEq, Eq, Structural)]
pub enum DialogState {
    /// No dialog is open.
    Closed,
    Onboarding,
    CreateNote,
    CreateFolder,
    CreateNoteInFolder,
    DeleteConfirm,
    DeleteFolderConfirm,
    RenameNote,
    RenameFolder,
    Help,
    EmptyDirectory,
    DirectoryNotFound,
    UnsavedChanges,
    CreateWikiNote,
    GraphView,
    TaskView,
    ThemeSelector,
}

/// What a launch opens with, from whether this is the first launch (`None`
/// when a notes path was given on the command line), whether the notes
/// directory exists and whether it holds no notes, and whether the welcome
/// screen is enabled: the dialog shown, whether the welcome screen shows,
/// and whether the notes are loaded.
pub fn launch_state(first_launch: Option<bool>, notes_dir_exists: bool, notes_dir_empty: bool, welcome_shown: bool) -> (r: (
    DialogState,
    bool,
    bool,
))
    ensures
        r.0 == if first_launch == Some(true) {
            DialogState::Onboarding
        } else if !notes_dir_exists {
            DialogState::DirectoryNotFound
        } else if notes_dir_empty {
            DialogState::EmptyDirectory
        } else {
            DialogState::Closed
        },
        r.1 == (first_launch == Some(false) && welcome_shown && notes_dir_exists && !notes_dir_empty),
        r.2 == (first_launch != Some(true) && notes_dir_exists),
{
    let first = match first_launch {
        Some(f) => f,
        None => false,
    };
    let dialog = if first {
        DialogState::Onboarding
    } else if !notes_dir_exists {
        DialogState::DirectoryNotFound
    } else if notes_dir_empty {
        DialogState::EmptyDirectory
    } else {
        DialogState::Closed
    };
    let show_welcome = match first_launch {
        Some(f) => !f && welcome_shown && notes_dir_exists && !notes_dir_empty,
        None => false,
    };
    (dialog, show_welcome, !first && notes_dir_exists)
}

/// State for the theme selector modal. Live-previews the highlighted theme as
/// the user navigates; the original theme is restored on cancel and the
/// selected one is persisted on confirm.
#[derive(Debug, Clone)]
pub struct ThemePicker {
    pub themes: Vec<ThemeEntry>,
    pub selected: usize,
    pub scroll_offset: usize,
    pub style: StyleMode,
    /// Theme name active when the picker was opened, restored on Esc.
    pub original_theme_name: String,
    pub original_style: StyleMode,
}

/// Whether `i` is where the theme named `name` stands in `themes`: its
/// first entry with that name, or 0 when none has it.
pub open spec fn theme_position(themes: Seq<ThemeEntry>, name: Seq<char>, i: int) -> bool {
    ||| (0 <= i < themes.len() && themes[i].name@ == name && forall|j: int|
        0 <= j < i ==> #[trigger] themes[j].name@ != name)
    ||| (i == 0 && forall|j: int| 0 <= j < themes.len() ==> #[trigger] themes[j].name@ != name)
}

impl ThemePicker {
    /// The theme selector over `themes`, with the active theme
    /// `current_theme` highlighted (the first theme when it is not listed)
    /// and remembered, with the style, for cancelling; `None` when there is
    /// no theme to pick.
    pub fn open_theme_selector(themes: Vec<ThemeEntry>, current_theme: &str, style: StyleMode) -> (r: Option<
        ThemePicker,
    >)
        ensures
            themes.len() == 0 <==> r is None,
            r is Some ==> {
                let p = r->0;
                &&& p.themes@ == themes@
                &&& theme_position(themes@, current_theme@, p.selected as int)
                &&& p.scroll_offset == 0
                &&& p.style == style
                &&& p.original_theme_name@ == current_theme@
                &&& p.original_style == style
            },
    {
        let n = themes.len();
        if n == 0 {
            return None;
        }
        let target = chars_of(current_theme);
        let mut selected: usize = 0;
        let mut i: usize = 0;
        while i < n
            invariant_except_break
                selected == 0,
            invariant
                n == themes.len(),
                0 < n,
                i <= n,
                target@ == current_theme@,
                forall|j: int| 0 <= j < i ==> #[trigger] themes@[j].name@ != current_theme@,
            ensures
                theme_position(themes@, current_theme@, selected as int),
            decreases n - i,
        {
            let name = chars_of(themes[i].name.as_str());
            if same_chars(name.as_slice(), target.as_slice()) {
                selected = i;
                break;
            }
            i += 1;
        }
        let original = string_of(target.as_slice());
        Some(
            ThemePicker {
                themes,
                selected,
                scroll_offset: 0,
                style,
                original_theme_name: original,
                original_style: style,
            },
        )
    }

    /// Highlights the next theme, wrapping to the first.
    pub fn theme_selector_select_next(&mut self)
        requires
            old(self).themes.len() > 0 ==> old(self).selected < usize::MAX,
        ensures
            final(self).themes@ == old(self).themes@,
            final(self).style == old(self).style,
            final(self).selected == if old(self).themes.len() == 0 {
                old(self).selected as int
            } else {
                (old(self).selected + 1) % (old(self).themes.len() as int)
            },
    {
        let len = self.themes.len();
        if len == 0 {
            return;
        }
        self.selected = (self.selected + 1) % len;
    }

    /// Highlights the previous theme, wrapping to the last.
    pub fn theme_selector_select_prev(&mut self)
        ensures
            final(self).themes@ == old(self).themes@,
            final(self).style == old(self).style,
            final(self).selected == if old(self).themes.len() == 0 {
                old(self).selected as int
            } else if old(self).selected == 0 {
                old(self).themes.len() - 1
            } else {
                old(self).selected - 1
            },
    {
        let len = self.themes.len();
        if len == 0 {
            return;
        }
        self.selected = if self.selected == 0 {
            len - 1
        } else {
            self.selected - 1
        };
    }

    /// Switches between the outlined and the flat style.
    pub fn theme_selector_toggle_style(&mut self)
        ensures
            final(self).themes@ == old(self).themes@,
            final(self).selected == old(self).selected,
            final(self).style == match old(self).style {
                StyleMode::Outlined => StyleMode::Flat,
                StyleMode::Flat => StyleMode::Outlined,
            },
    {
        self.style = match self.style {
            StyleMode::Outlined => StyleMode::Flat,
            StyleMode::Flat => StyleMode::Outlined,
        };
    }

    /// The highlighted theme, previewed while moving and saved on confirm.
    pub fn selected_theme(&self) -> (r: Option<&ThemeEntry>)
        ensures
            r == if self.selected < self.themes.len() {
                Some(&self.themes@[self.selected as int])
            } else {
                None
            },
    {
        if self.selected < self.themes.len() {
            Some(&self.themes[self.selected])
        } else {
            None
        }
    }
}

/// Sidebar ordering of notes.
#[derive(Debug, Clone, Copy, PartialEq, Eq, Structural)]
pub enum SortMode {
    NameAsc,
    NameDesc,
    ModifiedOldest,
    ModifiedNewest,
    CreatedOldest,
    CreatedNewest,
}

/// Position of a sort mode in the cycle.
pub open spec fn sort_mode_index(m: SortMode) -> int {
    match m {
        SortMode::NameAsc => 0,
        SortMode::NameDesc => 1,
        SortMode::ModifiedOldest => 2,
        SortMode::ModifiedNewest => 3,
        SortMode::CreatedOldest => 4,
        SortMode::CreatedNewest => 5,
    }
}

impl Default for SortMode {
    fn default() -> (m: SortMode)
        ensures
            m == SortMode::NameAsc,
    {
        SortMode::NameAsc
    }
}

impl SortMode {
    /// The next mode in the cycle, wrapping from the last to the first.
    pub fn next(self) -> (m: SortMode)
        ensures
            sort_mode_index(m) == (sort_mode_index(self) + 1) % 6,
    {
        match self {
            SortMode::NameAsc => SortMode::NameDesc,
            SortMode::NameDesc => SortMode::ModifiedOldest,
            SortMode::ModifiedOldest => SortMode::ModifiedNewest,
            SortMode::ModifiedNewest => SortMode::CreatedOldest,
            SortMode::CreatedOldest => SortMode::CreatedNewest,
            SortMode::CreatedNewest => SortMode::NameAsc,
        }
    }

    /// Short label for the status line.
    pub fn label(self) -> (s: &'static str)
        ensures
            s@ == (match self {
                SortMode::NameAsc => "A→Z"@,
                SortMode::NameDesc => "Z→A"@,
                SortMode::ModifiedOldest => "Mod↑"@,
                SortMode::ModifiedNewest => "Mod↓"@,
                SortMode::CreatedOldest => "Cre↑"@,
                SortMode::CreatedNewest => "Cre↓"@,
            }),
    {
        match self {
            SortMode::NameAsc => "A→Z",
            SortMode::NameDesc => "Z→A",
            SortMode::ModifiedOldest => "Mod↑",
            SortMode::ModifiedNewest => "Mod↓",
            SortMode::CreatedOldest => "Cre↑",
            SortMode::CreatedNewest => "Cre↓",
        }
    }
}

/// Cycling through the sort modes six times returns to the start.
pub proof fn lemma_sort_mode_cycle(m: SortMode)
    ensures
        sort_mode_index(m) == 0 ==> m == SortMode::NameAsc,
        forall|a: SortMode, b: SortMode| sort_mode_index(a) == sort_mode_index(b) ==> a == b,
{
}

/// Which pane has keyboard focus.
#[derive(Debug, Clone, Copy, PartialEq, Eq, Structural)]
pub enum Focus {
    Sidebar,
    Content,
    Outline,
}

/// One heading in the outline pane.
#[derive(Debug, Clone, Copy, PartialEq, Eq, Structural)]
pub struct OutlineItem {
    pub level: u8,
    pub source_line: u32,
    pub line: usize,
}

/// Bookkeeping for a decoded image placed on screen: its size in cells, the
/// bytes it was decoded from, and the document generation and frame epoch in
/// which it was last shown.
#[derive(Debug, Clone, Copy, PartialEq, Eq, Structural)]
pub struct ImageState {
    pub width: u16,
    pub height: u16,
    pub source_bytes: usize,
    pub document_generation: u64,
    pub last_visible_epoch: u64,
}

/// Screen area of one inline image thumbnail.
#[derive(Debug, Clone, Copy)]
pub struct InlineImageRect {
    pub item_index: usize,
    pub selection_index: usize,
    pub rect: Rect,
}

/// Horizontal alignment of a table column.
#[derive(Debug, Clone, Copy, PartialEq, Eq, Structural)]
pub enum Alignment {
    Left,
    Center,
    Right,
}

/// Alignment named by a GFM separator cell once trimmed: a colon at both ends
/// centers, a colon only at the end aligns right, anything else aligns left.
pub open spec fn separator_alignment(t: Seq<char>) -> Alignment {
    let starts = t.len() > 0 && t[0] == ':';
    let ends = t.len() > 0 && t[t.len() - 1] == ':';
    if starts && ends {
        Alignment::Center
    } else if ends {
        Alignment::Right
    } else {
        Alignment::Left
    }
}

impl Alignment {
    /// Classify a GFM table separator cell (e.g. `:---`, `---:`, `:---:`,
    /// `---`) into its alignment. Any cell without a leading `:` is treated as
    /// Left (matches GFM's default-left convention).
    pub fn from_separator_cell(cell: &str) -> (a: Alignment)
        ensures
            a == separator_alignment(trim(cell@)),
    {
        let cs = chars_of(cell);
        let (a, b) = trim_bounds(cs.as_slice());
        let ghost t = cs@.subrange(a as int, b as int);
        let starts = a < b && cs[a] == ':';
        let ends = a < b && cs[b - 1] == ':';
        assert(starts == (t.len() > 0 && t[0] == ':'));
        assert(ends == (t.len() > 0 && t[t.len() - 1] == ':'));
        if starts && ends {
            Alignment::Center
        } else if ends {
            Alignment::Right
        } else {
            Alignment::Left
        }
    }
}

/// A byte range of the open document's text.
#[derive(Debug, Clone, Copy, PartialEq, Eq, Structural)]
pub struct DocumentRange {
    pub start: u32,
    pub end: u32,
}

/// One rendered item of the open note.
#[derive(Debug, Clone)]
pub enum ContentItem {
    TextLine { range: DocumentRange, source_line: u32, heading_level: u8 },
    MathBlock { range: DocumentRange, source_line: u32, end_line: u32 },
    Image { path: DocumentRange, source_line: u32 },
    CodeLine { range: DocumentRange, source_line: u32 },
    CodeFence { language: DocumentRange, source_line: u32 },
    TaskItem { text: DocumentRange, checked: bool, source_line: u32, indent: u16 },
    TableRow {
        cells: Vec<DocumentRange>,
        table: u32,
        source_line: u32,
        is_separator: bool,
        is_header: bool,
    },
    Details { summary: Option<DocumentRange>, content_lines: Vec<u32>, source_line: u32 },
    FrontmatterLine { key: DocumentRange, value: DocumentRange, source_line: u32 },
    FrontmatterDelimiter { source_line: u32 },
    TagBadges,
}

/// The source line an item was rendered from; tag badges belong to line 0.
pub open spec fn item_source_line(item: ContentItem) -> u32 {
    match item {
        ContentItem::TextLine { source_line, .. } => source_line,
        ContentItem::MathBlock { source_line, .. } => source_line,
        ContentItem::Image { source_line, .. } => source_line,
        ContentItem::CodeLine { source_line, .. } => source_line,
        ContentItem::CodeFence { source_line, .. } => source_line,
        ContentItem::TaskItem { source_line, .. } => source_line,
        ContentItem::TableRow { source_line, .. } => source_line,
        ContentItem::Details { source_line, .. } => source_line,
        ContentItem::FrontmatterLine { source_line, .. } => source_line,
        ContentItem::FrontmatterDelimiter { source_line } => source_line,
        ContentItem::TagBadges => 0,
    }
}

impl ContentItem {
    /// The source line the item was rendered from.
    pub fn source_line(&self) -> (n: usize)
        ensures
            n == item_source_line(*self),
    {
        match self {
            ContentItem::TextLine { source_line, .. } => *source_line as usize,
            ContentItem::MathBlock { source_line, .. } => *source_line as usize,
            ContentItem::Image { source_line, .. } => *source_line as usize,
            ContentItem::CodeLine { source_line, .. } => *source_line as usize,
            ContentItem::CodeFence { source_line, .. } => *source_line as usize,
            ContentItem::TaskItem { source_line, .. } => *source_line as usize,
            ContentItem::TableRow { source_line, .. } => *source_line as usize,
            ContentItem::Details { source_line, .. } => *source_line as usize,
            ContentItem::FrontmatterLine { source_line, .. } => *source_line as usize,
            ContentItem::FrontmatterDelimiter { source_line } => *source_line as usize,
            ContentItem::TagBadges => 0,
        }
    }
}

/// Column widths and alignments shared by the rows of one table.
#[derive(Debug, Clone)]
pub struct TableMetadata {
    pub column_widths: Vec<u16>,
    pub alignments: Vec<Alignment>,
}

/// The links of one content item: `len` links starting at index `start` of
/// the document's link list, `image_count` of them images.
#[derive(Debug, Clone, Copy, Default, PartialEq, Eq, Structural)]
pub struct DocumentLinkRange {
    pub start: u32,
    pub len: u16,
    pub image_count: u16,
}

/// A size constraint of one row in the content layout.
#[derive(Debug, Clone, Copy, PartialEq, Eq, Structural)]
pub enum Constraint {
    Min(u16),
    Max(u16),
    Length(u16),
    Percentage(u16),
    Ratio(u32, u32),
    Fill(u16),
}

/// Buffers reused between frames when laying out the content pane.
#[derive(Debug, Clone, Default)]
pub struct ContentRenderScratch {
    pub item_text_heights: Vec<u16>,
    pub constraints: Vec<Constraint>,
    pub visible_indices: Vec<usize>,
    pub height_generation: u64,
    pub height_width: usize,
}

/// What one round of background polling found: whether to redraw, whether
/// work is still in flight, and how long to wait for input before polling
/// again, in milliseconds.
#[derive(Debug, Clone, Copy)]
pub struct BackgroundActivity {
    pub redraw: bool,
    pub has_work: bool,
    pub poll_timeout_ms: u64,
}

/// What a pending delete operator removes.
#[derive(Debug, Clone, Copy, PartialEq, Eq, Structural)]
pub enum DeleteType {
    Word,
    Line,
}

/// Navigation history entry storing a note and the cursor and scroll
/// position in it.
#[derive(Debug, Clone, Copy)]
pub struct NavigationEntry {
    pub note_id: NoteId,
    pub content_cursor: usize,
    pub content_scroll_offset: usize,
}

/// `a - b`, or 0 when `b` is larger.
pub open spec fn minus(a: int, b: int) -> int {
    if a >= b {
        a - b
    } else {
        0
    }
}

/// The item, among items whose source lines are `ls`, that a jump to
/// source line `t` lands on, scanning from item `i` with the best item so
/// far and its distance: an item on the line itself; else the last item
/// before the line, or the first one after it when that is nearer.
pub open spec fn line_match_from(ls: Seq<usize>, t: int, i: int, best: int, best_diff: int) -> int
    decreases ls.len() - i,
{
    if i < 0 || i >= ls.len() {
        best
    } else if ls[i] == t {
        i
    } else if ls[i] < t {
        if t - ls[i] < best_diff {
            line_match_from(ls, t, i + 1, i, t - ls[i])
        } else {
            line_match_from(ls, t, i + 1, best, best_diff)
        }
    } else if ls[i] - t < best_diff {
        i
    } else {
        best
    }
}

/// Where the preview lands for a search hit on line `line_number`
/// (counted from 1) of a note whose content items start on the source lines
/// `source_lines`: the item to select, and the scroll offset that shows it
/// a third of a screen down.
pub fn content_position_for_line(source_lines: &[usize], line_number: usize) -> (r: (usize, usize))
    ensures
        ({
            let t = minus(line_number as int, 1);
            let m = line_match_from(source_lines@, t, 0, 0, usize::MAX as int);
            let last = minus(source_lines@.len() as int, 1);
            let cursor = if m < last { m } else { last };
            r.0 == cursor && r.1 == minus(cursor, 6)
        }),
{
    let t = line_number.saturating_sub(1);
    let ghost ls = source_lines@;
    let mut best: usize = 0;
    let mut best_diff: usize = usize::MAX;
    let mut i: usize = 0;
    let n = source_lines.len();
    while i < n
        invariant
            n == ls.len(),
            ls == source_lines@,
            i <= n,
            best < n || best == 0,
            line_match_from(ls, t as int, 0, 0, usize::MAX as int) == line_match_from(
                ls,
                t as int,
                i as int,
                best as int,
                best_diff as int,
            ),
        ensures
            line_match_from(ls, t as int, 0, 0, usize::MAX as int) == best,
        decreases n - i,
    {
        let line = source_lines[i];
        if line == t {
            best = i;
            break;
        } else if line < t {
            if t - line < best_diff {
                best_diff = t - line;
                best = i;
            }
        } else {
            if line - t < best_diff {
                best = i;
            }
            break;
        }
        i += 1;
    }
    let last = n.saturating_sub(1);
    let cursor = if best < last {
        best
    } else {
        last
    };
    (cursor, cursor.saturating_sub(6))
}

/// Where the editor opens when leaving the preview: the source line of the
/// selected item (`target_line`, the first line when there is none), kept
/// within the note's `line_count` lines, and the editor's first shown row.
/// With hidden frontmatter and the preview at its top the row is shown half
/// a screen down (at the top when it fits on the first screen); otherwise
/// it keeps its distance from the top of the preview.
pub fn edit_entry_position(
    target_line: Option<usize>,
    line_count: usize,
    view_height: usize,
    frontmatter_hidden: bool,
    content_start_line: usize,
    preview_scroll: usize,
    preview_cursor: usize,
) -> (r: (usize, usize))
    ensures
        ({
            let last = minus(line_count as int, 1);
            let wanted = match target_line {
                Some(l) => l as int,
                None => 0,
            };
            let row = if wanted < last { wanted } else { last };
            let view = if view_height < 10 { 10 } else { view_height as int };
            let scroll = if frontmatter_hidden && content_start_line > 0 && preview_scroll <= 1 {
                if row < view { 0 } else { row - view / 2 }
            } else {
                minus(row, minus(preview_cursor as int, minus(preview_scroll as int, 1)))
            };
            r.0 == row && r.1 == (if scroll < last { scroll } else { last })
        }),
{
    let last = line_count.saturating_sub(1);
    let wanted = match target_line {
        Some(l) => l,
        None => 0,
    };
    let row = if wanted < last {
        wanted
    } else {
        last
    };
    let view = if view_height < 10 {
        10
    } else {
        view_height
    };
    let scroll = if frontmatter_hidden && content_start_line > 0 && preview_scroll <= 1 {
        if row < view {
            0
        } else {
            row - view / 2
        }
    } else {
        let top = preview_scroll.saturating_sub(1);
        let offset = preview_cursor.saturating_sub(top);
        row.saturating_sub(offset)
    };
    (row, if scroll < last {
        scroll
    } else {
        last
    })
}

} // verus!
