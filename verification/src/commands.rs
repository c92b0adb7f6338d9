//! Which main-view commands apply in the current state, and what a key does
//! in a structured document (a base table or a canvas) before the key
//! bindings are consulted.
use vstd::prelude::*;

use crate::keymap::{command_at, AppCommand};
use crate::keys::{KeyCode, KeyEvent, ALT, CONTROL, SHIFT, SUPER};
use crate::session::{DialogState, Focus};

verus! {

/// Whether `command` applies: panel and file commands need the panels
/// (not zen mode), cut and paste and the sidebar's own commands need the
/// sidebar focused (paste and cancel also a cut item), history needs focus
/// away from the sidebar, and the reading commands need the content pane.
pub open spec fn command_available(command: AppCommand, zen_mode: bool, focus: Focus, has_cut_item: bool) -> bool {
    match command {
        AppCommand::FocusNext | AppCommand::FocusPrevious => !zen_mode,
        AppCommand::OpenJournal | AppCommand::CreateNote | AppCommand::CreateFolder | AppCommand::DeleteItem
        | AppCommand::RenameItem => !zen_mode,
        AppCommand::CutItem => !zen_mode && focus == Focus::Sidebar,
        AppCommand::PasteItem => !zen_mode && focus == Focus::Sidebar && has_cut_item,
        AppCommand::HistoryBack | AppCommand::HistoryForward => focus != Focus::Sidebar,
        AppCommand::OpenSelected => focus == Focus::Content || focus == Focus::Outline,
        AppCommand::ContentAction | AppCommand::NextTarget | AppCommand::PreviousTarget
        | AppCommand::ToggleFloatingCursor | AppCommand::HalfPageDown | AppCommand::HalfPageUp
        | AppCommand::ToggleFrontmatter | AppCommand::ToggleFold | AppCommand::FoldAll | AppCommand::UnfoldAll => focus
            == Focus::Content,
        AppCommand::CancelCut => focus == Focus::Sidebar && has_cut_item,
        AppCommand::SidebarSearch | AppCommand::CycleSort => focus == Focus::Sidebar,
        _ => true,
    }
}

/// Whether `command` applies in the current state (see
/// `command_available`).
pub fn app_command_available(command: AppCommand, zen_mode: bool, focus: Focus, has_cut_item: bool) -> (b: bool)
    ensures
        b == command_available(command, zen_mode, focus, has_cut_item),
{
    match command {
        AppCommand::FocusNext | AppCommand::FocusPrevious => !zen_mode,
        AppCommand::OpenJournal | AppCommand::CreateNote | AppCommand::CreateFolder | AppCommand::DeleteItem
        | AppCommand::RenameItem => !zen_mode,
        AppCommand::CutItem => !zen_mode && focus == Focus::Sidebar,
        AppCommand::PasteItem => !zen_mode && focus == Focus::Sidebar && has_cut_item,
        AppCommand::HistoryBack | AppCommand::HistoryForward => focus != Focus::Sidebar,
        AppCommand::OpenSelected => focus == Focus::Content || focus == Focus::Outline,
        AppCommand::ContentAction | AppCommand::NextTarget | AppCommand::PreviousTarget
        | AppCommand::ToggleFloatingCursor | AppCommand::HalfPageDown | AppCommand::HalfPageUp
        | AppCommand::ToggleFrontmatter | AppCommand::ToggleFold | AppCommand::FoldAll | AppCommand::UnfoldAll => focus
            == Focus::Content,
        AppCommand::CancelCut => focus == Focus::Sidebar && has_cut_item,
        AppCommand::SidebarSearch | AppCommand::CycleSort => focus == Focus::Sidebar,
        _ => true,
    }
}

/// The kind of file open in the content pane.
#[derive(Debug, Clone, Copy, PartialEq, Eq, Structural)]
pub enum DocumentKind {
    Markdown,
    Base,
    Canvas,
}

/// What the canvas is doing when a key arrives: whether a node's text is
/// being edited (and whether that field takes several lines), whether a drag
/// or connection is under way, whether that is a connection, and whether a
/// connection is selected.
#[derive(Debug, Clone, Copy, PartialEq, Eq, Structural)]
pub struct CanvasKeyState {
    pub editor_active: bool,
    pub editor_multiline: bool,
    pub interaction_active: bool,
    pub connecting: bool,
    pub edge_selected: bool,
}

/// What a key does in a structured document.
#[derive(Debug, Clone, Copy, PartialEq, Eq, Structural)]
pub enum StructuredKeyAction {
    /// Move the base table's column selection.
    BaseMoveColumn(isize),
    /// Move the base table's row selection.
    BaseMoveSelection(isize),
    /// Switch to a neighbouring view of the base.
    BaseChangeView(isize),
    /// Stop editing a canvas node without saving.
    EditCancel,
    /// Save the node being edited.
    EditCommit,
    /// Type a line break in the node.
    EditNewline,
    /// Type four spaces in the node.
    EditIndent,
    /// Type a character in the node.
    EditChar(char),
    EditBackspace,
    EditDelete,
    EditMoveHorizontal(isize),
    EditMoveVertical(isize),
    EditMovePage(isize),
    /// Go to the start (`false`) or end (`true`) of the node's text.
    EditDocumentBoundary(bool),
    /// Go to the start (`false`) or end (`true`) of the visual row.
    EditLineBoundary(bool),
    /// The node editor takes the key and does nothing with it.
    EditIgnore,
    Undo,
    Redo,
    /// Resize the selected node by this many canvas units.
    Resize(i16, i16),
    /// Move the selected node by this many canvas units.
    Nudge(i16, i16),
    /// Abandon the drag or connection under way.
    CancelInteraction,
    /// Connect to the selected node.
    FinishConnect,
    /// Move the selection to the nearest node in this direction.
    MoveSelection(i8, i8),
    /// Pan the view by this many canvas units.
    Pan(i16, i16),
    ZoomIn,
    ZoomOut,
    Fit,
    BeginConnect,
    OpenNode,
    EnterEditMode,
    /// Select the previous or next connection.
    CycleEdge(isize),
    DeleteEdge,
    DeselectEdge,
    /// Say how to detach the selected connection.
    HintDetach,
}

/// Whether Shift is held.
pub open spec fn shifted(m: u8) -> bool {
    m & SHIFT != 0
}

/// Whether Alt is held.
pub open spec fn alt_held(m: u8) -> bool {
    m & ALT != 0
}

/// Whether Control or Super is held.
pub open spec fn command_held(m: u8) -> bool {
    m & (CONTROL | SUPER) != 0
}

/// Keys while a canvas node's text is edited: every key is taken.
pub open spec fn canvas_edit_key(key: KeyEvent, multiline: bool) -> StructuredKeyAction {
    let cmd = command_held(key.modifiers);
    match key.code {
        KeyCode::Esc => StructuredKeyAction::EditCancel,
        KeyCode::Enter => if cmd || !multiline {
            StructuredKeyAction::EditCommit
        } else {
            StructuredKeyAction::EditNewline
        },
        KeyCode::Char('s') if cmd => StructuredKeyAction::EditCommit,
        KeyCode::Backspace => StructuredKeyAction::EditBackspace,
        KeyCode::Delete => StructuredKeyAction::EditDelete,
        KeyCode::Left => StructuredKeyAction::EditMoveHorizontal(-1isize),
        KeyCode::Right => StructuredKeyAction::EditMoveHorizontal(1isize),
        KeyCode::Up => StructuredKeyAction::EditMoveVertical(-1isize),
        KeyCode::Down => StructuredKeyAction::EditMoveVertical(1isize),
        KeyCode::PageUp => StructuredKeyAction::EditMovePage(-1isize),
        KeyCode::PageDown => StructuredKeyAction::EditMovePage(1isize),
        KeyCode::Home => if cmd {
            StructuredKeyAction::EditDocumentBoundary(false)
        } else {
            StructuredKeyAction::EditLineBoundary(false)
        },
        KeyCode::End => if cmd {
            StructuredKeyAction::EditDocumentBoundary(true)
        } else {
            StructuredKeyAction::EditLineBoundary(true)
        },
        KeyCode::Tab if !shifted(key.modifiers) => StructuredKeyAction::EditIndent,
        KeyCode::Char(c) if !cmd && !alt_held(key.modifiers) => StructuredKeyAction::EditChar(c),
        _ => StructuredKeyAction::EditIgnore,
    }
}

/// The arrow keys and h, j, k, l as a direction on the canvas.
pub open spec fn canvas_direction(code: KeyCode) -> Option<(i8, i8)> {
    match code {
        KeyCode::Left | KeyCode::Char('h') => Some((-1i8, 0i8)),
        KeyCode::Right | KeyCode::Char('l') => Some((1i8, 0i8)),
        KeyCode::Up | KeyCode::Char('k') => Some((0i8, -1i8)),
        KeyCode::Down | KeyCode::Char('j') => Some((0i8, 1i8)),
        _ => None,
    }
}

/// Keys on a canvas when no node is edited.
pub open spec fn canvas_key(key: KeyEvent, s: CanvasKeyState) -> Option<StructuredKeyAction> {
    let sh = shifted(key.modifiers);
    if command_held(key.modifiers) {
        match key.code {
            KeyCode::Char('z') => Some(if sh {
                StructuredKeyAction::Redo
            } else {
                StructuredKeyAction::Undo
            }),
            KeyCode::Char('Z') if sh => Some(StructuredKeyAction::Redo),
            KeyCode::Char('y') => Some(StructuredKeyAction::Redo),
            _ => None,
        }
    } else if alt_held(key.modifiers) {
        match key.code {
            KeyCode::Left => Some(if sh { StructuredKeyAction::Resize(-20i16, 0i16) } else { StructuredKeyAction::Nudge(-20i16, 0i16) }),
            KeyCode::Right => Some(if sh { StructuredKeyAction::Resize(20i16, 0i16) } else { StructuredKeyAction::Nudge(20i16, 0i16) }),
            KeyCode::Up => Some(if sh { StructuredKeyAction::Resize(0i16, -40i16) } else { StructuredKeyAction::Nudge(0i16, -40i16) }),
            KeyCode::Down => Some(if sh { StructuredKeyAction::Resize(0i16, 40i16) } else { StructuredKeyAction::Nudge(0i16, 40i16) }),
            _ => None,
        }
    } else if s.interaction_active && key.code == KeyCode::Esc {
        Some(StructuredKeyAction::CancelInteraction)
    } else if s.connecting {
        match key.code {
            KeyCode::Esc => Some(StructuredKeyAction::CancelInteraction),
            KeyCode::Enter => Some(StructuredKeyAction::FinishConnect),
            _ => match canvas_direction(key.code) {
                Some((dx, dy)) => Some(StructuredKeyAction::MoveSelection(dx, dy)),
                None => None,
            },
        }
    } else {
        match key.code {
            KeyCode::Left if sh => Some(StructuredKeyAction::Pan(-120i16, 0i16)),
            KeyCode::Right if sh => Some(StructuredKeyAction::Pan(120i16, 0i16)),
            KeyCode::Up if sh => Some(StructuredKeyAction::Pan(0i16, -120i16)),
            KeyCode::Down if sh => Some(StructuredKeyAction::Pan(0i16, 120i16)),
            KeyCode::Char('+') | KeyCode::Char('=') => Some(StructuredKeyAction::ZoomIn),
            KeyCode::Char('-') | KeyCode::Char('_') => Some(StructuredKeyAction::ZoomOut),
            KeyCode::Char('f') => Some(StructuredKeyAction::Fit),
            KeyCode::Char('c') => Some(StructuredKeyAction::BeginConnect),
            KeyCode::Char('o') => Some(StructuredKeyAction::OpenNode),
            KeyCode::Char('E') => Some(StructuredKeyAction::EnterEditMode),
            KeyCode::Char('[') => Some(StructuredKeyAction::CycleEdge(-1isize)),
            KeyCode::Char(']') => Some(StructuredKeyAction::CycleEdge(1isize)),
            KeyCode::Delete | KeyCode::Backspace | KeyCode::Char('x') => Some(StructuredKeyAction::DeleteEdge),
            KeyCode::Esc if s.edge_selected => Some(StructuredKeyAction::DeselectEdge),
            KeyCode::Enter if s.edge_selected => Some(StructuredKeyAction::HintDetach),
            _ => match canvas_direction(key.code) {
                Some((dx, dy)) => Some(StructuredKeyAction::MoveSelection(dx, dy)),
                None => None,
            },
        }
    }
}

/// Keys in a base table: without Control, Alt or Super, Left and Right
/// move across columns, PageUp and PageDown ten rows, and [ and ] switch
/// views.
pub open spec fn base_key(key: KeyEvent) -> Option<StructuredKeyAction> {
    if key.modifiers & (CONTROL | ALT | SUPER) != 0 {
        None
    } else {
        match key.code {
            KeyCode::Left => Some(StructuredKeyAction::BaseMoveColumn(-1isize)),
            KeyCode::Right => Some(StructuredKeyAction::BaseMoveColumn(1isize)),
            KeyCode::PageUp => Some(StructuredKeyAction::BaseMoveSelection(-10isize)),
            KeyCode::PageDown => Some(StructuredKeyAction::BaseMoveSelection(10isize)),
            KeyCode::Char('[') => Some(StructuredKeyAction::BaseChangeView(-1isize)),
            KeyCode::Char(']') => Some(StructuredKeyAction::BaseChangeView(1isize)),
            _ => None,
        }
    }
}

/// What a key does in the content pane when it shows a base or a canvas;
/// `None` leaves the key to the key bindings (as for notes, or when another
/// pane has focus).
pub open spec fn structured_key(focus: Focus, kind: Option<DocumentKind>, canvas: CanvasKeyState, key: KeyEvent) -> Option<
    StructuredKeyAction,
> {
    if focus != Focus::Content {
        None
    } else {
        match kind {
            Some(DocumentKind::Base) => base_key(key),
            Some(DocumentKind::Canvas) => if canvas.editor_active {
                Some(canvas_edit_key(key, canvas.editor_multiline))
            } else {
                canvas_key(key, canvas)
            },
            _ => None,
        }
    }
}

fn canvas_edit_action(key: KeyEvent, multiline: bool) -> (a: StructuredKeyAction)
    ensures
        a == canvas_edit_key(key, multiline),
{
    let cmd = key.modifiers & (CONTROL | SUPER) != 0;
    let alt = key.modifiers & ALT != 0;
    let sh = key.modifiers & SHIFT != 0;
    match key.code {
        KeyCode::Esc => StructuredKeyAction::EditCancel,
        KeyCode::Enter => if cmd || !multiline {
            StructuredKeyAction::EditCommit
        } else {
            StructuredKeyAction::EditNewline
        },
        KeyCode::Char('s') if cmd => StructuredKeyAction::EditCommit,
        KeyCode::Backspace => StructuredKeyAction::EditBackspace,
        KeyCode::Delete => StructuredKeyAction::EditDelete,
        KeyCode::Left => StructuredKeyAction::EditMoveHorizontal(-1),
        KeyCode::Right => StructuredKeyAction::EditMoveHorizontal(1),
        KeyCode::Up => StructuredKeyAction::EditMoveVertical(-1),
        KeyCode::Down => StructuredKeyAction::EditMoveVertical(1),
        KeyCode::PageUp => StructuredKeyAction::EditMovePage(-1),
        KeyCode::PageDown => StructuredKeyAction::EditMovePage(1),
        KeyCode::Home => if cmd {
            StructuredKeyAction::EditDocumentBoundary(false)
        } else {
            StructuredKeyAction::EditLineBoundary(false)
        },
        KeyCode::End => if cmd {
            StructuredKeyAction::EditDocumentBoundary(true)
        } else {
            StructuredKeyAction::EditLineBoundary(true)
        },
        KeyCode::Tab if !sh => StructuredKeyAction::EditIndent,
        KeyCode::Char(c) if !cmd && !alt => StructuredKeyAction::EditChar(c),
        _ => StructuredKeyAction::EditIgnore,
    }
}

fn direction_of(code: KeyCode) -> (d: Option<(i8, i8)>)
    ensures
        d == canvas_direction(code),
{
    match code {
        KeyCode::Left | KeyCode::Char('h') => Some((-1, 0)),
        KeyCode::Right | KeyCode::Char('l') => Some((1, 0)),
        KeyCode::Up | KeyCode::Char('k') => Some((0, -1)),
        KeyCode::Down | KeyCode::Char('j') => Some((0, 1)),
        _ => None,
    }
}

fn canvas_action(key: KeyEvent, s: CanvasKeyState) -> (a: Option<StructuredKeyAction>)
    ensures
        a == canvas_key(key, s),
{
    let sh = key.modifiers & SHIFT != 0;
    if key.modifiers & (CONTROL | SUPER) != 0 {
        return match key.code {
            KeyCode::Char('z') => Some(if sh {
                StructuredKeyAction::Redo
            } else {
                StructuredKeyAction::Undo
            }),
            KeyCode::Char('Z') if sh => Some(StructuredKeyAction::Redo),
            KeyCode::Char('y') => Some(StructuredKeyAction::Redo),
            _ => None,
        };
    }
    if key.modifiers & ALT != 0 {
        return match key.code {
            KeyCode::Left => Some(if sh { StructuredKeyAction::Resize(-20, 0) } else { StructuredKeyAction::Nudge(-20, 0) }),
            KeyCode::Right => Some(if sh { StructuredKeyAction::Resize(20, 0) } else { StructuredKeyAction::Nudge(20, 0) }),
            KeyCode::Up => Some(if sh { StructuredKeyAction::Resize(0, -40) } else { StructuredKeyAction::Nudge(0, -40) }),
            KeyCode::Down => Some(if sh { StructuredKeyAction::Resize(0, 40) } else { StructuredKeyAction::Nudge(0, 40) }),
            _ => None,
        };
    }
    if s.interaction_active && key.code == KeyCode::Esc {
        return Some(StructuredKeyAction::CancelInteraction);
    }
    if s.connecting {
        return match key.code {
            KeyCode::Esc => Some(StructuredKeyAction::CancelInteraction),
            KeyCode::Enter => Some(StructuredKeyAction::FinishConnect),
            _ => match direction_of(key.code) {
                Some((dx, dy)) => Some(StructuredKeyAction::MoveSelection(dx, dy)),
                None => None,
            },
        };
    }
    match key.code {
        KeyCode::Left if sh => Some(StructuredKeyAction::Pan(-120, 0)),
        KeyCode::Right if sh => Some(StructuredKeyAction::Pan(120, 0)),
        KeyCode::Up if sh => Some(StructuredKeyAction::Pan(0, -120)),
        KeyCode::Down if sh => Some(StructuredKeyAction::Pan(0, 120)),
        KeyCode::Char('+') | KeyCode::Char('=') => Some(StructuredKeyAction::ZoomIn),
        KeyCode::Char('-') | KeyCode::Char('_') => Some(StructuredKeyAction::ZoomOut),
        KeyCode::Char('f') => Some(StructuredKeyAction::Fit),
        KeyCode::Char('c') => Some(StructuredKeyAction::BeginConnect),
        KeyCode::Char('o') => Some(StructuredKeyAction::OpenNode),
        KeyCode::Char('E') => Some(StructuredKeyAction::EnterEditMode),
        KeyCode::Char('[') => Some(StructuredKeyAction::CycleEdge(-1)),
        KeyCode::Char(']') => Some(StructuredKeyAction::CycleEdge(1)),
        KeyCode::Delete | KeyCode::Backspace | KeyCode::Char('x') => Some(StructuredKeyAction::DeleteEdge),
        KeyCode::Esc if s.edge_selected => Some(StructuredKeyAction::DeselectEdge),
        KeyCode::Enter if s.edge_selected => Some(StructuredKeyAction::HintDetach),
        _ => match direction_of(key.code) {
            Some((dx, dy)) => Some(StructuredKeyAction::MoveSelection(dx, dy)),
            None => None,
        },
    }
}

/// What a key does in the content pane when it shows a base table or a
/// canvas, before any key binding is looked up; `None` when the key is left
/// to the bindings.
pub fn handle_structured_document_key(
    focus: Focus,
    kind: Option<DocumentKind>,
    canvas: CanvasKeyState,
    key: KeyEvent,
) -> (a: Option<StructuredKeyAction>)
    ensures
        a == structured_key(focus, kind, canvas, key),
{
    if focus != Focus::Content {
        return None;
    }
    match kind {
        Some(DocumentKind::Base) => {
            if key.modifiers & (CONTROL | ALT | SUPER) != 0 {
                return None;
            }
            match key.code {
                KeyCode::Left => Some(StructuredKeyAction::BaseMoveColumn(-1)),
                KeyCode::Right => Some(StructuredKeyAction::BaseMoveColumn(1)),
                KeyCode::PageUp => Some(StructuredKeyAction::BaseMoveSelection(-10)),
                KeyCode::PageDown => Some(StructuredKeyAction::BaseMoveSelection(10)),
                KeyCode::Char('[') => Some(StructuredKeyAction::BaseChangeView(-1)),
                KeyCode::Char(']') => Some(StructuredKeyAction::BaseChangeView(1)),
                _ => None,
            }
        },
        Some(DocumentKind::Canvas) => {
            if canvas.editor_active {
                Some(canvas_edit_action(key, canvas.editor_multiline))
            } else {
                canvas_action(key, canvas)
            }
        },
        _ => None,
    }
}

/// For each command, in the order of `AppCommand::all`, whether it applies
/// in the current state; the key bindings resolve only to these.
pub fn available_commands(zen_mode: bool, focus: Focus, has_cut_item: bool) -> (v: Vec<bool>)
    ensures
        v@.len() == 46,
        forall|i: int| 0 <= i < 46 ==> #[trigger] v@[i] == command_available(command_at(i), zen_mode, focus, has_cut_item),
{
    let all = AppCommand::all();
    let mut v: Vec<bool> = Vec::new();
    let mut i: usize = 0;
    while i < all.len()
        invariant
            all@.len() == 46,
            forall|k: int| 0 <= k < 46 ==> #[trigger] all@[k] == command_at(k),
            i <= 46,
            v@.len() == i,
            forall|k: int| 0 <= k < i ==> #[trigger] v@[k] == command_available(command_at(k), zen_mode, focus, has_cut_item),
        decreases 46 - i,
    {
        v.push(app_command_available(all[i], zen_mode, focus, has_cut_item));
        i += 1;
    }
    v
}

/// A step through a list: to the next or previous entry, or to the first or
/// last.
#[derive(Debug, Clone, Copy, PartialEq, Eq, Structural)]
pub enum Step {
    Next,
    Previous,
    First,
    Last,
}

/// The sidebar entry under the selection: none, a note (and whether the
/// note list holds it), or a folder (and whether it is the vault root).
#[derive(Debug, Clone, Copy, PartialEq, Eq, Structural)]
pub enum SidebarSelection {
    Nothing,
    Note { listed: bool },
    Folder { is_root: bool },
}

/// The content item under the cursor of a Markdown document: a task (and
/// whether its checkbox is selected), a details block, a heading, or
/// anything else.
#[derive(Debug, Clone, Copy, PartialEq, Eq, Structural)]
pub enum ContentAtCursor {
    Task { checkbox_selected: bool },
    Details,
    Heading,
    Other,
}

/// What a main-view command does in the current state.
#[derive(Debug, Clone, Copy, PartialEq, Eq, Structural)]
pub enum CommandAction {
    Quit,
    ToggleFocus { reverse: bool },
    EditNote,
    /// Opens the create dialog for a note or, with `folder`, a folder, in
    /// the folder of the current context.
    OpenCreateDialog { folder: bool },
    OpenDialog(DialogState),
    /// The vault root cannot be deleted or, with `rename`, renamed: a status
    /// message says so.
    RootRefused { rename: bool },
    NoAction,
    CutItem,
    PasteItem,
    ReloadConfig,
    ReloadFiles,
    OpenQuickSearch,
    OpenThemeSelector,
    OpenJournal,
    MoveSidebar(Step),
    MoveOutline(Step),
    MoveBaseRow(Step),
    MoveCanvasNode(Step),
    MoveFloatingCursor(Step),
    /// Moves the content cursor, then brings the outline along.
    MoveContent(Step),
    OpenBaseRow,
    ActivateCanvasNode,
    /// Opens the link or embed at the cursor, or else the image there.
    OpenContentTargetOrImage,
    OpenContentTarget,
    JumpToOutline,
    SidebarEnter,
    ToggleOutline,
    HistoryBack,
    HistoryForward,
    SidebarSearch,
    CycleSort,
    BeginCanvasNodeEdit,
    SwitchEditingMode,
    ToggleTask,
    /// Opens the link at the cursor of a task line, or else toggles it.
    ToggleTaskUnlessTarget,
    ToggleDetails,
    ToggleHeadingFold,
    NextLink,
    PreviousLink,
    ToggleFloatingCursor,
    ToggleSidebar,
    HalfPageDown,
    HalfPageUp,
    FindInBuffer,
    OpenGraph,
    OpenTaskView,
    ToggleZen,
    ToggleFrontmatter,
    FoldAll,
    UnfoldAll,
    CancelCut,
    ResizePanel { grow: bool },
}

/// A move in the focused pane: the sidebar, the outline, or the content,
/// where a base moves its row, a canvas its node, the floating cursor
/// itself (for a step up or down), and otherwise the content cursor.
pub open spec fn move_action(step: Step, focus: Focus, kind: Option<DocumentKind>, floating: bool) -> CommandAction {
    match focus {
        Focus::Sidebar => CommandAction::MoveSidebar(step),
        Focus::Outline => CommandAction::MoveOutline(step),
        Focus::Content => if kind == Some(DocumentKind::Base) {
            CommandAction::MoveBaseRow(step)
        } else if kind == Some(DocumentKind::Canvas) {
            CommandAction::MoveCanvasNode(step)
        } else if floating && (step == Step::Next || step == Step::Previous) {
            CommandAction::MoveFloatingCursor(step)
        } else {
            CommandAction::MoveContent(step)
        },
    }
}

/// Opening what the content pane shows: a base row, a canvas node, or the
/// target at the cursor.
pub open spec fn open_in_content(kind: Option<DocumentKind>) -> CommandAction {
    if kind == Some(DocumentKind::Base) {
        CommandAction::OpenBaseRow
    } else if kind == Some(DocumentKind::Canvas) {
        CommandAction::ActivateCanvasNode
    } else {
        CommandAction::OpenContentTargetOrImage
    }
}

/// What `command` does with the pane `focus`, the kind of the open document
/// (`None` when none is open), whether the floating cursor is on, the
/// sidebar selection and the content item at the cursor.
pub open spec fn command_action(
    command: AppCommand,
    focus: Focus,
    kind: Option<DocumentKind>,
    floating: bool,
    selection: SidebarSelection,
    at_cursor: ContentAtCursor,
) -> CommandAction {
    match command {
        AppCommand::Quit => CommandAction::Quit,
        AppCommand::FocusNext => CommandAction::ToggleFocus { reverse: false },
        AppCommand::FocusPrevious => CommandAction::ToggleFocus { reverse: true },
        AppCommand::EditNote => CommandAction::EditNote,
        AppCommand::CreateNote => CommandAction::OpenCreateDialog { folder: false },
        AppCommand::CreateFolder => CommandAction::OpenCreateDialog { folder: true },
        AppCommand::DeleteItem => match selection {
            SidebarSelection::Nothing => CommandAction::NoAction,
            SidebarSelection::Note { .. } => CommandAction::OpenDialog(DialogState::DeleteConfirm),
            SidebarSelection::Folder { is_root } => if is_root {
                CommandAction::RootRefused { rename: false }
            } else {
                CommandAction::OpenDialog(DialogState::DeleteFolderConfirm)
            },
        },
        AppCommand::RenameItem => match selection {
            SidebarSelection::Nothing => CommandAction::NoAction,
            SidebarSelection::Note { listed } => if listed {
                CommandAction::OpenDialog(DialogState::RenameNote)
            } else {
                CommandAction::NoAction
            },
            SidebarSelection::Folder { is_root } => if is_root {
                CommandAction::RootRefused { rename: true }
            } else {
                CommandAction::OpenDialog(DialogState::RenameFolder)
            },
        },
        AppCommand::CutItem => CommandAction::CutItem,
        AppCommand::PasteItem => CommandAction::PasteItem,
        AppCommand::ReloadConfig => CommandAction::ReloadConfig,
        AppCommand::ReloadFiles => CommandAction::ReloadFiles,
        AppCommand::OpenQuickSearch => CommandAction::OpenQuickSearch,
        AppCommand::OpenThemeSelector => CommandAction::OpenThemeSelector,
        AppCommand::OpenJournal => CommandAction::OpenJournal,
        AppCommand::MoveDown => move_action(Step::Next, focus, kind, floating),
        AppCommand::MoveUp => move_action(Step::Previous, focus, kind, floating),
        AppCommand::GoFirst => move_action(Step::First, focus, kind, floating),
        AppCommand::GoLast => move_action(Step::Last, focus, kind, floating),
        AppCommand::Activate => match focus {
            Focus::Content => open_in_content(kind),
            Focus::Outline => CommandAction::JumpToOutline,
            Focus::Sidebar => CommandAction::SidebarEnter,
        },
        AppCommand::OpenSelected => match focus {
            Focus::Content => open_in_content(kind),
            Focus::Outline => CommandAction::JumpToOutline,
            Focus::Sidebar => CommandAction::NoAction,
        },
        AppCommand::ToggleOutline => CommandAction::ToggleOutline,
        AppCommand::HistoryBack => CommandAction::HistoryBack,
        AppCommand::HistoryForward => CommandAction::HistoryForward,
        AppCommand::ShowHelp => CommandAction::OpenDialog(DialogState::Help),
        AppCommand::SidebarSearch => CommandAction::SidebarSearch,
        AppCommand::CycleSort => CommandAction::CycleSort,
        AppCommand::ToggleEditorMode => if focus == Focus::Content && kind == Some(DocumentKind::Canvas) {
            CommandAction::BeginCanvasNodeEdit
        } else {
            CommandAction::SwitchEditingMode
        },
        AppCommand::ContentAction => if kind == Some(DocumentKind::Base) {
            CommandAction::OpenBaseRow
        } else if kind == Some(DocumentKind::Canvas) {
            CommandAction::ActivateCanvasNode
        } else {
            match at_cursor {
                ContentAtCursor::Task { checkbox_selected } => if checkbox_selected {
                    CommandAction::ToggleTask
                } else {
                    CommandAction::ToggleTaskUnlessTarget
                },
                ContentAtCursor::Details => CommandAction::ToggleDetails,
                ContentAtCursor::Heading => CommandAction::ToggleHeadingFold,
                ContentAtCursor::Other => CommandAction::OpenContentTarget,
            }
        },
        AppCommand::NextTarget => CommandAction::NextLink,
        AppCommand::PreviousTarget => CommandAction::PreviousLink,
        AppCommand::ToggleFloatingCursor => CommandAction::ToggleFloatingCursor,
        AppCommand::ToggleSidebar => CommandAction::ToggleSidebar,
        AppCommand::HalfPageDown => CommandAction::HalfPageDown,
        AppCommand::HalfPageUp => CommandAction::HalfPageUp,
        AppCommand::FindInBuffer => CommandAction::FindInBuffer,
        AppCommand::OpenGraph => CommandAction::OpenGraph,
        AppCommand::OpenTaskView => CommandAction::OpenTaskView,
        AppCommand::ToggleZen => CommandAction::ToggleZen,
        AppCommand::ToggleFrontmatter => CommandAction::ToggleFrontmatter,
        AppCommand::ToggleFold => CommandAction::ToggleHeadingFold,
        AppCommand::FoldAll => CommandAction::FoldAll,
        AppCommand::UnfoldAll => CommandAction::UnfoldAll,
        AppCommand::CancelCut => CommandAction::CancelCut,
        AppCommand::ShrinkPanel => CommandAction::ResizePanel { grow: false },
        AppCommand::GrowPanel => CommandAction::ResizePanel { grow: true },
    }
}

/// Commands that come in pairs go opposite ways in every state: focus
/// next and previous toggle focus forward and in reverse; moving down and
/// up, and going to the first and last entry, step the same list in
/// opposite directions; history goes back and forward; paging goes down
/// and up; link targets go to the next and the previous; the panel grows
/// and shrinks; folding folds all and unfolds all.
pub proof fn lemma_paired_commands_go_opposite_ways(
    focus: Focus,
    kind: Option<DocumentKind>,
    floating: bool,
    selection: SidebarSelection,
    at_cursor: ContentAtCursor,
)
    ensures
        command_action(AppCommand::FocusNext, focus, kind, floating, selection, at_cursor) == (CommandAction::ToggleFocus {
            reverse: false,
        }),
        command_action(AppCommand::FocusPrevious, focus, kind, floating, selection, at_cursor) == (CommandAction::ToggleFocus {
            reverse: true,
        }),
        command_action(AppCommand::MoveDown, focus, kind, floating, selection, at_cursor) != command_action(
            AppCommand::MoveUp,
            focus,
            kind,
            floating,
            selection,
            at_cursor,
        ),
        command_action(AppCommand::GoFirst, focus, kind, floating, selection, at_cursor) != command_action(
            AppCommand::GoLast,
            focus,
            kind,
            floating,
            selection,
            at_cursor,
        ),
        command_action(AppCommand::HistoryBack, focus, kind, floating, selection, at_cursor)
            == CommandAction::HistoryBack,
        command_action(AppCommand::HistoryForward, focus, kind, floating, selection, at_cursor)
            == CommandAction::HistoryForward,
        command_action(AppCommand::HalfPageDown, focus, kind, floating, selection, at_cursor)
            == CommandAction::HalfPageDown,
        command_action(AppCommand::HalfPageUp, focus, kind, floating, selection, at_cursor)
            == CommandAction::HalfPageUp,
        command_action(AppCommand::NextTarget, focus, kind, floating, selection, at_cursor) == CommandAction::NextLink,
        command_action(AppCommand::PreviousTarget, focus, kind, floating, selection, at_cursor)
            == CommandAction::PreviousLink,
        command_action(AppCommand::GrowPanel, focus, kind, floating, selection, at_cursor) == (CommandAction::ResizePanel {
            grow: true,
        }),
        command_action(AppCommand::ShrinkPanel, focus, kind, floating, selection, at_cursor) == (
        CommandAction::ResizePanel { grow: false }),
        command_action(AppCommand::FoldAll, focus, kind, floating, selection, at_cursor) == CommandAction::FoldAll,
        command_action(AppCommand::UnfoldAll, focus, kind, floating, selection, at_cursor) == CommandAction::UnfoldAll,
{
}

/// Moving down and up step the focused list the same way, one forward
/// and one back; going first and last jump to its two ends.
pub proof fn lemma_moves_step_one_list(
    focus: Focus,
    kind: Option<DocumentKind>,
    floating: bool,
    selection: SidebarSelection,
    at_cursor: ContentAtCursor,
)
    ensures
        command_action(AppCommand::MoveDown, focus, kind, floating, selection, at_cursor) == move_action(
            Step::Next,
            focus,
            kind,
            floating,
        ),
        command_action(AppCommand::MoveUp, focus, kind, floating, selection, at_cursor) == move_action(
            Step::Previous,
            focus,
            kind,
            floating,
        ),
        command_action(AppCommand::GoFirst, focus, kind, floating, selection, at_cursor) == move_action(
            Step::First,
            focus,
            kind,
            floating,
        ),
        command_action(AppCommand::GoLast, focus, kind, floating, selection, at_cursor) == move_action(
            Step::Last,
            focus,
            kind,
            floating,
        ),
        focus == Focus::Sidebar ==> move_action(Step::Next, focus, kind, floating) == CommandAction::MoveSidebar(
            Step::Next,
        ) && move_action(Step::Previous, focus, kind, floating) == CommandAction::MoveSidebar(Step::Previous),
        focus == Focus::Outline ==> move_action(Step::Next, focus, kind, floating) == CommandAction::MoveOutline(
            Step::Next,
        ) && move_action(Step::Previous, focus, kind, floating) == CommandAction::MoveOutline(Step::Previous),
{
}

fn move_action_exec(step: Step, focus: Focus, kind: Option<DocumentKind>, floating: bool) -> (a: CommandAction)
    ensures
        a == move_action(step, focus, kind, floating),
{
    match focus {
        Focus::Sidebar => CommandAction::MoveSidebar(step),
        Focus::Outline => CommandAction::MoveOutline(step),
        Focus::Content => {
            if kind == Some(DocumentKind::Base) {
                CommandAction::MoveBaseRow(step)
            } else if kind == Some(DocumentKind::Canvas) {
                CommandAction::MoveCanvasNode(step)
            } else if floating && (step == Step::Next || step == Step::Previous) {
                CommandAction::MoveFloatingCursor(step)
            } else {
                CommandAction::MoveContent(step)
            }
        },
    }
}

fn open_in_content_exec(kind: Option<DocumentKind>) -> (a: CommandAction)
    ensures
        a == open_in_content(kind),
{
    if kind == Some(DocumentKind::Base) {
        CommandAction::OpenBaseRow
    } else if kind == Some(DocumentKind::Canvas) {
        CommandAction::ActivateCanvasNode
    } else {
        CommandAction::OpenContentTargetOrImage
    }
}

/// Decides what a main-view command does (see [`command_action`]); quitting
/// is the one action that ends the program.
pub fn app_command_action(
    command: AppCommand,
    focus: Focus,
    kind: Option<DocumentKind>,
    floating: bool,
    selection: SidebarSelection,
    at_cursor: ContentAtCursor,
) -> (a: CommandAction)
    ensures
        a == command_action(command, focus, kind, floating, selection, at_cursor),
{
    match command {
        AppCommand::Quit => CommandAction::Quit,
        AppCommand::FocusNext => CommandAction::ToggleFocus { reverse: false },
        AppCommand::FocusPrevious => CommandAction::ToggleFocus { reverse: true },
        AppCommand::EditNote => CommandAction::EditNote,
        AppCommand::CreateNote => CommandAction::OpenCreateDialog { folder: false },
        AppCommand::CreateFolder => CommandAction::OpenCreateDialog { folder: true },
        AppCommand::DeleteItem => match selection {
            SidebarSelection::Nothing => CommandAction::NoAction,
            SidebarSelection::Note { .. } => CommandAction::OpenDialog(DialogState::DeleteConfirm),
            SidebarSelection::Folder { is_root } => {
                if is_root {
                    CommandAction::RootRefused { rename: false }
                } else {
                    CommandAction::OpenDialog(DialogState::DeleteFolderConfirm)
                }
            },
        },
        AppCommand::RenameItem => match selection {
            SidebarSelection::Nothing => CommandAction::NoAction,
            SidebarSelection::Note { listed } => {
                if listed {
                    CommandAction::OpenDialog(DialogState::RenameNote)
                } else {
                    CommandAction::NoAction
                }
            },
            SidebarSelection::Folder { is_root } => {
                if is_root {
                    CommandAction::RootRefused { rename: true }
                } else {
                    CommandAction::OpenDialog(DialogState::RenameFolder)
                }
            },
        },
        AppCommand::CutItem => CommandAction::CutItem,
        AppCommand::PasteItem => CommandAction::PasteItem,
        AppCommand::ReloadConfig => CommandAction::ReloadConfig,
        AppCommand::ReloadFiles => CommandAction::ReloadFiles,
        AppCommand::OpenQuickSearch => CommandAction::OpenQuickSearch,
        AppCommand::OpenThemeSelector => CommandAction::OpenThemeSelector,
        AppCommand::OpenJournal => CommandAction::OpenJournal,
        AppCommand::MoveDown => move_action_exec(Step::Next, focus, kind, floating),
        AppCommand::MoveUp => move_action_exec(Step::Previous, focus, kind, floating),
        AppCommand::GoFirst => move_action_exec(Step::First, focus, kind, floating),
        AppCommand::GoLast => move_action_exec(Step::Last, focus, kind, floating),
        AppCommand::Activate => match focus {
            Focus::Content => open_in_content_exec(kind),
            Focus::Outline => CommandAction::JumpToOutline,
            Focus::Sidebar => CommandAction::SidebarEnter,
        },
        AppCommand::OpenSelected => match focus {
            Focus::Content => open_in_content_exec(kind),
            Focus::Outline => CommandAction::JumpToOutline,
            Focus::Sidebar => CommandAction::NoAction,
        },
        AppCommand::ToggleOutline => CommandAction::ToggleOutline,
        AppCommand::HistoryBack => CommandAction::HistoryBack,
        AppCommand::HistoryForward => CommandAction::HistoryForward,
        AppCommand::ShowHelp => CommandAction::OpenDialog(DialogState::Help),
        AppCommand::SidebarSearch => CommandAction::SidebarSearch,
        AppCommand::CycleSort => CommandAction::CycleSort,
        AppCommand::ToggleEditorMode => {
            if focus == Focus::Content && kind == Some(DocumentKind::Canvas) {
                CommandAction::BeginCanvasNodeEdit
            } else {
                CommandAction::SwitchEditingMode
            }
        },
        AppCommand::ContentAction => {
            if kind == Some(DocumentKind::Base) {
                CommandAction::OpenBaseRow
            } else if kind == Some(DocumentKind::Canvas) {
                CommandAction::ActivateCanvasNode
            } else {
                match at_cursor {
                    ContentAtCursor::Task { checkbox_selected } => {
                        if checkbox_selected {
                            CommandAction::ToggleTask
                        } else {
                            CommandAction::ToggleTaskUnlessTarget
                        }
                    },
                    ContentAtCursor::Details => CommandAction::ToggleDetails,
                    ContentAtCursor::Heading => CommandAction::ToggleHeadingFold,
                    ContentAtCursor::Other => CommandAction::OpenContentTarget,
                }
            }
        },
        AppCommand::NextTarget => CommandAction::NextLink,
        AppCommand::PreviousTarget => CommandAction::PreviousLink,
        AppCommand::ToggleFloatingCursor => CommandAction::ToggleFloatingCursor,
        AppCommand::ToggleSidebar => CommandAction::ToggleSidebar,
        AppCommand::HalfPageDown => CommandAction::HalfPageDown,
        AppCommand::HalfPageUp => CommandAction::HalfPageUp,
        AppCommand::FindInBuffer => CommandAction::FindInBuffer,
        AppCommand::OpenGraph => CommandAction::OpenGraph,
        AppCommand::OpenTaskView => CommandAction::OpenTaskView,
        AppCommand::ToggleZen => CommandAction::ToggleZen,
        AppCommand::ToggleFrontmatter => CommandAction::ToggleFrontmatter,
        AppCommand::ToggleFold => CommandAction::ToggleHeadingFold,
        AppCommand::FoldAll => CommandAction::FoldAll,
        AppCommand::UnfoldAll => CommandAction::UnfoldAll,
        AppCommand::CancelCut => CommandAction::CancelCut,
        AppCommand::ShrinkPanel => CommandAction::ResizePanel { grow: false },
        AppCommand::GrowPanel => CommandAction::ResizePanel { grow: true },
    }
}

/// The status message for a refused change to the vault root.
pub fn root_refusal_message(rename: bool) -> (s: &'static str)
    ensures
        s@ == if rename {
            "The vault root cannot be renamed"@
        } else {
            "The vault root cannot be deleted"@
        },
{
    if rename {
        "The vault root cannot be renamed"
    } else {
        "The vault root cannot be deleted"
    }
}

} // verus!
