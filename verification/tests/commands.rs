use ekphos::commands::{app_command_action, root_refusal_message, CommandAction, ContentAtCursor, SidebarSelection, Step, app_command_available, available_commands, handle_structured_document_key, CanvasKeyState, DocumentKind, StructuredKeyAction};
use ekphos::keymap::AppCommand;
use ekphos::keys::{KeyCode, KeyEvent, ALT, CONTROL, SHIFT, SUPER};
use ekphos::session::{DialogState, Focus};

fn key(code: KeyCode) -> KeyEvent {
    KeyEvent::new(code, 0)
}

fn idle() -> CanvasKeyState {
    CanvasKeyState { editor_active: false, editor_multiline: false, interaction_active: false, connecting: false, edge_selected: false }
}

fn editing(multiline: bool) -> CanvasKeyState {
    CanvasKeyState { editor_active: true, editor_multiline: multiline, ..idle() }
}

fn canvas(state: CanvasKeyState, key: KeyEvent) -> Option<StructuredKeyAction> {
    handle_structured_document_key(Focus::Content, Some(DocumentKind::Canvas), state, key)
}

#[test]
fn commands_follow_zen_mode_focus_and_the_cut_buffer() {
    assert!(!app_command_available(AppCommand::FocusNext, true, Focus::Content, false));
    assert!(app_command_available(AppCommand::FocusNext, false, Focus::Content, false));
    assert!(!app_command_available(AppCommand::CutItem, false, Focus::Content, false));
    assert!(app_command_available(AppCommand::CutItem, false, Focus::Sidebar, false));
    assert!(!app_command_available(AppCommand::PasteItem, false, Focus::Sidebar, false));
    assert!(app_command_available(AppCommand::PasteItem, false, Focus::Sidebar, true));
    assert!(!app_command_available(AppCommand::HistoryBack, false, Focus::Sidebar, false));
    assert!(app_command_available(AppCommand::OpenSelected, false, Focus::Outline, false));
    assert!(!app_command_available(AppCommand::ToggleFold, false, Focus::Outline, false));
    assert!(app_command_available(AppCommand::CancelCut, true, Focus::Sidebar, true));
    assert!(!app_command_available(AppCommand::CycleSort, false, Focus::Content, false));
    assert!(app_command_available(AppCommand::Quit, true, Focus::Outline, false));
}

#[test]
fn structured_keys_need_content_focus_and_a_structured_document() {
    assert_eq!(handle_structured_document_key(Focus::Sidebar, Some(DocumentKind::Base), idle(), key(KeyCode::Left)), None);
    assert_eq!(handle_structured_document_key(Focus::Content, Some(DocumentKind::Markdown), idle(), key(KeyCode::Left)), None);
    assert_eq!(handle_structured_document_key(Focus::Content, None, idle(), key(KeyCode::Left)), None);
}

#[test]
fn base_tables_move_and_switch_views() {
    let base = |k| handle_structured_document_key(Focus::Content, Some(DocumentKind::Base), idle(), k);
    assert_eq!(base(key(KeyCode::Left)), Some(StructuredKeyAction::BaseMoveColumn(-1)));
    assert_eq!(base(key(KeyCode::PageDown)), Some(StructuredKeyAction::BaseMoveSelection(10)));
    assert_eq!(base(key(KeyCode::Char(']'))), Some(StructuredKeyAction::BaseChangeView(1)));
    assert_eq!(base(KeyEvent::new(KeyCode::Left, ALT)), None);
    assert_eq!(base(key(KeyCode::Char('j'))), None);
}

#[test]
fn the_node_editor_takes_every_key() {
    assert_eq!(canvas(editing(false), key(KeyCode::Enter)), Some(StructuredKeyAction::EditCommit));
    assert_eq!(canvas(editing(true), key(KeyCode::Enter)), Some(StructuredKeyAction::EditNewline));
    assert_eq!(canvas(editing(true), KeyEvent::new(KeyCode::Enter, CONTROL)), Some(StructuredKeyAction::EditCommit));
    assert_eq!(canvas(editing(true), KeyEvent::new(KeyCode::Char('s'), SUPER)), Some(StructuredKeyAction::EditCommit));
    assert_eq!(canvas(editing(true), key(KeyCode::Char('s'))), Some(StructuredKeyAction::EditChar('s')));
    assert_eq!(canvas(editing(true), KeyEvent::new(KeyCode::Home, CONTROL)), Some(StructuredKeyAction::EditDocumentBoundary(false)));
    assert_eq!(canvas(editing(true), key(KeyCode::End)), Some(StructuredKeyAction::EditLineBoundary(true)));
    assert_eq!(canvas(editing(true), key(KeyCode::Tab)), Some(StructuredKeyAction::EditIndent));
    assert_eq!(canvas(editing(true), KeyEvent::new(KeyCode::Tab, SHIFT)), Some(StructuredKeyAction::EditIgnore));
    assert_eq!(canvas(editing(true), KeyEvent::new(KeyCode::Char('q'), ALT)), Some(StructuredKeyAction::EditIgnore));
    assert_eq!(canvas(editing(true), key(KeyCode::PageUp)), Some(StructuredKeyAction::EditMovePage(-1)));
    assert_eq!(canvas(editing(true), key(KeyCode::Esc)), Some(StructuredKeyAction::EditCancel));
}

#[test]
fn canvas_undo_resize_and_navigation() {
    assert_eq!(canvas(idle(), KeyEvent::new(KeyCode::Char('z'), CONTROL)), Some(StructuredKeyAction::Undo));
    assert_eq!(canvas(idle(), KeyEvent::new(KeyCode::Char('Z'), CONTROL | SHIFT)), Some(StructuredKeyAction::Redo));
    assert_eq!(canvas(idle(), KeyEvent::new(KeyCode::Char('Z'), CONTROL)), None);
    assert_eq!(canvas(idle(), KeyEvent::new(KeyCode::Char('y'), CONTROL)), Some(StructuredKeyAction::Redo));
    assert_eq!(canvas(idle(), KeyEvent::new(KeyCode::Up, ALT | SHIFT)), Some(StructuredKeyAction::Resize(0, -40)));
    assert_eq!(canvas(idle(), KeyEvent::new(KeyCode::Right, ALT)), Some(StructuredKeyAction::Nudge(20, 0)));
    assert_eq!(canvas(idle(), KeyEvent::new(KeyCode::Left, SHIFT)), Some(StructuredKeyAction::Pan(-120, 0)));
    assert_eq!(canvas(idle(), key(KeyCode::Char('h'))), Some(StructuredKeyAction::MoveSelection(-1, 0)));
    assert_eq!(canvas(idle(), key(KeyCode::Char('='))), Some(StructuredKeyAction::ZoomIn));
    assert_eq!(canvas(idle(), key(KeyCode::Char('x'))), Some(StructuredKeyAction::DeleteEdge));
    assert_eq!(canvas(idle(), key(KeyCode::Esc)), None);
    assert_eq!(canvas(CanvasKeyState { edge_selected: true, ..idle() }, key(KeyCode::Esc)), Some(StructuredKeyAction::DeselectEdge));
    assert_eq!(canvas(CanvasKeyState { edge_selected: true, ..idle() }, key(KeyCode::Enter)), Some(StructuredKeyAction::HintDetach));
}

#[test]
fn connecting_keys_pick_the_target() {
    let connecting = CanvasKeyState { interaction_active: true, connecting: true, ..idle() };
    assert_eq!(canvas(connecting, key(KeyCode::Esc)), Some(StructuredKeyAction::CancelInteraction));
    assert_eq!(canvas(connecting, key(KeyCode::Enter)), Some(StructuredKeyAction::FinishConnect));
    assert_eq!(canvas(connecting, key(KeyCode::Char('j'))), Some(StructuredKeyAction::MoveSelection(0, 1)));
    assert_eq!(canvas(connecting, key(KeyCode::Char('f'))), None);
    let dragging = CanvasKeyState { interaction_active: true, ..idle() };
    assert_eq!(canvas(dragging, key(KeyCode::Esc)), Some(StructuredKeyAction::CancelInteraction));
}

#[test]
fn the_available_list_follows_the_command_order() {
    let all = AppCommand::all();
    let flags = available_commands(true, Focus::Sidebar, false);
    assert_eq!(flags.len(), all.len());
    for (command, flag) in all.iter().zip(flags.iter()) {
        assert_eq!(*flag, app_command_available(*command, true, Focus::Sidebar, false));
    }
    assert!(!flags[1]);
    assert!(flags[0]);
}

#[test]
fn vault_root_is_never_deleted_or_renamed() {
    let root = SidebarSelection::Folder { is_root: true };
    let folder = SidebarSelection::Folder { is_root: false };
    let at = ContentAtCursor::Other;
    let act = |c, s| app_command_action(c, Focus::Sidebar, None, false, s, at);
    assert_eq!(act(AppCommand::DeleteItem, root), CommandAction::RootRefused { rename: false });
    assert_eq!(act(AppCommand::RenameItem, root), CommandAction::RootRefused { rename: true });
    assert_eq!(act(AppCommand::DeleteItem, folder), CommandAction::OpenDialog(DialogState::DeleteFolderConfirm));
    assert_eq!(act(AppCommand::RenameItem, folder), CommandAction::OpenDialog(DialogState::RenameFolder));
    assert_eq!(act(AppCommand::DeleteItem, SidebarSelection::Note { listed: true }), CommandAction::OpenDialog(DialogState::DeleteConfirm));
    assert_eq!(act(AppCommand::RenameItem, SidebarSelection::Note { listed: false }), CommandAction::NoAction);
    assert_eq!(act(AppCommand::DeleteItem, SidebarSelection::Nothing), CommandAction::NoAction);
    assert_eq!(root_refusal_message(false), "The vault root cannot be deleted");
    assert_eq!(root_refusal_message(true), "The vault root cannot be renamed");
}

#[test]
fn moves_go_to_the_focused_pane_and_document_kind() {
    let at = ContentAtCursor::Other;
    let none = SidebarSelection::Nothing;
    assert_eq!(app_command_action(AppCommand::MoveDown, Focus::Sidebar, None, false, none, at), CommandAction::MoveSidebar(Step::Next));
    assert_eq!(app_command_action(AppCommand::GoLast, Focus::Outline, None, false, none, at), CommandAction::MoveOutline(Step::Last));
    assert_eq!(app_command_action(AppCommand::MoveUp, Focus::Content, Some(DocumentKind::Base), false, none, at), CommandAction::MoveBaseRow(Step::Previous));
    assert_eq!(app_command_action(AppCommand::GoFirst, Focus::Content, Some(DocumentKind::Canvas), false, none, at), CommandAction::MoveCanvasNode(Step::First));
    assert_eq!(app_command_action(AppCommand::MoveDown, Focus::Content, Some(DocumentKind::Markdown), true, none, at), CommandAction::MoveFloatingCursor(Step::Next));
    assert_eq!(app_command_action(AppCommand::GoFirst, Focus::Content, Some(DocumentKind::Markdown), true, none, at), CommandAction::MoveContent(Step::First));
    assert_eq!(app_command_action(AppCommand::Activate, Focus::Sidebar, None, false, none, at), CommandAction::SidebarEnter);
    assert_eq!(app_command_action(AppCommand::OpenSelected, Focus::Sidebar, None, false, none, at), CommandAction::NoAction);
    assert_eq!(app_command_action(AppCommand::Activate, Focus::Content, None, false, none, at), CommandAction::OpenContentTargetOrImage);
}

#[test]
fn content_action_depends_on_the_item_at_the_cursor() {
    let none = SidebarSelection::Nothing;
    let md = Some(DocumentKind::Markdown);
    let act = |at| app_command_action(AppCommand::ContentAction, Focus::Content, md, false, none, at);
    assert_eq!(act(ContentAtCursor::Task { checkbox_selected: true }), CommandAction::ToggleTask);
    assert_eq!(act(ContentAtCursor::Task { checkbox_selected: false }), CommandAction::ToggleTaskUnlessTarget);
    assert_eq!(act(ContentAtCursor::Details), CommandAction::ToggleDetails);
    assert_eq!(act(ContentAtCursor::Heading), CommandAction::ToggleHeadingFold);
    assert_eq!(act(ContentAtCursor::Other), CommandAction::OpenContentTarget);
    assert_eq!(app_command_action(AppCommand::ContentAction, Focus::Sidebar, Some(DocumentKind::Base), false, none, ContentAtCursor::Other), CommandAction::OpenBaseRow);
    assert_eq!(app_command_action(AppCommand::ToggleEditorMode, Focus::Content, Some(DocumentKind::Canvas), false, none, ContentAtCursor::Other), CommandAction::BeginCanvasNodeEdit);
    assert_eq!(app_command_action(AppCommand::ToggleEditorMode, Focus::Sidebar, Some(DocumentKind::Canvas), false, none, ContentAtCursor::Other), CommandAction::SwitchEditingMode);
    assert_eq!(app_command_action(AppCommand::Quit, Focus::Sidebar, None, false, none, ContentAtCursor::Other), CommandAction::Quit);
}
