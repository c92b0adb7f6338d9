use ekphos::canvas_editor::{CanvasEditorHitRow, CanvasNodeEditField, CanvasNodeEditor, CanvasResizeHandle};
use ekphos::geometry::{Position, Rect};

#[test]
fn field_labels_and_line_modes() {
    assert_eq!(CanvasNodeEditField::Text.label(), "text");
    assert_eq!(CanvasNodeEditField::Link.label(), "link");
    assert_eq!(CanvasNodeEditField::GroupLabel.label(), "group name");
    assert!(CanvasNodeEditField::Text.multiline());
    assert!(!CanvasNodeEditField::Link.multiline());
    assert!(!CanvasNodeEditField::GroupLabel.multiline());
}

#[test]
fn new_editor_puts_the_cursor_after_the_draft() {
    let editor = CanvasNodeEditor::new(3, CanvasNodeEditField::Text, "héllo".to_string());
    assert_eq!(editor.node, 3);
    assert_eq!(editor.cursor, 6);
    assert!(editor.follow_cursor);
    assert_eq!(editor.preferred_column, None);
    assert_eq!(editor.total_rows, 1);
}

#[test]
fn insert_turns_line_breaks_into_spaces_in_single_line_fields() {
    let mut editor = CanvasNodeEditor::new(0, CanvasNodeEditField::Link, "ab".to_string());
    editor.cursor = 1;
    editor.insert("x\r\ny");
    assert_eq!(editor.draft, "ax yb");
    assert_eq!(editor.cursor, 4);
    editor.insert("\n\r");
    assert_eq!(editor.draft, "ax y  b");
    assert!(!editor.draft.contains('\n'));
}

#[test]
fn insert_normalises_carriage_returns_in_multi_line_fields() {
    let mut editor = CanvasNodeEditor::new(0, CanvasNodeEditField::Text, String::new());
    editor.preferred_column = Some(4);
    editor.insert("a\r\nb\rc");
    assert_eq!(editor.draft, "a\nb\nc");
    assert_eq!(editor.cursor, 5);
    assert_eq!(editor.preferred_column, None);
}

#[test]
fn backspace_removes_a_whole_grapheme_cluster() {
    let mut editor = CanvasNodeEditor::new(0, CanvasNodeEditField::Text, "ae\u{301}".to_string());
    assert_eq!(editor.cursor, 4);
    editor.backspace();
    assert_eq!(editor.draft, "a");
    assert_eq!(editor.cursor, 1);
    editor.backspace();
    assert_eq!(editor.draft, "");
    assert_eq!(editor.cursor, 0);
    editor.backspace();
    assert_eq!(editor.draft, "");
    assert_eq!(editor.cursor, 0);
}

#[test]
fn delete_removes_the_cluster_after_the_cursor() {
    let mut editor = CanvasNodeEditor::new(0, CanvasNodeEditField::Text, "héllo".to_string());
    editor.cursor = 0;
    editor.delete();
    assert_eq!(editor.draft, "éllo");
    assert_eq!(editor.cursor, 0);
    editor.delete();
    assert_eq!(editor.draft, "llo");
    editor.move_document_boundary(true);
    assert_eq!(editor.cursor, 3);
    editor.delete();
    assert_eq!(editor.draft, "llo");
}

#[test]
fn horizontal_moves_step_over_multibyte_characters() {
    let mut editor = CanvasNodeEditor::new(0, CanvasNodeEditField::Link, "aé".to_string());
    editor.move_document_boundary(false);
    assert_eq!(editor.cursor, 0);
    editor.move_horizontal(1);
    assert_eq!(editor.cursor, 1);
    editor.move_horizontal(1);
    assert_eq!(editor.cursor, 3);
    editor.move_horizontal(1);
    assert_eq!(editor.cursor, 3);
    editor.move_horizontal(-1);
    assert_eq!(editor.cursor, 1);
}

#[test]
fn a_cursor_inside_a_character_falls_back_to_its_start() {
    let mut editor = CanvasNodeEditor::new(0, CanvasNodeEditField::Link, "aé".to_string());
    editor.cursor = 2;
    editor.move_horizontal(1);
    assert_eq!(editor.cursor, 3);
}

#[test]
fn multi_line_layout_wraps_and_places_the_caret() {
    let mut editor = CanvasNodeEditor::new(0, CanvasNodeEditField::Text, "abcdef".to_string());
    let layout = editor.layout(Rect::new(0, 0, 4, 2));
    assert_eq!(editor.viewport_width, 3);
    assert_eq!(editor.viewport_height, 2);
    assert_eq!(editor.total_rows, 2);
    assert_eq!(editor.caret_row, 1);
    assert_eq!(editor.caret_column, 3);
    assert_eq!(editor.scroll_row, 0);
    assert_eq!(layout.rows.len(), 2);
    assert_eq!(layout.rows[0].text, "abc");
    assert_eq!(layout.rows[0].area, Rect::new(0, 0, 3, 1));
    assert_eq!(layout.rows[1].text, "def");
    assert_eq!(layout.rows[1].area, Rect::new(0, 1, 3, 1));
    assert_eq!(layout.caret, Some(Position::new(2, 1)));
    assert!(!layout.hidden_before);
    assert!(!layout.hidden_after);
    assert!(!layout.caret_before);
    assert!(!layout.caret_after);
    assert!(layout.multiline);
    assert_eq!(
        editor.hit_rows,
        vec![
            CanvasEditorHitRow { area: Rect::new(0, 0, 3, 1), start: 0, end: 3 },
            CanvasEditorHitRow { area: Rect::new(0, 1, 3, 1), start: 3, end: 6 },
        ]
    );
}

#[test]
fn vertical_moves_keep_the_preferred_column() {
    let mut editor = CanvasNodeEditor::new(0, CanvasNodeEditField::Text, "abcdef".to_string());
    editor.layout(Rect::new(0, 0, 4, 2));
    editor.cursor = 1;
    editor.move_vertical(1);
    assert_eq!(editor.cursor, 4);
    assert_eq!(editor.preferred_column, Some(1));
    editor.move_vertical(-1);
    assert_eq!(editor.cursor, 1);
    editor.move_row_boundary(true);
    assert_eq!(editor.cursor, 3);
    assert_eq!(editor.preferred_column, None);
    // At a soft-wrap point the cursor belongs to the row that continues there.
    editor.move_row_boundary(false);
    assert_eq!(editor.cursor, 3);
}

#[test]
fn page_moves_jump_a_screenful() {
    let mut editor = CanvasNodeEditor::new(0, CanvasNodeEditField::Text, "a\nb\nc\nd\ne".to_string());
    editor.layout(Rect::new(0, 0, 5, 2));
    editor.cursor = 0;
    editor.move_page(1);
    assert_eq!(editor.cursor, 4);
    editor.move_page(1);
    assert_eq!(editor.cursor, 8);
    editor.move_page(1);
    assert_eq!(editor.cursor, 8);
    editor.move_page(-1);
    assert_eq!(editor.cursor, 4);
}

#[test]
fn single_line_fields_ignore_vertical_moves() {
    let mut editor = CanvasNodeEditor::new(0, CanvasNodeEditField::Link, "abc".to_string());
    editor.cursor = 1;
    editor.move_vertical(1);
    editor.move_page(1);
    assert_eq!(editor.cursor, 1);
    editor.move_row_boundary(true);
    assert_eq!(editor.cursor, 3);
}

#[test]
fn single_line_layout_scrolls_sideways_to_the_caret() {
    let mut editor = CanvasNodeEditor::new(0, CanvasNodeEditField::Link, "abcdefghij".to_string());
    let layout = editor.layout(Rect::new(0, 0, 6, 1));
    assert_eq!(editor.viewport_width, 4);
    assert_eq!(editor.scroll_column, 7);
    assert_eq!(editor.caret_column, 10);
    assert_eq!(layout.rows.len(), 1);
    assert_eq!(layout.rows[0].text, "hij");
    assert_eq!(layout.rows[0].area, Rect::new(1, 0, 4, 1));
    assert_eq!(layout.caret, Some(Position::new(4, 0)));
    assert!(layout.hidden_before);
    assert!(!layout.hidden_after);
    assert!(!layout.multiline);
    assert_eq!(editor.hit_rows, vec![CanvasEditorHitRow { area: Rect::new(1, 0, 4, 1), start: 7, end: 10 }]);
}

#[test]
fn clicks_land_on_the_nearest_boundary() {
    let mut editor = CanvasNodeEditor::new(0, CanvasNodeEditField::Text, "abcdef".to_string());
    editor.layout(Rect::new(0, 0, 4, 2));
    assert!(editor.place_cursor(Position::new(1, 1)));
    assert_eq!(editor.cursor, 4);
    assert!(editor.place_cursor(Position::new(2, 0)));
    assert_eq!(editor.cursor, 2);
    assert!(!editor.place_cursor(Position::new(10, 10)));
    assert_eq!(editor.cursor, 2);
}

#[test]
fn scrolling_stays_within_the_rows() {
    let mut editor = CanvasNodeEditor::new(0, CanvasNodeEditField::Text, String::new());
    editor.total_rows = 10;
    editor.viewport_height = 3;
    editor.scroll(5);
    assert_eq!(editor.scroll_row, 5);
    assert!(!editor.follow_cursor);
    editor.scroll(50);
    assert_eq!(editor.scroll_row, 7);
    editor.scroll(-10);
    assert_eq!(editor.scroll_row, 0);
    editor.total_rows = 3;
    editor.follow_cursor = true;
    editor.scroll(2);
    assert_eq!(editor.scroll_row, 0);
    assert!(editor.follow_cursor);
}

#[test]
fn resize_handles_know_their_edges() {
    assert!(CanvasResizeHandle::TopLeft.affects_left());
    assert!(CanvasResizeHandle::TopLeft.affects_top());
    assert!(!CanvasResizeHandle::TopLeft.affects_right());
    assert!(CanvasResizeHandle::BottomRight.affects_bottom());
    assert!(CanvasResizeHandle::BottomRight.is_corner());
    assert!(!CanvasResizeHandle::Right.is_corner());
    assert_eq!(CanvasResizeHandle::Top.glyph(), '↕');
    assert_eq!(CanvasResizeHandle::Left.glyph(), '↔');
    assert_eq!(CanvasResizeHandle::TopLeft.glyph(), '╲');
    assert_eq!(CanvasResizeHandle::BottomLeft.glyph(), '╱');
}
