use ekphos::config::StyleMode;
use ekphos::geometry::Rect;
use ekphos::picker::{get_auto_scroll_direction, is_inside_search_picker, screen_to_editor_cell, PickerList, SearchPickerMode};
use ekphos::geometry::Position;
use ekphos::session::{DialogState, Mode};
use ekphos::pointer::{clicked_list_row, route_mouse, MouseRoute, auto_scroll_target, canvas_side_at, constrained_cursor_row, context_menu_click_index, get_context_menu_hover_index, CanvasSide};

fn files(hints: Vec<bool>) -> PickerList {
    PickerList { mode: SearchPickerMode::Files, file_folder_hints: hints, content_count: 0, selected_index: 0, scroll_offset: 0, last_click: None }
}

fn contents(count: usize) -> PickerList {
    PickerList { mode: SearchPickerMode::Content, file_folder_hints: Vec::new(), content_count: count, selected_index: 0, scroll_offset: 0, last_click: None }
}

#[test]
fn selection_wraps_and_scrolls_the_file_window() {
    let mut list = files(vec![false; 15]);
    list.search_picker_select_prev();
    assert_eq!((list.selected_index, list.scroll_offset), (14, 5));
    list.search_picker_select_next();
    assert_eq!((list.selected_index, list.scroll_offset), (0, 0));
    for _ in 0..10 {
        list.search_picker_select_next();
    }
    assert_eq!((list.selected_index, list.scroll_offset), (10, 1));
    list.scroll_offset = 6;
    list.search_picker_select_prev();
    assert_eq!((list.selected_index, list.scroll_offset), (9, 6));
    list.selected_index = 6;
    list.search_picker_select_prev();
    assert_eq!((list.selected_index, list.scroll_offset), (5, 5));
}

#[test]
fn content_results_show_eighteen_rows() {
    let mut list = contents(20);
    list.search_picker_select_prev();
    assert_eq!((list.selected_index, list.scroll_offset), (19, 2));
    let mut small = contents(3);
    small.search_picker_select_prev();
    assert_eq!((small.selected_index, small.scroll_offset), (2, 0));
    let mut empty = contents(0);
    empty.search_picker_select_next();
    assert_eq!((empty.selected_index, empty.scroll_offset), (0, 0));
}

#[test]
fn scrolling_stops_at_both_ends() {
    let mut list = files(vec![false; 12]);
    list.search_picker_scroll_up();
    assert_eq!(list.scroll_offset, 0);
    list.search_picker_scroll_down();
    list.search_picker_scroll_down();
    list.search_picker_scroll_down();
    assert_eq!(list.scroll_offset, 2);
    list.search_picker_scroll_up();
    assert_eq!(list.scroll_offset, 1);
}

#[test]
fn clicks_find_two_row_file_results_and_double_clicks() {
    let area = Rect::new(10, 5, 40, 12);
    let mut list = files(vec![true, false, true, false]);
    // rows: 0-1 result 0, 2 result 1, 3-4 result 2, 5 result 3
    assert_eq!(list.search_picker_click(12, 8, area, 1_000), 1);
    assert_eq!(list.selected_index, 2);
    assert_eq!(list.search_picker_click(12, 9, area, 1_200), 2);
    assert_eq!(list.search_picker_click(12, 9, area, 2_000), 1);
    assert_eq!(list.search_picker_click(12, 7, area, 2_100), 1);
    assert_eq!(list.selected_index, 1);
    assert_eq!(list.search_picker_click(12, 11, area, 2_200), 0);
    assert_eq!(list.selected_index, 1);
    assert_eq!(list.search_picker_click(9, 7, area, 2_300), 0);
    assert_eq!(list.last_click, Some((2_100, 1)));
}

#[test]
fn content_clicks_count_from_the_window() {
    let area = Rect::new(0, 0, 20, 18);
    let mut list = contents(30);
    list.scroll_offset = 10;
    assert_eq!(list.search_picker_click(3, 4, area, 50), 1);
    assert_eq!(list.selected_index, 14);
}

#[test]
fn picker_area_contains_its_cells_only() {
    let area = Rect::new(2, 3, 4, 5);
    assert!(is_inside_search_picker(area, 2, 3));
    assert!(is_inside_search_picker(area, 5, 7));
    assert!(!is_inside_search_picker(area, 6, 7));
    assert!(!is_inside_search_picker(area, 5, 8));
}

#[test]
fn auto_scroll_near_the_pane_edges() {
    let area = Rect::new(0, 10, 40, 20);
    // outlined: text rows 11..29
    assert_eq!(get_auto_scroll_direction(area, false, StyleMode::Outlined, 3, 12), -1);
    assert_eq!(get_auto_scroll_direction(area, false, StyleMode::Outlined, 0, 12), 0);
    assert_eq!(get_auto_scroll_direction(area, false, StyleMode::Outlined, 3, 20), 0);
    assert_eq!(get_auto_scroll_direction(area, false, StyleMode::Outlined, 3, 27), 1);
    assert_eq!(get_auto_scroll_direction(area, true, StyleMode::Outlined, 3, 28), 1);
    assert_eq!(get_auto_scroll_direction(Rect::new(0, 0, 10, 1), false, StyleMode::Outlined, 3, 0), 0);
}

#[test]
fn mouse_cells_start_after_border_and_gutter() {
    let area = Rect::new(5, 2, 30, 10);
    assert_eq!(screen_to_editor_cell(area, false, StyleMode::Outlined, 4, 12, 5), Some((2, 2)));
    assert_eq!(screen_to_editor_cell(area, false, StyleMode::Outlined, 4, 7, 5), Some((2, 0)));
    assert_eq!(screen_to_editor_cell(area, false, StyleMode::Outlined, 4, 5, 5), None);
    assert_eq!(screen_to_editor_cell(area, true, StyleMode::Outlined, 4, 5, 2), Some((0, 0)));
    assert_eq!(screen_to_editor_cell(area, false, StyleMode::Outlined, 4, 12, 11), None);
}

#[test]
fn context_menu_rows_map_to_entries() {
    // five entries at (10, 4): border row 4, entries on rows 5..=9, border row 10
    assert_eq!(context_menu_click_index(12, 5, 10, 4, 5), Some(0));
    assert_eq!(context_menu_click_index(12, 4, 10, 4, 5), Some(0));
    assert_eq!(context_menu_click_index(12, 9, 10, 4, 5), Some(4));
    assert_eq!(context_menu_click_index(12, 10, 10, 4, 5), None);
    assert_eq!(context_menu_click_index(24, 6, 10, 4, 5), None);
    assert_eq!(get_context_menu_hover_index(23, 6, 10, 4, 5), Some(1));
    assert_eq!(get_context_menu_hover_index(12, 4, 10, 4, 5), None);
    assert_eq!(get_context_menu_hover_index(12, 10, 10, 4, 5), None);
}

#[test]
fn nearest_canvas_side_prefers_top_then_right() {
    let rect = Rect::new(10, 10, 11, 7);
    // right edge column 20, bottom edge row 16
    assert_eq!(canvas_side_at(rect, Position::new(15, 11)), CanvasSide::Top);
    assert_eq!(canvas_side_at(rect, Position::new(19, 13)), CanvasSide::Right);
    assert_eq!(canvas_side_at(rect, Position::new(15, 16)), CanvasSide::Bottom);
    assert_eq!(canvas_side_at(rect, Position::new(11, 13)), CanvasSide::Left);
    assert_eq!(canvas_side_at(rect, Position::new(10, 10)), CanvasSide::Top);
    assert_eq!(canvas_side_at(rect, Position::new(20, 13)), CanvasSide::Right);
}

#[test]
fn cursor_stays_inside_the_view_with_scrolloff() {
    // 100 lines, view rows 20..=29
    assert_eq!(constrained_cursor_row(5, 100, 20, 10, 0), Some(20));
    assert_eq!(constrained_cursor_row(50, 100, 20, 10, 0), Some(29));
    assert_eq!(constrained_cursor_row(25, 100, 20, 10, 3), Some(25));
    assert_eq!(constrained_cursor_row(21, 100, 20, 10, 3), Some(23));
    assert_eq!(constrained_cursor_row(28, 100, 20, 10, 3), Some(26));
    assert_eq!(constrained_cursor_row(5, 100, 20, 10, 3), Some(20));
    assert_eq!(constrained_cursor_row(21, 100, 20, 10, 9), Some(25));
    // a short note: the scrolloff still pulls the last line up
    assert_eq!(constrained_cursor_row(3, 4, 0, 10, 2), Some(1));
    assert_eq!(constrained_cursor_row(3, 4, 0, 0, 2), None);
}

#[test]
fn held_drags_scroll_one_row_within_the_text() {
    assert_eq!(auto_scroll_target(-1, 5, 100, 20), Some(4));
    assert_eq!(auto_scroll_target(-1, 0, 100, 20), None);
    assert_eq!(auto_scroll_target(1, 5, 100, 20), Some(6));
    assert_eq!(auto_scroll_target(1, 80, 100, 20), None);
    assert_eq!(auto_scroll_target(1, 0, 10, 20), None);
}

#[test]
fn mouse_events_go_to_the_frontmost_handler() {
    assert_eq!(route_mouse(true, true, DialogState::TaskView, Mode::Edit, true), MouseRoute::ContextMenu);
    assert_eq!(route_mouse(false, true, DialogState::TaskView, Mode::Edit, true), MouseRoute::SearchPicker);
    assert_eq!(route_mouse(false, false, DialogState::GraphView, Mode::Edit, true), MouseRoute::GraphView);
    assert_eq!(route_mouse(false, false, DialogState::TaskView, Mode::Normal, false), MouseRoute::TaskView);
    assert_eq!(route_mouse(false, false, DialogState::Help, Mode::Edit, false), MouseRoute::Edit);
    assert_eq!(route_mouse(false, false, DialogState::Closed, Mode::Normal, false), MouseRoute::Panes);
    assert_eq!(route_mouse(false, false, DialogState::Closed, Mode::Normal, true), MouseRoute::Ignore);
    assert_eq!(route_mouse(false, false, DialogState::Help, Mode::Normal, false), MouseRoute::Ignore);
}

#[test]
fn list_rows_start_below_the_border() {
    let area = Rect::new(0, 3, 20, 10);
    assert_eq!(clicked_list_row(area, 4, 5), Some(0));
    assert_eq!(clicked_list_row(area, 3, 5), Some(0));
    assert_eq!(clicked_list_row(area, 8, 5), Some(4));
    assert_eq!(clicked_list_row(area, 9, 5), None);
}
