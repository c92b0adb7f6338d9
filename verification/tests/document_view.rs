use ekphos::document_view::{inline_image_selections_for_links, matching_task_item, task_source_position, DocumentView, LinkInfo};
use ekphos::session::{ContentItem, DocumentLinkRange, DocumentRange, OutlineItem};

fn range() -> DocumentRange {
    DocumentRange { start: 0, end: 0 }
}

fn line(source_line: u32, heading_level: u8) -> ContentItem {
    ContentItem::TextLine { range: range(), source_line, heading_level }
}

fn task(source_line: u32, indent: u16) -> ContentItem {
    ContentItem::TaskItem { text: range(), checked: false, source_line, indent }
}

fn no_links(n: usize) -> Vec<DocumentLinkRange> {
    (0..n).map(|_| DocumentLinkRange { start: 0, len: 0, image_count: 0 }).collect()
}

/// # A, text, ## B, text, # C, text
fn outline_doc() -> DocumentView {
    let items = vec![line(0, 1), line(1, 0), line(2, 2), line(3, 0), line(4, 1), line(5, 0)];
    let outline = vec![
        OutlineItem { level: 1, source_line: 0, line: 0 },
        OutlineItem { level: 2, source_line: 2, line: 2 },
        OutlineItem { level: 1, source_line: 4, line: 4 },
    ];
    DocumentView::new(items, Vec::new(), no_links(6), outline, false)
}

fn markdown(text: &str, url: &str, start_col: usize, end_col: usize) -> LinkInfo {
    LinkInfo::Markdown { text: text.to_string(), url: url.to_string(), start_col, end_col }
}

fn image(path: &str, start_col: usize) -> LinkInfo {
    LinkInfo::Image { path: path.to_string(), start_col, end_col: start_col }
}

fn wiki(target: &str, start_col: usize, end_col: usize) -> LinkInfo {
    LinkInfo::Wiki { target: target.to_string(), heading: None, start_col, end_col, is_valid: true }
}

/// A text line with a Markdown link and a wiki link, a task with two links,
/// and a line without links.
fn linked_doc() -> DocumentView {
    let items = vec![line(0, 0), task(1, 2), line(2, 0)];
    let links = vec![markdown("docs", "docs.md", 3, 7), wiki("Note", 10, 14), markdown("a", "a.md", 0, 1), image("pic.png", 4)];
    let ranges = vec![
        DocumentLinkRange { start: 0, len: 2, image_count: 0 },
        DocumentLinkRange { start: 2, len: 2, image_count: 1 },
        DocumentLinkRange { start: 4, len: 0, image_count: 0 },
    ];
    DocumentView::new(items, links, ranges, Vec::new(), false)
}

#[test]
fn every_inline_image_has_its_own_selection_index() {
    let links = vec![
        LinkInfo::Markdown { text: "docs".to_string(), url: "docs.md".to_string(), start_col: 0, end_col: 4 },
        LinkInfo::Image { path: "one.png".to_string(), start_col: 5, end_col: 5 },
        LinkInfo::Image { path: "two.png".to_string(), start_col: 6, end_col: 6 },
    ];
    assert_eq!(inline_image_selections_for_links(&links, false), vec![("one.png".to_string(), 1), ("two.png".to_string(), 2)]);
    assert_eq!(inline_image_selections_for_links(&links, true), vec![("one.png".to_string(), 2), ("two.png".to_string(), 3)]);
}

#[test]
fn task_offset_applies_only_when_links_exist() {
    assert_eq!(inline_image_selections_for_links(&[], true), Vec::<(String, usize)>::new());
}

#[test]
fn heading_children_run_to_the_next_heading_of_same_or_higher_rank() {
    let doc = outline_doc();
    assert_eq!(doc.get_heading_children_range(0), 1..4);
    assert_eq!(doc.get_heading_children_range(2), 3..4);
    assert_eq!(doc.get_heading_children_range(4), 5..6);
    // a plain line has level 0, which no heading closes
    assert_eq!(doc.get_heading_children_range(1), 2..6);
    assert_eq!(doc.get_heading_children_range(9), 9..9);
}

#[test]
fn children_of_a_non_text_item_are_empty() {
    let doc = DocumentView::new(vec![task(0, 0), line(1, 0)], Vec::new(), no_links(2), Vec::new(), false);
    assert_eq!(doc.get_heading_children_range(0), 0..0);
}

#[test]
fn folding_a_heading_hides_its_section_only() {
    let mut doc = outline_doc();
    assert_eq!(doc.toggle_heading_fold_at(0), Some(true));
    let shown: Vec<bool> = (0..6).map(|i| doc.is_content_item_visible(i)).collect();
    assert_eq!(shown, vec![true, false, false, false, true, true]);
    assert!(doc.is_heading_folded(0));
    assert_eq!(doc.toggle_heading_fold_at(0), Some(false));
    assert!((0..6).all(|i| doc.is_content_item_visible(i)));
}

#[test]
fn toggling_a_plain_line_does_nothing() {
    let mut doc = outline_doc();
    assert_eq!(doc.toggle_heading_fold_at(1), None);
    assert_eq!(doc.toggle_heading_fold_at(42), None);
    assert!((0..6).all(|i| doc.is_content_item_visible(i)));
}

#[test]
fn toggle_current_heading_fold_uses_the_cursor() {
    let mut doc = outline_doc();
    doc.content_cursor = 2;
    assert_eq!(doc.toggle_current_heading_fold(), Some(true));
    assert!(!doc.is_content_item_visible(3));
    assert!(doc.is_content_item_visible(2));
    doc.content_cursor = 3;
    assert_eq!(doc.toggle_current_heading_fold(), None);
}

#[test]
fn fold_and_unfold_all_count_headings_and_records() {
    let mut doc = outline_doc();
    assert_eq!(doc.fold_all_headings(), 3);
    assert_eq!((0..6).filter(|i| doc.is_content_item_visible(*i)).count(), 2);
    doc.unfold_heading_at(4);
    assert!(doc.is_content_item_visible(5));
    assert_eq!(doc.unfold_all_headings(), 3);
    assert!((0..6).all(|i| doc.is_content_item_visible(i)));
    assert_eq!(doc.unfold_all_headings(), 0);
}

#[test]
fn cursor_skips_folded_items_both_ways() {
    let mut doc = outline_doc();
    doc.toggle_heading_fold_at(0);
    doc.selected_link_index = 3;
    doc.next_content_line();
    assert_eq!(doc.content_cursor, 4);
    assert_eq!(doc.selected_link_index, 0);
    doc.next_content_line();
    assert_eq!(doc.content_cursor, 5);
    doc.next_content_line();
    assert_eq!(doc.content_cursor, 5);
    doc.previous_content_line();
    assert_eq!(doc.content_cursor, 4);
    doc.previous_content_line();
    assert_eq!(doc.content_cursor, 0);
    doc.previous_content_line();
    assert_eq!(doc.content_cursor, 0);
}

#[test]
fn first_and_last_land_on_visible_items() {
    let mut doc = outline_doc();
    doc.toggle_heading_fold_at(4);
    doc.goto_last_content_line();
    assert_eq!(doc.content_cursor, 4);
    doc.goto_first_content_line();
    assert_eq!(doc.content_cursor, 0);
    let mut empty = DocumentView::new(Vec::new(), Vec::new(), Vec::new(), Vec::new(), false);
    empty.goto_last_content_line();
    empty.next_content_line();
    assert_eq!(empty.content_cursor, 0);
}

#[test]
fn half_pages_count_only_visible_items() {
    let mut doc = outline_doc();
    doc.toggle_heading_fold_at(2);
    // height 6 leaves 4 rows: half a page is 2 visible items
    doc.half_page_down_content(6);
    assert_eq!(doc.content_cursor, 2);
    doc.half_page_down_content(6);
    assert_eq!(doc.content_cursor, 5);
    doc.half_page_up_content(6);
    assert_eq!(doc.content_cursor, 2);
    doc.half_page_up_content(100);
    assert_eq!(doc.content_cursor, 0);
    doc.half_page_down_content(1);
    assert_eq!(doc.content_cursor, 0);
}

#[test]
fn floating_moves_need_floating_mode() {
    let mut doc = outline_doc();
    doc.floating_move_down();
    assert_eq!(doc.content_cursor, 0);
    doc.toggle_floating_cursor();
    doc.floating_move_down();
    assert_eq!(doc.content_cursor, 1);
    doc.floating_move_up();
    assert_eq!(doc.content_cursor, 0);
}

#[test]
fn outline_follows_the_cursor() {
    let mut doc = outline_doc();
    assert_eq!(doc.sync_outline_to_content(), Some(0));
    doc.content_cursor = 3;
    assert_eq!(doc.sync_outline_to_content(), Some(1));
    doc.content_cursor = 5;
    assert_eq!(doc.sync_outline_to_content(), Some(2));
    let late = DocumentView::new(vec![line(0, 0), line(1, 1)], Vec::new(), no_links(2), vec![OutlineItem { level: 1, source_line: 1, line: 1 }], false);
    assert_eq!(late.sync_outline_to_content(), None);
}

#[test]
fn task_links_reserve_the_checkbox_stop() {
    let mut doc = linked_doc();
    doc.content_cursor = 1;
    assert!(doc.is_current_task_item());
    assert!(doc.is_task_checkbox_selected());
    assert_eq!(doc.current_line_link_count(), 3);
    assert!(doc.current_selected_link().is_none());
    doc.next_link();
    assert_eq!(doc.selected_link_index, 1);
    match doc.current_selected_link() {
        Some(LinkInfo::Markdown { url, .. }) => assert_eq!(url, "a.md"),
        _ => panic!("expected the markdown link"),
    }
    doc.next_link();
    doc.next_link();
    assert_eq!(doc.selected_link_index, 0);
    doc.previous_link();
    assert_eq!(doc.selected_link_index, 2);
    assert_eq!(doc.item_inline_image_selections_at(1), vec![("pic.png".to_string(), 2)]);
    assert_eq!(doc.inline_image_count_at(1), 1);
}

#[test]
fn link_selection_cycles_on_a_plain_line_and_clamps() {
    let mut doc = linked_doc();
    assert_eq!(doc.current_line_link_count(), 2);
    doc.previous_link();
    assert_eq!(doc.selected_link_index, 1);
    doc.selected_link_index = 9;
    match doc.current_selected_link() {
        Some(LinkInfo::Wiki { target, .. }) => assert_eq!(target, "Note"),
        _ => panic!("expected the wiki link"),
    }
    doc.content_cursor = 2;
    assert!(!doc.current_item_has_link());
    doc.selected_link_index = 0;
    doc.next_link();
    assert_eq!(doc.selected_link_index, 0);
    assert!(doc.current_selected_link().is_none());
}

#[test]
fn link_ranges_past_the_list_give_no_links() {
    let doc = DocumentView::new(vec![line(0, 0)], vec![markdown("a", "a.md", 0, 1)], vec![DocumentLinkRange { start: 1, len: 1, image_count: 0 }], Vec::new(), false);
    assert!(doc.item_all_links_at(0).is_empty());
    assert!(!doc.item_has_link_at(0));
    assert!(doc.item_all_links_at(7).is_empty());
}

#[test]
fn plain_links_drop_wiki_links_and_clicks_find_targets() {
    let doc = linked_doc();
    let links = doc.item_links_at(0);
    assert_eq!(links, vec![("docs".to_string(), "docs.md".to_string(), 3, 7)]);
    assert_eq!(doc.item_links_at(1)[1], ("pic.png".to_string(), "pic.png".to_string(), 4, 4));
    // text lines start two columns in
    assert_eq!(doc.find_clicked_link_at_col(0, 5), Some("docs.md".to_string()));
    assert_eq!(doc.find_clicked_link_at_col(0, 9), None);
    assert_eq!(doc.find_clicked_link_at_col(0, 13), None);
    // a task with indent 2 starts eight columns in
    assert_eq!(doc.find_clicked_link_at_col(1, 8), Some("a.md".to_string()));
    assert_eq!(doc.find_clicked_link_at_col(2, 0), None);
}

#[test]
fn prefixes_and_checkbox_clicks_follow_the_item_kind() {
    let items = vec![
        line(0, 0),
        task(1, 4),
        ContentItem::TableRow { cells: Vec::new(), table: 0, source_line: 2, is_separator: false, is_header: false },
        ContentItem::CodeLine { range: range(), source_line: 3 },
    ];
    let doc = DocumentView::new(items, Vec::new(), no_links(4), Vec::new(), false);
    assert_eq!(doc.get_line_prefix_len(0), 2);
    assert_eq!(doc.get_line_prefix_len(1), 10);
    assert_eq!(doc.get_line_prefix_len(2), 3);
    assert_eq!(doc.get_line_prefix_len(3), 2);
    assert_eq!(doc.get_line_prefix_len(8), 2);
    assert!(!doc.is_click_on_task_checkbox(1, 15, 10));
    assert!(doc.is_click_on_task_checkbox(1, 16, 10));
    assert!(doc.is_click_on_task_checkbox(1, 18, 10));
    assert!(!doc.is_click_on_task_checkbox(1, 19, 10));
    assert!(!doc.is_click_on_task_checkbox(0, 12, 10));
    assert!(!doc.is_click_on_task_checkbox(1, 3, 10));
}

#[test]
fn details_blocks_open_and_close_by_source_line() {
    let items = vec![line(0, 0), ContentItem::Details { summary: None, content_lines: vec![8], source_line: 7 }];
    let mut doc = DocumentView::new(items, Vec::new(), no_links(2), Vec::new(), false);
    assert!(doc.item_is_details_at(1));
    assert!(!doc.item_is_details_at(0));
    doc.toggle_details_at(1);
    assert_eq!(doc.details_open_states.get(&7), Some(&true));
    doc.content_cursor = 1;
    doc.toggle_current_details();
    assert_eq!(doc.details_open_states.get(&7), Some(&false));
    doc.toggle_details_at(0);
    assert_eq!(doc.details_open_states.len(), 1);
}

#[test]
fn a_scanned_task_matches_by_line_and_checkbox() {
    let items = vec![line(0, 0), task(1, 0), ContentItem::TaskItem { text: range(), checked: true, source_line: 2, indent: 0 }];
    assert_eq!(matching_task_item(&items, 1, false), Some(1));
    assert_eq!(matching_task_item(&items, 1, true), None);
    assert_eq!(matching_task_item(&items, 2, true), Some(2));
    assert_eq!(matching_task_item(&items, 0, false), None);
}

#[test]
fn opening_a_task_source_centres_its_item() {
    let items: Vec<ContentItem> = (0..30).map(|i| line(i, 0)).collect();
    // a 12-row pane shows 10 rows: the item lands 5 rows below the top
    assert_eq!(task_source_position(&items, 20, 12), Some((20, 15)));
    assert_eq!(task_source_position(&items, 3, 12), Some((3, 0)));
    assert_eq!(task_source_position(&items, 99, 12), None);
}
