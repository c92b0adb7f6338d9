use ekphos::content_scroll::{content_scroll_offset, wrapped_height};

#[test]
fn words_wrap_at_the_content_width() {
    // 14 columns less a 4-column prefix leave 10: "alpha beta" fills a row
    assert_eq!(wrapped_height("alpha beta gamma delta", 4, 14, 20), 3);
    assert_eq!(wrapped_height("alpha beta gamma delta", 4, 14, 2), 2);
    assert_eq!(wrapped_height("supercalifragilisticexpialidocious", 4, 14, 20), 4);
    assert_eq!(wrapped_height("  spaced   out  ", 0, 20, 20), 1);
    assert_eq!(wrapped_height("**bold** word", 0, 9, 20), 1);
    assert_eq!(wrapped_height("**bold** word", 0, 8, 20), 2);
}

#[test]
fn empty_text_or_no_room_takes_one_row() {
    assert_eq!(wrapped_height("", 4, 14, 20), 1);
    assert_eq!(wrapped_height("text", 4, 0, 20), 1);
    assert_eq!(wrapped_height("text", 14, 14, 20), 1);
    assert_eq!(wrapped_height("text", 20, 14, 0), 1);
}

#[test]
fn paging_keeps_the_cursor_on_screen() {
    let heights = [1u16; 10];
    let visible = [true; 10];
    assert_eq!(content_scroll_offset(&heights, &visible, 2, 4, false, 9), (0, 1));
    assert_eq!(content_scroll_offset(&heights, &visible, 7, 4, false, 0), (4, 5));
    let tall = [1u16, 3, 1, 2, 1];
    let shown = [true, true, true, true, true];
    assert_eq!(content_scroll_offset(&tall, &shown, 4, 4, false, 0), (2, 3));
    let folded = [true, false, false, true, true, true, true, true, true, true];
    assert_eq!(content_scroll_offset(&heights, &folded, 5, 4, false, 0), (0, 1));
    assert_eq!(content_scroll_offset(&heights, &folded, 8, 4, false, 0), (5, 6));
}

#[test]
fn a_floating_cursor_moves_the_view_only_when_it_leaves_it() {
    let heights = [1u16; 10];
    let visible = [true; 10];
    assert_eq!(content_scroll_offset(&heights, &visible, 2, 4, true, 0), (0, 0));
    assert_eq!(content_scroll_offset(&heights, &visible, 6, 4, true, 0), (3, 4));
    assert_eq!(content_scroll_offset(&heights, &visible, 2, 4, true, 5), (2, 3));
    assert_eq!(content_scroll_offset(&heights, &visible, 6, 4, true, 5), (4, 5));
}
