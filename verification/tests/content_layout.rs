use unicode_width::UnicodeWidthStr;
use ekphos::content_layout::{
    cap_column_widths, cell_visible_width, inline_image_state_key, inline_thumbnails_height, inline_thumbnails_per_row,
    standalone_image_state_key, TABLE_COLUMN_MIN_WIDTH,
};

#[test]
fn image_protocol_keys_are_stable_per_placement() {
    assert_eq!(standalone_image_state_key(7, "image.png"), standalone_image_state_key(7, "image.png"));
    assert_eq!(inline_image_state_key(7, 2, "image.png"), inline_image_state_key(7, 2, "image.png"));
}

#[test]
fn image_protocol_keys_distinguish_duplicate_placements() {
    assert_ne!(inline_image_state_key(7, 1, "image.png"), inline_image_state_key(7, 2, "image.png"));
    assert_ne!(standalone_image_state_key(7, "image.png"), inline_image_state_key(7, 1, "image.png"));
}

#[test]
fn image_keys_spell_out_the_placement() {
    assert_eq!(standalone_image_state_key(7, "image.png"), "standalone:7:image.png");
    assert_eq!(inline_image_state_key(12, 0, "a.png"), "inline:12:0:a.png");
    assert_ne!(inline_image_state_key(1, 12, "x"), inline_image_state_key(1, 1, "2:x"));
}

#[test]
fn inline_thumbnail_rows_use_configured_height() {
    assert_eq!(inline_thumbnails_height(0, 80, 8), 0);
    assert_eq!(inline_thumbnails_height(1, 80, 8), 8);
    assert_eq!(inline_thumbnails_height(3, 80, 8), 8);
}

#[test]
fn inline_thumbnail_rows_wrap_at_content_boundary() {
    // At 30 columns, 12-column thumbnails plus a one-column gap fit two per row.
    assert_eq!(inline_thumbnails_per_row(30, 4), 2);
    assert_eq!(inline_thumbnails_height(2, 30, 4), 4);
    assert_eq!(inline_thumbnails_height(3, 30, 4), 8);
}

#[test]
fn inline_thumbnail_rows_saturate_on_extreme_values() {
    assert_eq!(inline_thumbnails_height(usize::MAX, u16::MAX, u16::MAX), u16::MAX);
}

#[test]
fn thumbnails_always_fit_one_per_row() {
    assert_eq!(inline_thumbnails_per_row(0, 4), 1);
    assert_eq!(inline_thumbnails_height(3, 5, 4), 12);
}

#[test]
fn cell_visible_width_plain_text() {
    assert_eq!(cell_visible_width("Plain URL"), 9);
}

#[test]
fn cell_visible_width_strips_markdown_link() {
    assert_eq!(cell_visible_width("[Top 5](https://x.test)"), 5);
}

#[test]
fn cell_visible_width_strips_bold_italic_code() {
    assert_eq!(cell_visible_width("**bold text**"), 9);
    assert_eq!(cell_visible_width("*em*"), 2);
    assert_eq!(cell_visible_width("`code`"), 4);
}

#[test]
fn cell_visible_width_mixed_text_and_link() {
    assert_eq!(cell_visible_width("one [a](https://u.test) two"), 9);
}

#[test]
fn cell_visible_width_multiple_links_same_cell() {
    assert_eq!(cell_visible_width("[a](https://u1.test) [b](https://u2.test)"), 3);
}

#[test]
fn cell_visible_width_removes_preview_images_from_prose() {
    assert_eq!(cell_visible_width("![one](1.png)"), 0);
    assert_eq!(cell_visible_width("before ![one](1.png) after"), UnicodeWidthStr::width("before  after"));
    assert_eq!(cell_visible_width("!![one](1.png)"), UnicodeWidthStr::width("one"));
}

#[test]
fn cell_visible_width_counts_bare_url_one_to_one() {
    assert_eq!(cell_visible_width("visit https://x.test"), 20);
}

#[test]
fn cell_visible_width_counts_emoji_as_two_columns() {
    assert_eq!(cell_visible_width("🟡In-Progress"), 13);
    assert_eq!(cell_visible_width("🟡"), 2);
    assert_eq!(cell_visible_width("In-Progress"), 11);
}

#[test]
fn cell_visible_width_shows_wiki_targets_and_empty_labels() {
    assert_eq!(cell_visible_width("[[Note]]"), 4);
    assert_eq!(cell_visible_width("[](abc)"), 3);
}

#[test]
fn cap_column_widths_leaves_narrow_columns_alone() {
    let natural = vec![7, 12, 500];
    let capped = cap_column_widths(&natural, 107);
    assert_eq!(capped[0], 7);
    assert_eq!(capped[1], 12);
    assert_eq!(capped[0] + capped[1] + capped[2], 107);
}

#[test]
fn cap_column_widths_no_shrink_when_it_fits() {
    let natural = vec![4, 6, 10];
    assert_eq!(cap_column_widths(&natural, 50), vec![4, 6, 10]);
}

#[test]
fn cap_column_widths_respects_min_floor() {
    let natural = vec![3, 50, 50];
    let capped = cap_column_widths(&natural, 5);
    assert_eq!(capped[0], 3);
    assert_eq!(capped[1], TABLE_COLUMN_MIN_WIDTH);
    assert_eq!(capped[2], TABLE_COLUMN_MIN_WIDTH);
}

#[test]
fn cap_column_widths_shares_a_common_cap() {
    assert_eq!(cap_column_widths(&[30, 20, 10], 40), vec![15, 15, 10]);
    assert_eq!(cap_column_widths(&[30, 20, 10], 41), vec![15, 15, 10]);
    assert_eq!(cap_column_widths(&[], 0), Vec::<usize>::new());
}
