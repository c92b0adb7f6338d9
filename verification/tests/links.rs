use ekphos::links::{calc_rendered_pos, inline_image_links_in_text, link_action, parse_markdown_links_in_text, InlineMath, LinkAction};

#[test]
fn inline_images_keep_source_order_and_zero_width_text_positions() {
    let images = inline_image_links_in_text("before ![one](1.png) and ![two](2.png)", &[]);
    assert_eq!(images, vec![("1.png".to_string(), 7), ("2.png".to_string(), 12)]);
}

#[test]
fn inline_images_ignore_text_only_and_code_syntax() {
    let images = inline_image_links_in_text("!![text only](one.png) `![code](two.png)` ![preview](three.png)", &[]);
    assert_eq!(images.len(), 1);
    assert_eq!(images[0].0, "three.png");
}

#[test]
fn rendered_position_collapses_link_syntax() {
    // "see " (4) + "docs" (4) + " " (1)
    assert_eq!(calc_rendered_pos("see [docs](https://d.test) x", &[], 27), 9);
    // A wiki link counts its target, an image nothing, a tab four columns.
    assert_eq!(calc_rendered_pos("[[note]]\t![i](p.png)z", &[], 20), 8);
    // An empty label counts the URL.
    assert_eq!(calc_rendered_pos("[](abc) ", &[], 8), 4);
    // Counting stops before a link that reaches past the target.
    assert_eq!(calc_rendered_pos("ab [x](y)", &[], 5), 3);
}

#[test]
fn rendered_position_counts_inline_math_source() {
    let text = "a $x+y$ b";
    let math = [InlineMath { start: 2, end: 7, width: 3 }];
    assert_eq!(calc_rendered_pos(text, &math, 9), 1 + 1 + 3 + 1 + 1);
    assert_eq!(calc_rendered_pos(text, &[], 9), 9);
}

#[test]
fn markdown_links_are_found_in_order_with_rendered_columns() {
    let links = parse_markdown_links_in_text("go [home](index.md) or ![pic](a.png) then https://x.test.", &[]);
    assert_eq!(
        links,
        vec![
            ("home".to_string(), "index.md".to_string(), 3, 7),
            ("[img: pic]".to_string(), "a.png".to_string(), 11, 11),
            ("https://x.test".to_string(), "https://x.test".to_string(), 17, 31),
        ]
    );
}

#[test]
fn markdown_links_skip_code_wiki_and_empty_urls() {
    let links = parse_markdown_links_in_text("`[a](b)` [[w]] [c]() [](u)", &[]);
    assert_eq!(links, vec![("u".to_string(), "u".to_string(), 8, 9)]);
}

#[test]
fn text_only_image_shows_its_alt_text() {
    let links = parse_markdown_links_in_text("!![alt](u.png)", &[]);
    assert_eq!(links, vec![("alt".to_string(), "u.png".to_string(), 0, 3)]);
}

#[test]
fn bare_url_inside_a_link_is_not_repeated() {
    let links = parse_markdown_links_in_text("[site](https://a.test)", &[]);
    assert_eq!(links, vec![("site".to_string(), "https://a.test".to_string(), 0, 4)]);
}

#[test]
fn following_links_picks_the_right_target() {
    assert_eq!(link_action("https://example.com/a#b"), LinkAction::External);
    assert_eq!(link_action("http://x"), LinkAction::External);
    assert_eq!(link_action("#setup"), LinkAction::Heading("setup".to_string()));
    assert_eq!(link_action(""), LinkAction::Nothing);
    assert_eq!(link_action("notes/todo.md"), LinkAction::Note("notes/todo.md".to_string(), None));
    assert_eq!(link_action("a.md#part#two"), LinkAction::Note("a.md".to_string(), Some("part#two".to_string())));
    assert_eq!(link_action("report.pdf"), LinkAction::External);
    assert_eq!(link_action("md#x"), LinkAction::External);
}

#[test]
fn rendered_position_takes_a_byte_offset() {
    // "é" takes two bytes and one column.
    assert_eq!(calc_rendered_pos("é [a](b)x", &[], 9), 3);
    assert_eq!(calc_rendered_pos("é [a](b)x", &[], 10), 4);
    // An offset inside a character counts that character.
    assert_eq!(calc_rendered_pos("é[a](b)", &[], 1), 1);
    assert_eq!(calc_rendered_pos("[a](b)é", &[], 7), 2);
    assert_eq!(calc_rendered_pos("abc", &[], 100), 3);
}
