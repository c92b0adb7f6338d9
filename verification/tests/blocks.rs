use ekphos::blocks::{frontmatter_entry, link_ranges, outline, parse_blocks, Block, LineMarks};
use ekphos::session::{DocumentLinkRange, OutlineItem};

fn lines(ls: &[&str]) -> Vec<String> {
    ls.iter().map(|l| l.to_string()).collect()
}

fn plain(n: usize) -> Vec<LineMarks> {
    vec![LineMarks { math_body: false, math_delimiter: false, heading: 0 }; n]
}

#[test]
fn frontmatter_is_shown_line_by_line_or_as_badges() {
    let ls = lines(&["---", "title: A", "tags: [x]", "---", "body"]);
    let m = plain(5);
    let shown = parse_blocks(&ls, &m, Some(true), 4, false, true);
    assert_eq!(
        shown,
        vec![
            Block::FrontmatterDelimiter { line: 0 },
            Block::FrontmatterLine { line: 1 },
            Block::FrontmatterLine { line: 2 },
            Block::FrontmatterDelimiter { line: 3 },
            Block::TextLine { line: 4, heading_level: 0 },
        ]
    );
    let hidden = parse_blocks(&ls, &m, Some(true), 4, true, true);
    assert_eq!(hidden, vec![Block::TagBadges, Block::TextLine { line: 4, heading_level: 0 }]);
    let no_tags = parse_blocks(&ls, &m, Some(false), 4, true, true);
    assert_eq!(no_tags, vec![Block::TextLine { line: 4, heading_level: 0 }]);
    let none = parse_blocks(&ls, &m, None, 4, false, true);
    assert_eq!(none.len(), 5);
    assert_eq!(frontmatter_entry("title:  A note "), ("title".to_string(), "A note".to_string()));
    assert_eq!(frontmatter_entry(" no colon "), (String::new(), " no colon ".to_string()));
}

#[test]
fn code_fences_hold_their_lines() {
    let ls = lines(&["```rust", "- [ ] not a task", "| a |", "```", "- [ ] a task"]);
    let blocks = parse_blocks(&ls, &plain(5), None, 0, false, false);
    assert_eq!(
        blocks,
        vec![
            Block::CodeFence { line: 0 },
            Block::CodeLine { line: 1 },
            Block::CodeLine { line: 2 },
            Block::CodeFence { line: 3 },
            Block::Task { line: 4 },
        ]
    );
}

#[test]
fn display_math_needs_text_between_its_delimiters() {
    let ls = lines(&["$$", "x^2", "$$", "$$", "  ", "$$", "$$ y $$"]);
    let mut m = plain(7);
    for i in [0, 2, 3, 5] {
        m[i].math_delimiter = true;
    }
    m[6].math_body = true;
    let blocks = parse_blocks(&ls, &m, None, 0, false, false);
    assert_eq!(
        blocks,
        vec![
            Block::MathBlock { line: 0, end_line: 2 },
            Block::TextLine { line: 3, heading_level: 0 },
            Block::TextLine { line: 4, heading_level: 0 },
            Block::TextLine { line: 5, heading_level: 0 },
            Block::MathBlock { line: 6, end_line: 6 },
        ]
    );
}

#[test]
fn images_details_tables_and_headings() {
    let ls = lines(&[
        "# Title",
        "![pic](a.png)",
        "<details>",
        "<summary>S</summary>",
        "hidden",
        "</details>",
        "| h |",
        "|---|",
        "| v |",
        "####no space",
    ]);
    let mut m = plain(10);
    m[0].heading = 1;
    m[9].heading = 4;
    let blocks = parse_blocks(&ls, &m, None, 0, false, false);
    assert_eq!(
        blocks,
        vec![
            Block::TextLine { line: 0, heading_level: 1 },
            Block::Image { line: 1 },
            Block::Details { line: 2 },
            Block::TableRow { line: 6, table: 0, is_separator: false, is_header: true },
            Block::TableRow { line: 7, table: 0, is_separator: true, is_header: false },
            Block::TableRow { line: 8, table: 0, is_separator: false, is_header: false },
            Block::TextLine { line: 9, heading_level: 0 },
        ]
    );
    assert_eq!(outline(&blocks), vec![OutlineItem { level: 1, source_line: 0, line: 0 }]);
}

#[test]
fn an_unclosed_details_block_ends_the_note() {
    let ls = lines(&["intro", "<details>", "body", "more"]);
    let blocks = parse_blocks(&ls, &plain(4), None, 0, false, false);
    assert_eq!(blocks, vec![Block::TextLine { line: 0, heading_level: 0 }, Block::TextLine { line: 1, heading_level: 0 }]);
}

#[test]
fn link_ranges_count_the_links_before_each_item() {
    let r = link_ranges(&vec![(2, 1), (0, 0), (3, 0), (70000, 70000)]);
    assert_eq!(
        r,
        vec![
            DocumentLinkRange { start: 0, len: 2, image_count: 1 },
            DocumentLinkRange { start: 2, len: 0, image_count: 0 },
            DocumentLinkRange { start: 2, len: 3, image_count: 0 },
            DocumentLinkRange { start: 5, len: 65535, image_count: 65535 },
        ]
    );
}
