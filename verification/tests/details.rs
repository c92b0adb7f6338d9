use ekphos::details::{details_block, details_start};

fn lines(ls: &[&str]) -> Vec<String> {
    ls.iter().map(|l| l.to_string()).collect()
}

#[test]
fn details_blocks_open_on_a_details_tag() {
    assert!(details_start("<details>"));
    assert!(details_start("  <details open>  "));
    assert!(details_start("<details><summary>Hi</summary>"));
    assert!(!details_start("<details"));
    assert!(!details_start("text <details>"));
}

#[test]
fn a_details_block_collects_its_summary_and_folded_lines() {
    let ls = lines(&["<details>", "<summary>More info</summary>", "first", "", "second", "</details>", "after"]);
    let block = details_block(&ls, 0).expect("closed block");
    assert_eq!(block.summary.as_deref(), Some("More info"));
    assert_eq!(block.content_lines, vec![2, 3, 4]);
    assert_eq!(block.next_line, 6);
}

#[test]
fn summary_over_several_lines_and_empty_summaries() {
    let ls = lines(&["<details>", "<summary>", "Title", "</summary>", "body", "</details>"]);
    let block = details_block(&ls, 0).unwrap();
    assert_eq!(block.summary, None);
    assert_eq!(block.content_lines, vec![2, 4]);
    let ls = lines(&["<details>", "<summary><summary> Twice", "</details>"]);
    let block = details_block(&ls, 0).unwrap();
    assert_eq!(block.summary.as_deref(), Some("Twice"));
    assert!(block.content_lines.is_empty());
    assert_eq!(block.next_line, 3);
}

#[test]
fn an_unclosed_details_block_is_none() {
    let ls = lines(&["<details>", "<summary>S</summary>", "body"]);
    assert!(details_block(&ls, 0).is_none());
}
