use ekphos::session::Alignment;
use ekphos::tables::{table_block_end, table_line, table_metadata, table_row};

fn row(line: &str) -> (Vec<String>, bool) {
    table_row(line)
}

#[test]
fn table_lines_start_and_end_with_a_bar() {
    assert!(table_line("| a | b |"));
    assert!(table_line("   |x|  "));
    assert!(!table_line("| a | b"));
    assert!(!table_line("a | b |"));
    assert!(!table_line(""));
}

#[test]
fn a_table_block_runs_to_the_first_other_line() {
    let lines: Vec<String> = ["intro", "| a |", "|---|", "| 1 |", "after"].iter().map(|s| s.to_string()).collect();
    assert_eq!(table_block_end(&lines, 1), 4);
    assert_eq!(table_block_end(&lines, 0), 0);
    assert_eq!(table_block_end(&lines, 5), 5);
}

#[test]
fn rows_split_into_trimmed_cells() {
    let (cells, sep) = row("| Name |  Value | |");
    assert_eq!(cells, vec!["Name".to_string(), "Value".to_string(), String::new()]);
    assert!(!sep);
    let (cells, sep) = row("|:---|---:| :-: |");
    assert_eq!(cells, vec![":---".to_string(), "---:".to_string(), ":-:".to_string()]);
    assert!(sep);
    let (_, sep) = row("|---||");
    assert!(!sep);
    let (cells, _) = row("||");
    assert_eq!(cells, vec![String::new()]);
}

#[test]
fn metadata_takes_widest_cells_and_separator_alignments() {
    let rows = vec![row("| Name | Score |"), row("|:---:|---:|"), row("| Alexandra | 7 |"), row("| **b** | 10 | extra |")];
    let (meta, separator) = table_metadata(&rows);
    assert_eq!(separator, Some(1));
    assert_eq!(meta.column_widths, vec![9, 5, 5]);
    assert_eq!(meta.alignments, vec![Alignment::Center, Alignment::Right, Alignment::Left]);
}

#[test]
fn metadata_without_separator_is_left_aligned_and_at_least_three_wide() {
    let rows = vec![row("| a | b |")];
    let (meta, separator) = table_metadata(&rows);
    assert_eq!(separator, None);
    assert_eq!(meta.column_widths, vec![3, 3]);
    assert_eq!(meta.alignments, vec![Alignment::Left, Alignment::Left]);
    let (empty, none) = table_metadata(&Vec::new());
    assert!(empty.column_widths.is_empty() && empty.alignments.is_empty() && none.is_none());
}
