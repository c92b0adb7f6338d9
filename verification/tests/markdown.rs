use ekphos::text::is_whitespace;
use ekphos::markdown::{detect_bare_url_len, fuzzy_match, fuzzy_match_within_limits, is_inside_inline_code, normalize_image_destination, percent_decode, slugify_heading, split_cell_by_br, standalone_image_path};

#[test]
fn standalone_image_requires_exactly_one_image_on_the_source_line() {
    assert_eq!(standalone_image_path("![hero](hero.png)").as_deref(), Some("hero.png"));
    assert_eq!(standalone_image_path("  ![hero](hero.png)  ").as_deref(), Some("hero.png"));
    assert_eq!(standalone_image_path("![one](1.png) ![two](2.png)"), None);
    assert_eq!(standalone_image_path("caption ![hero](hero.png)"), None);
    assert_eq!(standalone_image_path("![hero](hero.png) caption"), None);
    assert_eq!(standalone_image_path("!![hero](hero.png)"), None);
}

#[test]
fn normalize_image_destination_supports_commonmark_local_paths() {
    assert_eq!(normalize_image_destination("<attachments/Pasted image 20250916224004.png>"), "attachments/Pasted image 20250916224004.png");
    assert_eq!(normalize_image_destination("attachments/Pasted%20image%2020250916224004.png"), "attachments/Pasted image 20250916224004.png");
    assert_eq!(normalize_image_destination("<attachments/Pasted%20image.png>"), "attachments/Pasted image.png");
}

#[test]
fn normalize_image_destination_preserves_remote_url_escapes() {
    assert_eq!(normalize_image_destination("<https://example.com/Pasted%20image.png>"), "https://example.com/Pasted%20image.png");
}

#[test]
fn normalize_image_destination_strips_only_one_angle_pair() {
    assert_eq!(normalize_image_destination("<<image.png>>"), "<image.png>");
    assert_eq!(normalize_image_destination("<image.png"), "<image.png");
}

#[test]
fn percent_decode_keeps_invalid_escapes_and_text() {
    assert_eq!(percent_decode("a%41b"), "aAb");
    assert_eq!(percent_decode("100%"), "100%");
    assert_eq!(percent_decode("%zz%4"), "%zz%4");
    assert_eq!(percent_decode("%C3%A9"), "é");
    assert_eq!(percent_decode("%FF"), "%FF");
}

#[test]
fn inline_code_is_detected_by_backtick_parity() {
    assert!(!is_inside_inline_code("a `b` c", 0));
    assert!(is_inside_inline_code("a `b` c", 3));
    assert!(!is_inside_inline_code("a `b` c", 6));
    assert!(is_inside_inline_code("é`x", 4));
}

#[test]
fn heading_slugs_are_lowercase_and_dashed() {
    assert_eq!(slugify_heading("Sub Section 1"), "sub-section-1");
    assert_eq!(slugify_heading("  Hello,   World!  "), "hello-world");
    assert_eq!(slugify_heading("--a__b--"), "a-b");
    assert_eq!(slugify_heading("Ünïcode Title"), "ünïcode-title");
}

#[test]
fn fuzzy_match_prefers_exact_then_prefix_then_substring() {
    assert_eq!(fuzzy_match("anything", ""), Some(0));
    assert_eq!(fuzzy_match("Notes", "notes"), Some(1000));
    assert_eq!(fuzzy_match("Notebook", "note"), Some(992));
    assert_eq!(fuzzy_match("my notes", "notes"), Some(547));
    assert_eq!(fuzzy_match("abc", "ac"), Some(100 + 30 + 98));
    assert_eq!(fuzzy_match("abc", "ca"), None);
}

#[test]
fn scattered_matches_never_outscore_an_exact_match() {
    // The word starts would earn 1098 points; an exact match scores 1000.
    assert_eq!(fuzzy_match("a b c d e f g h i", "abcdefghi"), Some(999));
    assert_eq!(fuzzy_match("abcdefghi", "abcdefghi"), Some(1000));
}

#[test]
fn split_cell_by_br_basic_variants() {
    assert_eq!(split_cell_by_br("no break"), vec!["no break"]);
    assert_eq!(split_cell_by_br("a<br>b"), vec!["a", "b"]);
    assert_eq!(split_cell_by_br("a<br/>b"), vec!["a", "b"]);
    assert_eq!(split_cell_by_br("a<br />b"), vec!["a", "b"]);
}

#[test]
fn split_cell_by_br_case_insensitive() {
    assert_eq!(split_cell_by_br("A<BR>B"), vec!["A", "B"]);
    assert_eq!(split_cell_by_br("A<Br/>B"), vec!["A", "B"]);
}

#[test]
fn split_cell_by_br_multiple_and_empty_segments() {
    assert_eq!(split_cell_by_br("<br>head<br>mid<br>"), vec!["", "head", "mid", ""]);
}

#[test]
fn split_cell_by_br_malformed_tag_passes_through() {
    assert_eq!(split_cell_by_br("a<br b"), vec!["a<br b"]);
    assert_eq!(split_cell_by_br("a<brief>b"), vec!["a<brief>b"]);
}

#[test]
fn detect_bare_url_basic() {
    assert_eq!(detect_bare_url_len("see https://example.com now", 4), Some(19));
    assert_eq!(detect_bare_url_len("http://a.test", 0), Some(13));
}

#[test]
fn detect_bare_url_strips_trailing_punctuation() {
    assert_eq!(detect_bare_url_len("visit https://example.com.", 6), Some(19));
}

#[test]
fn detect_bare_url_stops_at_delimiters() {
    assert_eq!(detect_bare_url_len("(https://x.test)", 1), Some(14));
    assert_eq!(detect_bare_url_len("<https://x.test>", 1), Some(14));
}

#[test]
fn detect_bare_url_no_match_returns_none() {
    assert_eq!(detect_bare_url_len("nothing here", 0), None);
    assert_eq!(detect_bare_url_len("http:/broken", 0), None);
}

#[test]
fn detect_bare_url_counts_bytes_after_multibyte_prefix() {
    assert_eq!(detect_bare_url_len("é https://x.test/ü", 3), Some(17));
    assert_eq!(detect_bare_url_len("https://", 0), None);
}

#[test]
fn white_space_agrees_with_the_standard_library() {
    for code in 0u32..=0x10FFFF {
        if let Some(c) = char::from_u32(code) {
            assert_eq!(is_whitespace(c), c.is_whitespace(), "U+{:04X}", code);
        }
    }
}

#[test]
fn long_texts_are_still_scored() {
    let mut text = String::from("a");
    text.push_str(&"x".repeat(15_000_000));
    text.push('b');
    assert_eq!(fuzzy_match_within_limits(&text, "ab"), Some(Some(131)));
    assert_eq!(fuzzy_match_within_limits("Notes", "notes"), Some(Some(1000)));
}
