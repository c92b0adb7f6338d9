use ekphos::display::{columns_that_fit, contains, edge_anchor, edge_glyph, is_edge_glyph, label_budget, overview_glyph, DetailLevel, OverviewBin};
use ekphos::geometry::Rect;

#[test]
fn project_columns_use_the_established_compact_width() {
    assert_eq!(columns_that_fit(13), 1);
    assert_eq!(columns_that_fit(14), 1);
    assert_eq!(columns_that_fit(28), 2);
}

#[test]
fn overview_nodes_remain_round_and_distinct_from_edges() {
    let bin = OverviewBin { representative: 0, count: 1, selected: false, root: false, connected: false };
    assert_eq!(overview_glyph(bin), '•');
    assert_ne!(overview_glyph(bin), '·');
    assert_eq!(overview_glyph(OverviewBin { count: 8, ..bin }), '●');
}

#[test]
fn dense_views_suppress_labels() {
    let area = Rect::new(0, 0, 120, 40);
    assert_eq!(label_budget(DetailLevel::Overview, 1, area), 0);
    assert_eq!(label_budget(DetailLevel::Compact, 1, area), 0);
    assert_eq!(label_budget(DetailLevel::Detail, 201, area), 0);
    assert_eq!(label_budget(DetailLevel::Detail, 20, area), 20);
}

#[test]
fn edge_anchors_use_node_centers_at_detail_level() {
    assert_eq!(edge_anchor((10, 5), DetailLevel::Overview), (10, 5));
    assert_eq!(edge_anchor((10, 5), DetailLevel::Compact), (10, 5));
    assert_eq!(edge_anchor((10, 5), DetailLevel::Detail), (11, 6));
}

#[test]
fn edge_glyphs_join_their_directions() {
    assert_eq!(edge_glyph(2 | 8), '─');
    assert_eq!(edge_glyph(1 | 4), '│');
    assert_eq!(edge_glyph(2 | 4), '╭');
    assert_eq!(edge_glyph(1 | 2 | 4 | 8), '┼');
    assert_eq!(edge_glyph(2), '─');
    assert_eq!(edge_glyph(1), '│');
    assert_eq!(edge_glyph(0), '│');
    for directions in 0..16u8 {
        let glyph = edge_glyph(directions).to_string();
        assert!(is_edge_glyph(&glyph));
    }
    assert!(!is_edge_glyph("•"));
    assert!(!is_edge_glyph("──"));
}

#[test]
fn contains_covers_the_area_only() {
    let area = Rect::new(10, 5, 20, 10);
    assert!(contains(area, 10, 5));
    assert!(contains(area, 29, 14));
    assert!(!contains(area, 30, 14));
    assert!(!contains(area, 9, 5));
    assert!(!contains(area, 10, 15));
}
