use ekphos::image_cache::{ImageCache, MAX_PROTOCOL_PLACEMENTS};

const BIG: usize = 1_000_000_000;

fn keys(c: &ImageCache) -> Vec<String> {
    c.image_states.iter().map(|(k, _)| k.clone()).collect()
}

#[test]
fn frame_numbers_count_up_and_skip_zero_on_wrap() {
    let mut c = ImageCache::new();
    c.begin_image_frame();
    assert_eq!(c.render_epoch, 1);
    c.begin_image_frame();
    assert_eq!(c.render_epoch, 2);
    c.render_epoch = u64::MAX;
    c.begin_image_frame();
    assert_eq!(c.render_epoch, 1);
}

#[test]
fn finish_frame_keeps_only_images_shown_this_frame_for_this_document() {
    let mut c = ImageCache::new();
    c.begin_image_frame();
    c.insert_image_state("a.png".to_string(), 10, 5, 100, 7, 0, BIG);
    c.insert_image_state("b.png".to_string(), 10, 5, 200, 7, 0, BIG);
    c.insert_image_state("old-doc.png".to_string(), 10, 5, 50, 6, 0, BIG);
    assert_eq!(c.protocol_bytes, 350);

    c.begin_image_frame();
    assert!(c.touch_image_state(&"a.png".to_string(), 10, 5, 7));
    c.finish_image_frame(7, 0, BIG);
    assert_eq!(keys(&c), vec!["a.png".to_string()]);
    assert_eq!(c.protocol_bytes, 100);
    assert_eq!(c.image_states[0].1.last_visible_epoch, 2);
}

#[test]
fn touch_drops_a_placement_of_another_size_or_document() {
    let mut c = ImageCache::new();
    c.begin_image_frame();
    c.insert_image_state("a.png".to_string(), 10, 5, 100, 1, 0, BIG);
    c.insert_image_state("b.png".to_string(), 10, 5, 30, 1, 0, BIG);

    assert!(!c.touch_image_state(&"a.png".to_string(), 11, 5, 1));
    assert_eq!(keys(&c), vec!["b.png".to_string()]);
    assert_eq!(c.protocol_bytes, 30);

    assert!(!c.touch_image_state(&"b.png".to_string(), 10, 5, 2));
    assert!(c.image_states.is_empty());
    assert_eq!(c.protocol_bytes, 0);

    assert!(!c.touch_image_state(&"missing.png".to_string(), 10, 5, 1));
}

#[test]
fn touch_marks_a_matching_placement_as_shown_now() {
    let mut c = ImageCache::new();
    c.begin_image_frame();
    c.insert_image_state("a.png".to_string(), 3, 4, 10, 1, 0, BIG);
    c.begin_image_frame();
    c.begin_image_frame();
    assert!(c.touch_image_state(&"a.png".to_string(), 3, 4, 1));
    assert_eq!(c.image_states[0].1.last_visible_epoch, 3);
    assert_eq!(c.protocol_bytes, 10);
}

#[test]
fn insert_replaces_an_earlier_placement_of_the_same_key() {
    let mut c = ImageCache::new();
    c.begin_image_frame();
    c.insert_image_state("a.png".to_string(), 3, 4, 10, 1, 0, BIG);
    c.insert_image_state("a.png".to_string(), 6, 8, 25, 1, 0, BIG);
    assert_eq!(c.image_states.len(), 1);
    assert_eq!(c.image_states[0].1.width, 6);
    assert_eq!(c.image_states[0].1.source_bytes, 25);
    assert_eq!(c.protocol_bytes, 25);
}

#[test]
fn memory_over_budget_drops_the_least_recently_shown_first() {
    let mut c = ImageCache::new();
    c.begin_image_frame();
    c.insert_image_state("first.png".to_string(), 1, 1, 40, 1, 0, 1000);
    c.begin_image_frame();
    c.insert_image_state("second.png".to_string(), 1, 1, 40, 1, 0, 1000);
    c.begin_image_frame();
    // 120 bytes plus 30 decoded exceed 100, and so do 80 plus 30: the two
    // oldest must go.
    c.insert_image_state("third.png".to_string(), 1, 1, 40, 1, 30, 100);
    assert_eq!(keys(&c), vec!["third.png".to_string()]);
    assert_eq!(c.protocol_bytes, 40);
}

#[test]
fn memory_trim_stops_once_under_budget() {
    let mut c = ImageCache::new();
    c.begin_image_frame();
    c.insert_image_state("first.png".to_string(), 1, 1, 40, 1, 0, 1000);
    c.begin_image_frame();
    c.insert_image_state("second.png".to_string(), 1, 1, 40, 1, 0, 1000);
    c.begin_image_frame();
    c.insert_image_state("third.png".to_string(), 1, 1, 40, 1, 10, 100);
    assert_eq!(keys(&c), vec!["second.png".to_string(), "third.png".to_string()]);
    assert_eq!(c.protocol_bytes, 80);
}

#[test]
fn the_last_placement_is_kept_even_over_budget() {
    let mut c = ImageCache::new();
    c.begin_image_frame();
    c.insert_image_state("huge.png".to_string(), 1, 1, 500, 1, 0, 100);
    assert_eq!(keys(&c), vec!["huge.png".to_string()]);
    assert_eq!(c.protocol_bytes, 500);
}

#[test]
fn placements_beyond_the_limit_are_trimmed_oldest_first() {
    let mut c = ImageCache::new();
    for i in 0..(MAX_PROTOCOL_PLACEMENTS + 3) {
        c.begin_image_frame();
        c.insert_image_state(format!("img{}.png", i), 1, 1, 1, 1, 0, BIG);
    }
    assert_eq!(c.image_states.len(), MAX_PROTOCOL_PLACEMENTS);
    let ks = keys(&c);
    assert!(!ks.contains(&"img0.png".to_string()));
    assert!(!ks.contains(&"img2.png".to_string()));
    assert!(ks.contains(&"img3.png".to_string()));
    assert!(ks.contains(&format!("img{}.png", MAX_PROTOCOL_PLACEMENTS + 2)));
    assert_eq!(c.protocol_bytes, MAX_PROTOCOL_PLACEMENTS);
}

#[test]
fn trim_under_budget_changes_nothing() {
    let mut c = ImageCache::new();
    c.begin_image_frame();
    c.insert_image_state("a.png".to_string(), 1, 1, 10, 1, 0, BIG);
    c.insert_image_state("b.png".to_string(), 1, 1, 10, 1, 0, BIG);
    c.trim_image_memory(5, 100);
    assert_eq!(keys(&c), vec!["a.png".to_string(), "b.png".to_string()]);
    assert_eq!(c.protocol_bytes, 20);
}

#[test]
fn remove_and_clear_release_their_bytes() {
    let mut c = ImageCache::new();
    c.begin_image_frame();
    c.insert_image_state("a.png".to_string(), 1, 1, 10, 1, 0, BIG);
    c.insert_image_state("b.png".to_string(), 1, 1, 15, 1, 0, BIG);
    c.remove_image_state(&"a.png".to_string());
    assert_eq!(keys(&c), vec!["b.png".to_string()]);
    assert_eq!(c.protocol_bytes, 15);
    c.remove_image_state(&"missing".to_string());
    assert_eq!(c.protocol_bytes, 15);
    c.clear();
    assert!(c.image_states.is_empty());
    assert_eq!(c.protocol_bytes, 0);
    assert_eq!(c.render_epoch, 1);
}
