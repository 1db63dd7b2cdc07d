use barepdf::presentation::event_pump::woken_recently;
use std::time::{Duration, Instant};
use barepdf::application::update_controller::UpdateController;
use barepdf::presentation::event_pump::pump_requires_active;
use barepdf::presentation::image_cache::{UiImageCache, PAGE_RENDER, THUMBNAIL_RENDER};
use barepdf::presentation::render_events::{dimensions_follow_up, visible_page_indices, restored_page};
use barepdf::presentation::text_geometry::{TextGeometryCache, MAX_TEXT_GEOMETRIES, TEXT_GEOMETRY_BUDGET};

#[test]
fn image_cache_drops_least_recent_images_over_budget() {
    let mut cache = UiImageCache::new(100);
    cache.insert((1, 0, PAGE_RENDER), 40);
    cache.insert((1, 1, PAGE_RENDER), 40);
    assert_eq!(cache.get((1, 0, PAGE_RENDER)), Some(40));
    cache.insert((1, 2, PAGE_RENDER), 40);
    assert!(cache.contains_key((1, 0, PAGE_RENDER)));
    assert!(!cache.contains_key((1, 1, PAGE_RENDER)));
    assert!(cache.contains_key((1, 2, PAGE_RENDER)));
}

#[test]
fn image_larger_than_the_budget_is_not_kept() {
    let mut cache = UiImageCache::new(10);
    cache.insert((1, 0, PAGE_RENDER), 11);
    assert!(!cache.contains_key((1, 0, PAGE_RENDER)));
    assert_eq!(cache.get((1, 0, PAGE_RENDER)), None);
}

#[test]
fn replacing_an_image_counts_its_new_size() {
    let mut cache = UiImageCache::new(100);
    cache.insert((1, 0, PAGE_RENDER), 60);
    cache.insert((1, 0, PAGE_RENDER), 30);
    cache.insert((1, 1, PAGE_RENDER), 60);
    assert!(cache.contains_key((1, 0, PAGE_RENDER)));
    assert_eq!(cache.get((1, 0, PAGE_RENDER)), Some(30));
}

#[test]
fn removing_a_document_keeps_the_others() {
    let mut cache = UiImageCache::new(1000);
    cache.insert((1, 0, PAGE_RENDER), 10);
    cache.insert((2, 0, PAGE_RENDER), 10);
    cache.insert((1, 3, THUMBNAIL_RENDER), 10);
    let mut removed = cache.remove_document(1);
    removed.sort();
    assert_eq!(removed, vec![(1, 0, PAGE_RENDER), (1, 3, THUMBNAIL_RENDER)]);
    assert!(cache.contains_key((2, 0, PAGE_RENDER)));
    assert!(!cache.contains_key((1, 0, PAGE_RENDER)));
}

#[test]
fn text_geometry_is_isolated_by_document() {
    let mut cache: TextGeometryCache<&str> = TextGeometryCache::new();
    cache.insert(1, 0, "first", 10);
    cache.insert(2, 0, "second", 10);
    assert_eq!(cache.get(1, 0), Some(&"first"));
    assert_eq!(cache.get(2, 0), Some(&"second"));
    cache.remove_document(1);
    assert!(!cache.contains_key(1, 0));
    assert!(cache.contains_key(2, 0));
}

#[test]
fn text_geometry_keeps_a_bounded_number_of_pages() {
    let mut cache: TextGeometryCache<u32> = TextGeometryCache::new();
    for page in 0..(MAX_TEXT_GEOMETRIES as u32 + 3) {
        cache.insert(1, page, page, 1);
    }
    assert!(!cache.contains_key(1, 0));
    assert!(!cache.contains_key(1, 2));
    assert!(cache.contains_key(1, 3));
    assert_eq!(cache.pages_in_order(1).len(), MAX_TEXT_GEOMETRIES);
}

#[test]
fn text_geometry_respects_its_byte_budget() {
    let mut cache: TextGeometryCache<u32> = TextGeometryCache::new();
    cache.insert(1, 0, 0, TEXT_GEOMETRY_BUDGET / 2);
    cache.insert(1, 1, 1, TEXT_GEOMETRY_BUDGET / 2);
    assert_eq!(cache.get(1, 0), Some(&0));
    cache.insert(1, 2, 2, TEXT_GEOMETRY_BUDGET / 2);
    assert!(cache.contains_key(1, 0));
    assert!(!cache.contains_key(1, 1));
    cache.insert(1, 3, 3, TEXT_GEOMETRY_BUDGET + 1);
    assert!(!cache.contains_key(1, 3));
}

#[test]
fn text_geometry_lists_pages_in_order() {
    let mut cache: TextGeometryCache<&str> = TextGeometryCache::new();
    cache.insert(7, 5, "five", 1);
    cache.insert(7, 2, "two", 1);
    cache.insert(8, 1, "other", 1);
    cache.insert(7, 9, "nine", 1);
    assert_eq!(cache.pages_in_order(7), vec![2, 5, 9]);
    assert_eq!(cache.in_page_order(7), vec![&"two", &"five", &"nine"]);
    assert_eq!(cache.peek(8, 1), Some(&"other"));
}

#[test]
fn missing_visible_render_keeps_pump_active() {
    let update = UpdateController::new();
    let mut images = UiImageCache::new(1000);
    images.insert((4, 0, PAGE_RENDER), 10);
    assert!(!pump_requires_active(&update, false, false, Some(4), &[0], &images, false, false, false));
    assert!(pump_requires_active(&update, false, false, Some(4), &[0, 1], &images, false, false, false));
    assert!(!pump_requires_active(&update, false, false, None, &[0, 1], &images, false, false, false));
}

#[test]
fn update_resize_and_scroll_keep_pump_active() {
    let mut update = UpdateController::new();
    let images = UiImageCache::new(1000);
    assert!(pump_requires_active(&update, false, true, None, &[], &images, false, false, false));
    assert!(pump_requires_active(&update, false, false, None, &[], &images, false, true, false));
    assert!(pump_requires_active(&update, true, false, None, &[], &images, false, false, false));
    assert!(update.begin_check());
    assert!(pump_requires_active(&update, false, false, None, &[], &images, false, false, false));
}

#[test]
fn render_window_follows_the_visible_pages() {
    assert_eq!(visible_page_indices(0, false, 0, None, None), Vec::<u32>::new());
    assert_eq!(visible_page_indices(10, true, 4, Some(1), Some(2)), vec![4]);
    assert_eq!(visible_page_indices(10, false, 4, Some(3), Some(5)), vec![2, 3, 4, 5, 6]);
    assert_eq!(visible_page_indices(10, false, 0, Some(0), Some(9)), (0..10).collect::<Vec<u32>>());
    assert_eq!(visible_page_indices(10, false, 7, None, None), vec![6, 7, 8]);
    assert_eq!(restored_page(12, 5), 4);
    assert_eq!(restored_page(2, 5), 2);
    assert_eq!(dimensions_follow_up(3, 1, 10), (11, true));
    assert_eq!(dimensions_follow_up(3, 1, 30), (31, false));
}

#[test]
fn render_command_wake_has_bounded_active_window() {
    let update = UpdateController::new();
    let images = UiImageCache::new(1000);
    let woken_at = Some(Instant::now());

    assert!(pump_requires_active(
        &update, false, false, None, &[], &images, false, false,
        woken_recently(woken_at, Instant::now())
    ));
    assert!(!pump_requires_active(
        &update, false, false, None, &[], &images, false, false,
        woken_recently(woken_at, Instant::now() + Duration::from_secs(1))
    ));
    assert!(!woken_recently(None, Instant::now()));
}

#[test]
fn a_wake_at_this_instant_counts() {
    let now = Instant::now();
    assert!(woken_recently(Some(now), now));
}

#[test]
fn image_cache_keeps_what_it_holds_within_its_budget() {
    let mut cache = UiImageCache::new(100);
    for page in 0..10u32 {
        cache.insert((1, page, PAGE_RENDER), 40);
    }
    let held = (0..10u32).filter(|page| cache.contains_key((1, *page, PAGE_RENDER))).count();
    assert_eq!(held, 2);
    assert!(cache.contains_key((1, 9, PAGE_RENDER)));
    assert!(cache.contains_key((1, 8, PAGE_RENDER)));
    cache.insert((2, 0, PAGE_RENDER), 101);
    assert!(!cache.contains_key((2, 0, PAGE_RENDER)));
}

#[test]
fn image_eviction_stops_as_soon_as_the_cache_fits() {
    let mut cache = UiImageCache::new(100);
    cache.insert((1, 0, PAGE_RENDER), 30);
    cache.insert((1, 1, PAGE_RENDER), 30);
    cache.insert((1, 2, PAGE_RENDER), 30);
    cache.insert((1, 3, PAGE_RENDER), 50);
    assert!(!cache.contains_key((1, 0, PAGE_RENDER)));
    assert!(!cache.contains_key((1, 1, PAGE_RENDER)));
    assert!(cache.contains_key((1, 2, PAGE_RENDER)));
    assert!(cache.contains_key((1, 3, PAGE_RENDER)));
}

#[test]
fn text_geometry_eviction_stops_as_soon_as_there_is_room() {
    let mut cache: TextGeometryCache<u32> = TextGeometryCache::new();
    let third = TEXT_GEOMETRY_BUDGET / 3;
    cache.insert(1, 0, 0, third);
    cache.insert(1, 1, 1, third);
    cache.insert(1, 2, 2, third);
    cache.insert(1, 3, 3, third);
    assert!(!cache.contains_key(1, 0));
    assert!(cache.contains_key(1, 1));
    assert!(cache.contains_key(1, 2));
    assert!(cache.contains_key(1, 3));
}
