use barepdf::application::state::{DocumentId, DocumentState, ReadyDocument};
use barepdf::application::tabs::{OpenTab, TabSet};
use barepdf::controllers::tab_controller::{activate_tab, close_tab};
use barepdf::presentation::image_cache::{UiImageCache, PAGE_RENDER, THUMBNAIL_RENDER};
use barepdf::presentation::text_geometry::TextGeometryCache;
use std::time::Instant;

fn ready(id: u64, path: &str) -> DocumentState {
    DocumentState::Ready(ReadyDocument {
        id: DocumentId::new(id),
        path: path.to_string(),
        page_count: 3,
        started_at: Instant::now(),
    })
}

#[test]
fn closing_a_tab_drops_the_caches_of_its_open_document() {
    let mut tabs: TabSet<()> = TabSet::new();
    let OpenTab::Created(first) = tabs.open("a.pdf".to_string(), "a".into(), ()) else {
        panic!("a opens");
    };
    tabs.set_active_document(Some(ready(1, "a.pdf")));
    let OpenTab::Created(_second) = tabs.open("b.pdf".to_string(), "b".into(), ()) else {
        panic!("b opens");
    };
    tabs.set_active_document(Some(ready(2, "b.pdf")));

    let mut pages = UiImageCache::new(1000);
    let mut thumbnails = UiImageCache::new(1000);
    let mut geometries: TextGeometryCache<&str> = TextGeometryCache::new();
    pages.insert((1, 0, PAGE_RENDER), 10);
    pages.insert((2, 0, PAGE_RENDER), 10);
    thumbnails.insert((1, 0, THUMBNAIL_RENDER), 5);
    geometries.insert(1, 0, "a", 4);
    geometries.insert(2, 0, "b", 4);

    let outcome = close_tab(&mut tabs, &mut pages, &mut thumbnails, &mut geometries, first.get());
    assert!(outcome.closed);
    assert_eq!(outcome.document, Some(DocumentId::new(1)));
    assert!(!pages.contains_key((1, 0, PAGE_RENDER)));
    assert!(pages.contains_key((2, 0, PAGE_RENDER)));
    assert!(!thumbnails.contains_key((1, 0, THUMBNAIL_RENDER)));
    assert!(!geometries.contains_key(1, 0));
    assert!(geometries.contains_key(2, 0));
    assert_eq!(tabs.tabs().len(), 1);

    let again = close_tab(&mut tabs, &mut pages, &mut thumbnails, &mut geometries, first.get());
    assert!(!again.closed);
    assert_eq!(again.document, None);
}

#[test]
fn closing_a_tab_without_an_open_document_keeps_the_caches() {
    let mut tabs: TabSet<()> = TabSet::new();
    let Some(blank) = tabs.new_empty(()) else {
        panic!("a blank tab fits");
    };
    let mut pages = UiImageCache::new(1000);
    let mut thumbnails = UiImageCache::new(1000);
    let mut geometries: TextGeometryCache<u8> = TextGeometryCache::new();
    pages.insert((9, 0, PAGE_RENDER), 10);

    let outcome = close_tab(&mut tabs, &mut pages, &mut thumbnails, &mut geometries, blank.get());
    assert!(outcome.closed);
    assert_eq!(outcome.document, None);
    assert!(pages.contains_key((9, 0, PAGE_RENDER)));
    assert!(tabs.tabs().is_empty());
}

#[test]
fn activating_a_tab_reports_its_file() {
    let mut tabs: TabSet<()> = TabSet::new();
    let OpenTab::Created(first) = tabs.open("a.pdf".to_string(), "a".into(), ()) else {
        panic!("a opens");
    };
    let Some(blank) = tabs.new_empty(()) else {
        panic!("a blank tab fits");
    };

    let to_first = activate_tab(&mut tabs, first.get());
    assert!(to_first.activated);
    assert_eq!(to_first.path.as_deref(), Some("a.pdf"));
    assert_eq!(tabs.active_id(), Some(first));

    let to_blank = activate_tab(&mut tabs, blank.get());
    assert!(to_blank.activated);
    assert_eq!(to_blank.path, None);

    let missing = activate_tab(&mut tabs, 999);
    assert!(!missing.activated);
    assert_eq!(tabs.active_id(), Some(blank));
}
