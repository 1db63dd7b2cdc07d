use barepdf::controllers::bookmark_controller::{BookmarkController, BookmarkEntry};
use barepdf::controllers::navigation_controller::NavigationTarget;
use barepdf::controllers::search_controller::SearchController;

#[test]
fn toggle_adds_bookmark_when_missing() {
    let mut bookmarks = Vec::new();
    let added = BookmarkController::toggle_bookmark(&mut bookmarks, 5, Some("My Bookmark".to_string()));

    assert!(added);
    assert_eq!(bookmarks.len(), 1);
    assert_eq!(bookmarks[0].page_index, 5);
    assert_eq!(bookmarks[0].title, "My Bookmark");
}

#[test]
fn toggle_removes_bookmark_when_present() {
    let mut bookmarks = vec![BookmarkEntry {
        page_index: 5,
        title: "Existing".to_string(),
        created_unix: 0,
    }];
    let added = BookmarkController::toggle_bookmark(&mut bookmarks, 5, None);

    assert!(!added);
    assert!(bookmarks.is_empty());
}

#[test]
fn toggle_sorts_bookmarks_by_page() {
    let mut bookmarks = vec![BookmarkEntry {
        page_index: 8,
        title: "Page 8".to_string(),
        created_unix: 0,
    }];
    BookmarkController::toggle_bookmark(&mut bookmarks, 2, Some("Page 2".to_string()));

    assert_eq!(bookmarks.len(), 2);
    assert_eq!(bookmarks[0].page_index, 2);
    assert_eq!(bookmarks[1].page_index, 8);
}

#[test]
fn remove_bookmark_deletes_by_raw_page() {
    let mut bookmarks = vec![
        BookmarkEntry { page_index: 1, title: "A".to_string(), created_unix: 0 },
        BookmarkEntry { page_index: 3, title: "B".to_string(), created_unix: 0 },
    ];
    let removed = BookmarkController::remove_bookmark(&mut bookmarks, 3);

    assert!(removed);
    assert_eq!(bookmarks.len(), 1);
    assert_eq!(bookmarks[0].page_index, 1);
}

#[test]
fn rename_bookmark_changes_title_by_raw_page() {
    let mut bookmarks = vec![BookmarkEntry {
        page_index: 4,
        title: "Old Title".to_string(),
        created_unix: 0,
    }];
    let renamed = BookmarkController::rename_bookmark(&mut bookmarks, 4, "New Title".to_string());

    assert!(renamed);
    assert_eq!(bookmarks[0].title, "New Title");
}

#[test]
fn new_bookmark_without_title_is_named_after_its_one_based_page() {
    let mut bookmarks = Vec::new();
    BookmarkController::toggle_bookmark_at(&mut bookmarks, 9, None, 42);
    assert_eq!(bookmarks[0].title, "Page 10");
    assert_eq!(bookmarks[0].created_unix, 42);
}

#[test]
fn toggling_twice_gives_the_list_back() {
    let mut bookmarks = vec![
        BookmarkEntry { page_index: 1, title: "A".to_string(), created_unix: 0 },
        BookmarkEntry { page_index: 6, title: "B".to_string(), created_unix: 0 },
    ];
    assert!(BookmarkController::toggle_bookmark_at(&mut bookmarks, 3, None, 7));
    assert_eq!(
        bookmarks.iter().map(|b| b.page_index).collect::<Vec<_>>(),
        vec![1, 3, 6]
    );
    assert!(!BookmarkController::toggle_bookmark_at(&mut bookmarks, 3, None, 8));
    assert_eq!(
        bookmarks.iter().map(|b| (b.page_index, b.title.as_str())).collect::<Vec<_>>(),
        vec![(1, "A"), (6, "B")]
    );
}

#[test]
fn missing_bookmark_is_neither_removed_nor_renamed() {
    let mut bookmarks = vec![BookmarkEntry { page_index: 2, title: "A".to_string(), created_unix: 0 }];
    assert!(!BookmarkController::remove_bookmark(&mut bookmarks, 4));
    assert!(!BookmarkController::rename_bookmark(&mut bookmarks, 4, "X".to_string()));
    assert_eq!(bookmarks[0].title, "A");
}

#[test]
fn test_match_rotation() {
    assert_eq!(SearchController::next_match(0, 5), 1);
    assert_eq!(SearchController::next_match(4, 5), 0);
    assert_eq!(SearchController::next_match(0, 0), 0);

    assert_eq!(SearchController::prev_match(1, 5), 0);
    assert_eq!(SearchController::prev_match(0, 5), 4);
    assert_eq!(SearchController::prev_match(0, 0), 0);
}

#[test]
fn test_match_summary() {
    assert_eq!(SearchController::match_summary(0, 0), "0 / 0");
    assert_eq!(SearchController::match_summary(0, 5), "1 / 5");
    assert_eq!(SearchController::match_summary(4, 5), "5 / 5");
}

#[test]
fn stepping_forward_then_back_returns_to_the_match() {
    for current in 0..7 {
        let next = SearchController::next_match(current, 7);
        assert_eq!(SearchController::prev_match(next, 7), current);
    }
}

#[test]
fn navigation_targets_are_clamped_to_the_document() {
    assert_eq!(NavigationTarget::Next.resolve(3, 10), Some(4));
    assert_eq!(NavigationTarget::Next.resolve(9, 10), Some(9));
    assert_eq!(NavigationTarget::Previous.resolve(0, 10), Some(0));
    assert_eq!(NavigationTarget::Previous.resolve(5, 10), Some(4));
    assert_eq!(NavigationTarget::First.resolve(5, 10), Some(0));
    assert_eq!(NavigationTarget::Last.resolve(5, 10), Some(9));
    assert_eq!(NavigationTarget::Page(10).resolve(0, 10), Some(9));
    assert_eq!(NavigationTarget::First.resolve(0, 0), None);
    assert_eq!(NavigationTarget::Page(3).resolve(0, 10), Some(3));
}
